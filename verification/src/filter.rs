//! The filter cascade: four filters of decreasing strictness that every
//! query strategy runs, the strictest first.

use vstd::prelude::*;

verus! {

/// What a payload field is matched against.
#[derive(Debug, PartialEq, Eq)]
pub enum MatchValue {
    /// The field's text contains the given text.
    Text(String),
    /// The field is exactly the given keyword.
    Keyword(String),
    /// The field is one of the given keywords.
    Keywords(Vec<String>),
}

/// Mathematical value of a `MatchValue`.
pub enum MatchValueView {
    Text(Seq<char>),
    Keyword(Seq<char>),
    Keywords(Seq<Seq<char>>),
}

impl View for MatchValue {
    type V = MatchValueView;

    open spec fn view(&self) -> MatchValueView {
        match self {
            MatchValue::Text(text) => MatchValueView::Text(text@),
            MatchValue::Keyword(keyword) => MatchValueView::Keyword(keyword@),
            MatchValue::Keywords(keywords) => MatchValueView::Keywords(keywords.deep_view()),
        }
    }
}

/// A condition on one payload field.
#[derive(Debug, PartialEq, Eq)]
pub struct Condition {
    pub field: String,
    pub value: MatchValue,
}

/// Mathematical value of a `Condition`.
pub struct ConditionView {
    pub field: Seq<char>,
    pub value: MatchValueView,
}

impl View for Condition {
    type V = ConditionView;

    open spec fn view(&self) -> ConditionView {
        ConditionView { field: self.field@, value: self.value@ }
    }
}

/// A filter: a point passes if it meets every condition of `must` and none
/// of `must_not`.
#[derive(Debug, PartialEq, Eq)]
pub struct Filter {
    pub must: Vec<Condition>,
    pub must_not: Vec<Condition>,
}

/// Mathematical value of a `Filter`.
pub struct FilterView {
    pub must: Seq<ConditionView>,
    pub must_not: Seq<ConditionView>,
}

/// The values of a list of conditions.
pub open spec fn conditions_view(conditions: Seq<Condition>) -> Seq<ConditionView> {
    Seq::new(conditions.len(), |i: int| conditions[i]@)
}

impl View for Filter {
    type V = FilterView;

    open spec fn view(&self) -> FilterView {
        FilterView { must: conditions_view(self.must@), must_not: conditions_view(self.must_not@) }
    }
}

/// The values of a list of filters.
pub open spec fn filters_view(filters: Seq<Filter>) -> Seq<FilterView> {
    Seq::new(filters.len(), |i: int| filters[i]@)
}

/// The value of an optional condition.
pub open spec fn optional_view(condition: Option<Condition>) -> Option<ConditionView> {
    match condition {
        Some(condition) => Some(condition@),
        None => None,
    }
}

/// The tags of heading elements.
pub open spec fn title_tags() -> Seq<Seq<char>> {
    seq![
        seq!['h', '1'],
        seq!['h', '2'],
        seq!['h', '3'],
        seq!['h', '4'],
        seq!['h', '5'],
        seq!['h', '6'],
    ]
}

/// The condition that a point's text contains the query.
pub open spec fn text_condition(query: Seq<char>) -> ConditionView {
    ConditionView { field: seq!['t', 'e', 'x', 't'], value: MatchValueView::Text(query) }
}

/// The condition that a point is a heading element.
pub open spec fn title_condition() -> ConditionView {
    ConditionView { field: seq!['t', 'a', 'g'], value: MatchValueView::Keywords(title_tags()) }
}

/// The condition that a point belongs to the given section of the site.
pub open spec fn section_condition(section: Seq<char>) -> ConditionView {
    ConditionView {
        field: seq!['s', 'e', 'c', 't', 'i', 'o', 'n', 's'],
        value: MatchValueView::Keyword(section),
    }
}

/// The conditions of a tier with the section condition, where there is one,
/// added at the end.
pub open spec fn with_section(
    conditions: Seq<ConditionView>,
    section: Option<ConditionView>,
) -> Seq<ConditionView> {
    match section {
        Some(condition) => conditions.push(condition),
        None => conditions,
    }
}

/// The four tiers of the cascade for a query, in order of priority:
/// 1. headings that contain the query,
/// 2. body elements, that is all but headings, that contain the query,
/// 3. headings, whatever their text,
/// 4. any point.
///
/// Every tier also demands the section condition, where one is given. The
/// first two tiers hold the text condition for an empty query too; what an
/// empty text selects is the store's matter.
pub open spec fn cascade(query: Seq<char>, section: Option<ConditionView>) -> Seq<FilterView> {
    seq![
        FilterView {
            must: with_section(seq![text_condition(query), title_condition()], section),
            must_not: Seq::empty(),
        },
        FilterView {
            must: with_section(seq![text_condition(query)], section),
            must_not: seq![title_condition()],
        },
        FilterView {
            must: with_section(seq![title_condition()], section),
            must_not: Seq::empty(),
        },
        FilterView { must: with_section(Seq::empty(), section), must_not: Seq::empty() },
    ]
}

fn clone_strings(strings: &Vec<String>) -> (copy: Vec<String>)
    ensures
        copy.deep_view() == strings.deep_view(),
{
    let mut copy: Vec<String> = Vec::new();
    let mut i: usize = 0;
    while i < strings.len()
        invariant
            i <= strings.len(),
            copy.len() == i,
            forall|j: int| 0 <= j < i ==> (#[trigger] copy@[j])@ == strings@[j]@,
        decreases strings.len() - i,
    {
        copy.push(strings[i].clone());
        i += 1;
    }
    assert(copy.deep_view() =~= strings.deep_view());
    copy
}

impl Clone for MatchValue {
    fn clone(&self) -> (copy: Self)
        ensures
            copy@ == self@,
    {
        match self {
            MatchValue::Text(text) => MatchValue::Text(text.clone()),
            MatchValue::Keyword(keyword) => MatchValue::Keyword(keyword.clone()),
            MatchValue::Keywords(keywords) => MatchValue::Keywords(clone_strings(keywords)),
        }
    }
}

impl Clone for Condition {
    fn clone(&self) -> (copy: Self)
        ensures
            copy@ == self@,
    {
        Condition { field: self.field.clone(), value: self.value.clone() }
    }
}

fn clone_conditions(conditions: &Vec<Condition>) -> (copy: Vec<Condition>)
    ensures
        conditions_view(copy@) == conditions_view(conditions@),
{
    let mut copy: Vec<Condition> = Vec::new();
    let mut i: usize = 0;
    while i < conditions.len()
        invariant
            i <= conditions.len(),
            copy.len() == i,
            forall|j: int| 0 <= j < i ==> (#[trigger] copy@[j])@ == conditions@[j]@,
        decreases conditions.len() - i,
    {
        copy.push(conditions[i].clone());
        i += 1;
    }
    assert(conditions_view(copy@) =~= conditions_view(conditions@));
    copy
}

impl Clone for Filter {
    fn clone(&self) -> (copy: Self)
        ensures
            copy@ == self@,
    {
        Filter { must: clone_conditions(&self.must), must_not: clone_conditions(&self.must_not) }
    }
}

impl Condition {
    /// The condition that `field` matches `value`.
    pub fn matches(field: &str, value: MatchValue) -> (condition: Condition)
        ensures
            condition@ == (ConditionView { field: field@, value: value@ }),
    {
        Condition { field: String::from_str(field), value }
    }
}

/// The tags that mark a heading element.
pub fn get_list_of_title_tags() -> (tags: Vec<String>)
    ensures
        tags.deep_view() == title_tags(),
{
    proof {
        reveal_strlit("h1");
        reveal_strlit("h2");
        reveal_strlit("h3");
        reveal_strlit("h4");
        reveal_strlit("h5");
        reveal_strlit("h6");
    }
    let mut tags: Vec<String> = Vec::new();
    tags.push(String::from_str("h1"));
    tags.push(String::from_str("h2"));
    tags.push(String::from_str("h3"));
    tags.push(String::from_str("h4"));
    tags.push(String::from_str("h5"));
    tags.push(String::from_str("h6"));
    assert(tags@[0]@ =~= seq!['h', '1']);
    assert(tags@[1]@ =~= seq!['h', '2']);
    assert(tags@[2]@ =~= seq!['h', '3']);
    assert(tags@[3]@ =~= seq!['h', '4']);
    assert(tags@[4]@ =~= seq!['h', '5']);
    assert(tags@[5]@ =~= seq!['h', '6']);
    assert(tags.deep_view() =~= title_tags());
    tags
}

fn query_condition(query: &str) -> (condition: Condition)
    ensures
        condition@ == text_condition(query@),
{
    proof {
        reveal_strlit("text");
    }
    assert("text"@ =~= seq!['t', 'e', 'x', 't']);
    Condition::matches("text", MatchValue::Text(String::from_str(query)))
}

fn heading_condition() -> (condition: Condition)
    ensures
        condition@ == title_condition(),
{
    proof {
        reveal_strlit("tag");
    }
    assert("tag"@ =~= seq!['t', 'a', 'g']);
    Condition::matches("tag", MatchValue::Keywords(get_list_of_title_tags()))
}

/// The condition that restricts a query to a section of the site; none for
/// the empty section name, which stands for the whole site.
pub fn section_filter(section: &str) -> (condition: Option<Condition>)
    ensures
        optional_view(condition) == if section@.len() == 0 {
            None
        } else {
            Some(section_condition(section@))
        },
{
    if section.unicode_len() == 0 {
        None
    } else {
        proof {
            reveal_strlit("sections");
        }
        assert("sections"@ =~= seq!['s', 'e', 'c', 't', 'i', 'o', 'n', 's']);
        Some(Condition::matches("sections", MatchValue::Keyword(String::from_str(section))))
    }
}

fn tier(must: Vec<Condition>, must_not: Vec<Condition>, section: &Option<Condition>) -> (filter:
    Filter)
    ensures
        filter@ == (FilterView {
            must: with_section(conditions_view(must@), optional_view(*section)),
            must_not: conditions_view(must_not@),
        }),
{
    let mut filter = Filter { must, must_not };
    match section {
        Some(condition) => {
            filter.must.push(condition.clone());
            assert(conditions_view(filter.must@) =~= conditions_view(must@).push(condition@));
        },
        None => {},
    }
    filter
}

/// Builds the cascade for a query: the four filters of `cascade`, in order.
pub fn create_filters(query: &str, section: Option<Condition>) -> (tiers: [Filter; 4])
    ensures
        filters_view(tiers@) == cascade(query@, optional_view(section)),
{
    let mut title_text: Vec<Condition> = Vec::new();
    title_text.push(query_condition(query));
    title_text.push(heading_condition());
    let mut body_text: Vec<Condition> = Vec::new();
    body_text.push(query_condition(query));
    let mut not_title: Vec<Condition> = Vec::new();
    not_title.push(heading_condition());
    let mut title: Vec<Condition> = Vec::new();
    title.push(heading_condition());
    proof {
        assert(conditions_view(title_text@) =~= seq![text_condition(query@), title_condition()]);
        assert(conditions_view(body_text@) =~= seq![text_condition(query@)]);
        assert(conditions_view(not_title@) =~= seq![title_condition()]);
        assert(conditions_view(title@) =~= seq![title_condition()]);
        assert(conditions_view(Seq::<Condition>::empty()) =~= Seq::<ConditionView>::empty());
    }
    let title_text_filter = tier(title_text, Vec::new(), &section);
    let body_text_filter = tier(body_text, not_title, &section);
    let title_filter = tier(title, Vec::new(), &section);
    let no_text_filter = tier(Vec::new(), Vec::new(), &section);
    let tiers = [title_text_filter, body_text_filter, title_filter, no_text_filter];
    assert(filters_view(tiers@) =~= cascade(query@, optional_view(section)));
    tiers
}

} // verus!
