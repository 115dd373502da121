use site_search::filter::{
    create_filters, get_list_of_title_tags, section_filter, Condition, Filter, MatchValue,
};

fn text(query: &str) -> Condition {
    Condition { field: "text".to_string(), value: MatchValue::Text(query.to_string()) }
}

fn title() -> Condition {
    Condition {
        field: "tag".to_string(),
        value: MatchValue::Keywords(
            vec!["h1", "h2", "h3", "h4", "h5", "h6"].into_iter().map(String::from).collect(),
        ),
    }
}

fn section(name: &str) -> Condition {
    Condition { field: "sections".to_string(), value: MatchValue::Keyword(name.to_string()) }
}

#[test]
fn title_tags_are_the_six_heading_levels() {
    assert_eq!(get_list_of_title_tags(), vec!["h1", "h2", "h3", "h4", "h5", "h6"]);
}

#[test]
fn cascade_without_section() {
    let [title_text, body_text, title_only, no_text] = create_filters("cat", None);
    assert_eq!(title_text, Filter { must: vec![text("cat"), title()], must_not: vec![] });
    assert_eq!(body_text, Filter { must: vec![text("cat")], must_not: vec![title()] });
    assert_eq!(title_only, Filter { must: vec![title()], must_not: vec![] });
    assert_eq!(no_text, Filter { must: vec![], must_not: vec![] });
}

#[test]
fn cascade_with_section_adds_it_to_every_tier() {
    let [title_text, body_text, title_only, no_text] =
        create_filters("vector search", Some(section("documentation")));
    assert_eq!(
        title_text,
        Filter {
            must: vec![text("vector search"), title(), section("documentation")],
            must_not: vec![]
        }
    );
    assert_eq!(
        body_text,
        Filter {
            must: vec![text("vector search"), section("documentation")],
            must_not: vec![title()]
        }
    );
    assert_eq!(
        title_only,
        Filter { must: vec![title(), section("documentation")], must_not: vec![] }
    );
    assert_eq!(no_text, Filter { must: vec![section("documentation")], must_not: vec![] });
}

#[test]
fn cascade_of_the_empty_query_has_four_tiers() {
    let tiers = create_filters("", None);
    assert_eq!(tiers.len(), 4);
    assert_eq!(tiers[0], Filter { must: vec![text(""), title()], must_not: vec![] });
    assert_eq!(tiers[1], Filter { must: vec![text("")], must_not: vec![title()] });
    assert_eq!(tiers[2], Filter { must: vec![title()], must_not: vec![] });
    assert_eq!(tiers[3], Filter { must: vec![], must_not: vec![] });
}

#[test]
fn section_filter_is_none_for_the_empty_name() {
    assert_eq!(section_filter(""), None);
    assert_eq!(section_filter("blog"), Some(section("blog")));
    assert_eq!(section_filter(" "), Some(section(" ")));
}

#[test]
fn condition_matches_holds_field_and_value() {
    assert_eq!(
        Condition::matches("tag", MatchValue::Keyword("p".to_string())),
        Condition { field: "tag".to_string(), value: MatchValue::Keyword("p".to_string()) }
    );
}

#[test]
fn filter_clone_is_equal() {
    let filter = Filter { must: vec![text("a"), section("b")], must_not: vec![title()] };
    assert_eq!(filter.clone(), filter);
}
