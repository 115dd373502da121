//! Points as the vector store returns them: identity, payload and score.

use vstd::prelude::*;

verus! {

/// Identity of a stored point: a number or the text of a UUID.
#[derive(Debug, PartialEq, Eq)]
pub enum PointId {
    Num(u64),
    Uuid(String),
}

/// Mathematical value of a `PointId`.
pub enum PointIdView {
    Num(u64),
    Uuid(Seq<char>),
}

impl View for PointId {
    type V = PointIdView;

    open spec fn view(&self) -> PointIdView {
        match self {
            PointId::Num(n) => PointIdView::Num(*n),
            PointId::Uuid(text) => PointIdView::Uuid(text@),
        }
    }
}

/// The character that writes the decimal digit `d`.
pub open spec fn digit(d: nat) -> char {
    if d == 0 {
        '0'
    } else if d == 1 {
        '1'
    } else if d == 2 {
        '2'
    } else if d == 3 {
        '3'
    } else if d == 4 {
        '4'
    } else if d == 5 {
        '5'
    } else if d == 6 {
        '6'
    } else if d == 7 {
        '7'
    } else if d == 8 {
        '8'
    } else {
        '9'
    }
}

/// Decimal notation of `n`, without leading zeros.
pub open spec fn decimal(n: nat) -> Seq<char>
    decreases n,
{
    if n < 10 {
        seq![digit(n)]
    } else {
        decimal(n / 10).push(digit(n % 10))
    }
}

/// The tag that opens the canonical form of a UUID identity.
pub open spec fn uuid_tag() -> Seq<char> {
    seq!['u', 'u', 'i', 'd', ':']
}

impl PointIdView {
    /// Canonical text of an identity, by which points are compared.
    ///
    /// A number is written in decimal. A UUID is written after the tag
    /// `uuid:`, so that no UUID text can be taken for a number.
    pub open spec fn normalized(self) -> Seq<char> {
        match self {
            PointIdView::Num(n) => decimal(n as nat),
            PointIdView::Uuid(text) => uuid_tag() + text,
        }
    }
}

/// Every character of a decimal notation is a digit, and there is at least one.
pub proof fn lemma_decimal_digits(n: nat)
    ensures
        decimal(n).len() >= 1,
        n >= 10 ==> decimal(n).len() >= 2,
        forall|i: int| 0 <= i < decimal(n).len() ==> '0' <= #[trigger] decimal(n)[i] <= '9',
    decreases n,
{
    if n >= 10 {
        lemma_decimal_digits(n / 10);
    }
}

/// Two numbers with the same decimal notation are equal.
pub proof fn lemma_decimal_injective(a: nat, b: nat)
    requires
        decimal(a) == decimal(b),
    ensures
        a == b,
    decreases a,
{
    lemma_decimal_digits(a);
    lemma_decimal_digits(b);
    if a >= 10 && b >= 10 {
        let da = decimal(a / 10);
        let db = decimal(b / 10);
        assert(decimal(a).last() == digit(a % 10));
        assert(decimal(b).last() == digit(b % 10));
        assert(da =~= decimal(a).drop_last());
        assert(db =~= decimal(b).drop_last());
        lemma_decimal_injective(a / 10, b / 10);
    } else if a < 10 && b < 10 {
        assert(decimal(a)[0] == digit(a));
        assert(decimal(b)[0] == digit(b));
    }
}

/// Two identities have the same canonical text exactly when they are the
/// same identity: the canonical form loses nothing and confuses no number
/// with a UUID.
pub proof fn lemma_normalized_injective(a: PointIdView, b: PointIdView)
    ensures
        a.normalized() == b.normalized() <==> a == b,
{
    if a.normalized() == b.normalized() {
        match (a, b) {
            (PointIdView::Num(x), PointIdView::Num(y)) => {
                lemma_decimal_injective(x as nat, y as nat);
            },
            (PointIdView::Num(x), PointIdView::Uuid(t)) => {
                lemma_decimal_digits(x as nat);
                assert((uuid_tag() + t)[0] == 'u');
                assert('0' <= decimal(x as nat)[0] <= '9');
            },
            (PointIdView::Uuid(t), PointIdView::Num(y)) => {
                lemma_decimal_digits(y as nat);
                assert((uuid_tag() + t)[0] == 'u');
                assert('0' <= decimal(y as nat)[0] <= '9');
            },
            (PointIdView::Uuid(s), PointIdView::Uuid(t)) => {
                assert(s =~= (uuid_tag() + s).subrange(5, (uuid_tag() + s).len() as int));
                assert(t =~= (uuid_tag() + t).subrange(5, (uuid_tag() + t).len() as int));
            },
        }
    }
}

fn digit_str(d: u64) -> (text: &'static str)
    requires
        d < 10,
    ensures
        text@ == seq![digit(d as nat)],
{
    proof {
        reveal_strlit("0");
        reveal_strlit("1");
        reveal_strlit("2");
        reveal_strlit("3");
        reveal_strlit("4");
        reveal_strlit("5");
        reveal_strlit("6");
        reveal_strlit("7");
        reveal_strlit("8");
        reveal_strlit("9");
    }
    let text = if d == 0 {
        "0"
    } else if d == 1 {
        "1"
    } else if d == 2 {
        "2"
    } else if d == 3 {
        "3"
    } else if d == 4 {
        "4"
    } else if d == 5 {
        "5"
    } else if d == 6 {
        "6"
    } else if d == 7 {
        "7"
    } else if d == 8 {
        "8"
    } else {
        "9"
    };
    assert(text@ =~= seq![digit(d as nat)]);
    text
}

/// Writes `n` in decimal.
pub fn decimal_string(n: u64) -> (text: String)
    ensures
        text@ == decimal(n as nat),
    decreases n,
{
    if n < 10 {
        String::from_str(digit_str(n))
    } else {
        let mut text = decimal_string(n / 10);
        text.append(digit_str(n % 10));
        assert(text@ =~= decimal((n / 10) as nat).push(digit((n % 10) as nat)));
        text
    }
}

impl Clone for PointId {
    fn clone(&self) -> (copy: Self)
        ensures
            copy@ == self@,
    {
        match self {
            PointId::Num(n) => PointId::Num(*n),
            PointId::Uuid(text) => PointId::Uuid(text.clone()),
        }
    }
}

impl PointId {
    /// The canonical text of this identity.
    pub fn normalized_id(&self) -> (text: String)
        ensures
            text@ == self@.normalized(),
    {
        match self {
            PointId::Num(n) => decimal_string(*n),
            PointId::Uuid(uuid) => {
                proof {
                    reveal_strlit("uuid:");
                }
                let mut text = String::from_str("uuid:");
                assert(text@ =~= uuid_tag());
                text.append(uuid.as_str());
                text
            },
        }
    }

    /// Whether two identities have the same canonical text. Compares the
    /// identities themselves; `lemma_normalized_injective` justifies it.
    pub fn same_id(&self, other: &PointId) -> (same: bool)
        ensures
            same == (self@.normalized() == other@.normalized()),
    {
        proof {
            lemma_normalized_injective(self@, other@);
        }
        match (self, other) {
            (PointId::Num(a), PointId::Num(b)) => *a == *b,
            (PointId::Uuid(a), PointId::Uuid(b)) => *a == *b,
            _ => false,
        }
    }
}

/// A payload value: one of the closed set of kinds that the store keeps.
#[derive(Debug, PartialEq, Eq)]
pub enum Value {
    Null,
    Bool(bool),
    Integer(i64),
    /// A double-precision number, held as its IEEE 754 bit pattern.
    Double(u64),
    Text(String),
    List(Vec<Value>),
    Struct(Vec<Field>),
}

/// A named payload value.
#[derive(Debug, PartialEq, Eq)]
pub struct Field {
    pub name: String,
    pub value: Value,
}

/// The fields stored with a point, in no particular order. A payload that
/// comes from the store is `well_formed`.
#[derive(Debug, PartialEq, Eq)]
pub struct Payload {
    pub fields: Vec<Field>,
}

/// The first field of the given name, if there is one.
pub open spec fn lookup(fields: Seq<Field>, name: Seq<char>) -> Option<Value>
    decreases fields.len(),
{
    if fields.len() == 0 {
        None
    } else if fields[0].name@ == name {
        Some(fields[0].value)
    } else {
        lookup(fields.drop_first(), name)
    }
}

/// No name occurs twice among the fields.
pub open spec fn distinct_names(fields: Seq<Field>) -> bool {
    forall|i: int, j: int|
        0 <= i < j < fields.len() ==> (#[trigger] fields[i]).name@ != (#[trigger] fields[j]).name@
}

/// Among fields of distinct names, the value of each field is what a lookup
/// of its name finds: no field hides another.
pub proof fn lemma_lookup_distinct(fields: Seq<Field>, i: int)
    requires
        distinct_names(fields),
        0 <= i < fields.len(),
    ensures
        lookup(fields, fields[i].name@) == Some(fields[i].value),
    decreases fields.len(),
{
    if i > 0 {
        let rest = fields.drop_first();
        assert(fields[0].name@ != fields[i].name@);
        assert(rest[i - 1] == fields[i]);
        assert(distinct_names(rest)) by {
            assert forall|a: int, b: int| 0 <= a < b < rest.len() implies (#[trigger] rest[a]).name@
                != (#[trigger] rest[b]).name@ by {
                assert(rest[a] == fields[a + 1]);
                assert(rest[b] == fields[b + 1]);
            }
        }
        lemma_lookup_distinct(rest, i - 1);
    }
}

/// Name of the payload field that holds the text of a content entry.
pub open spec fn text_key() -> Seq<char> {
    seq!['t', 'e', 'x', 't']
}

impl Payload {
    /// The payload is well formed: it holds each name once, as the store
    /// keeps a payload as a map from names to values. A lookup in a payload
    /// that is not takes the first field of the name.
    pub open spec fn well_formed(&self) -> bool {
        distinct_names(self.fields@)
    }

    /// The text of the entry: the field `text`, where it exists and holds a
    /// string.
    pub open spec fn text(&self) -> Option<Seq<char>> {
        match lookup(self.fields@, text_key()) {
            Some(Value::Text(text)) => Some(text@),
            _ => None,
        }
    }

    /// Looks a field up by name.
    pub fn get(&self, name: &str) -> (found: Option<&Value>)
        ensures
            match found {
                Some(value) => lookup(self.fields@, name@) == Some(*value),
                None => lookup(self.fields@, name@) is None,
            },
    {
        let key = String::from_str(name);
        let mut i: usize = 0;
        assert(self.fields@.skip(0) =~= self.fields@);
        while i < self.fields.len()
            invariant
                i <= self.fields.len(),
                key@ == name@,
                lookup(self.fields@, name@) == lookup(self.fields@.skip(i as int), name@),
            decreases self.fields.len() - i,
        {
            let ghost rest = self.fields@.skip(i as int);
            assert(rest[0] == self.fields@[i as int]);
            assert(rest.drop_first() =~= self.fields@.skip(i + 1));
            if self.fields[i].name == key {
                return Some(&self.fields[i].value);
            }
            i += 1;
        }
        assert(self.fields@.skip(i as int).len() == 0);
        None
    }

    /// The text of the entry, as `Payload::text` defines it.
    pub fn text_value(&self) -> (found: Option<&str>)
        ensures
            match found {
                Some(text) => self.text() == Some(text@),
                None => self.text() is None,
            },
    {
        proof {
            reveal_strlit("text");
        }
        assert("text"@ =~= text_key());
        match self.get("text") {
            Some(Value::Text(text)) => Some(text.as_str()),
            _ => None,
        }
    }
}

/// A point with the similarity score that a query gave it.
#[derive(Debug, PartialEq, Eq)]
pub struct ScoredPoint {
    pub id: PointId,
    pub payload: Payload,
    /// The score, a single-precision number held as its IEEE 754 bit pattern.
    pub score: u32,
}

} // verus!
