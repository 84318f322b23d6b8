use vstd::prelude::*;
use crate::framing::{decimal_digits, lemma_decimal_digits, is_digit};

verus! {

#[derive(Debug, Clone, PartialEq, Eq, PartialOrd, Ord, Hash)]
enum IdRepr {
    I32(i32),
    String(String),
}

/// What a request identifier holds: a number or a text.
pub enum IdValue {
    Int(int),
    Text(Seq<char>),
}

/// The identifier that ties a response to its request: an integer or a
/// string, never equal to one another.
#[derive(Debug, Clone, PartialOrd, Ord, Hash)]
pub struct RequestId(IdRepr);

impl View for RequestId {
    type V = IdValue;

    closed spec fn view(&self) -> IdValue {
        match self.0 {
            IdRepr::I32(n) => IdValue::Int(n as int),
            IdRepr::String(s) => IdValue::Text(s@),
        }
    }
}

impl PartialEq for RequestId {
    fn eq(&self, other: &RequestId) -> (r: bool) {
        match (&self.0, &other.0) {
            (IdRepr::I32(a), IdRepr::I32(b)) => *a == *b,
            (IdRepr::String(a), IdRepr::String(b)) => *a == *b,
            _ => false,
        }
    }
}

impl vstd::std_specs::cmp::PartialEqSpecImpl for RequestId {
    open spec fn obeys_eq_spec() -> bool {
        true
    }

    open spec fn eq_spec(&self, other: &RequestId) -> bool {
        self@ == other@
    }
}

impl Eq for RequestId {
}

impl From<i32> for RequestId {
    fn from(value: i32) -> (r: RequestId)
        ensures
            r@ == IdValue::Int(value as int),
    {
        RequestId(IdRepr::I32(value))
    }
}

impl vstd::std_specs::convert::FromSpecImpl<i32> for RequestId {
    open spec fn obeys_from_spec() -> bool {
        true
    }

    closed spec fn from_spec(v: i32) -> RequestId {
        RequestId(IdRepr::I32(v))
    }
}

impl From<String> for RequestId {
    fn from(value: String) -> (r: RequestId)
        ensures
            r@ == IdValue::Text(value@),
    {
        RequestId(IdRepr::String(value))
    }
}

impl vstd::std_specs::convert::FromSpecImpl<String> for RequestId {
    open spec fn obeys_from_spec() -> bool {
        true
    }

    closed spec fn from_spec(v: String) -> RequestId {
        RequestId(IdRepr::String(v))
    }
}


/// The decimal text of an integer, with a leading `-` when it is negative.
pub open spec fn int_text(n: int) -> Seq<char> {
    let digits = decimal_digits(if n < 0 { (-n) as nat } else { n as nat }).map_values(
        |b: u8| b as char,
    );
    if n < 0 {
        seq!['-'] + digits
    } else {
        digits
    }
}

/// The characters of a string as its `Debug` text shows them between the
/// quotes, escaped.
pub uninterp spec fn debug_escaped(s: Seq<char>) -> Seq<char>;

/// The `Debug` text of a string: the escaped characters between double quotes.
pub open spec fn debug_quoted(s: Seq<char>) -> Seq<char> {
    seq!['"'] + debug_escaped(s) + seq!['"']
}

/// How an identifier is shown: a number as its decimal text, a string
/// quoted, so that `92` and `"92"` look different.
pub open spec fn id_text(v: IdValue) -> Seq<char> {
    match v {
        IdValue::Int(n) => int_text(n),
        IdValue::Text(s) => debug_quoted(s),
    }
}

/// Relies on `i32`'s `Display`: the decimal text, with `-` before a negative.
#[verifier::external_body]
fn i32_text(n: i32) -> (r: String)
    ensures
        r@ == int_text(n as int),
{
    n.to_string()
}

/// Relies on `str`'s `Debug`: the characters escaped, between double quotes.
#[verifier::external_body]
fn quoted_text(s: &String) -> (r: String)
    ensures
        r@ == seq!['"'] + debug_escaped(s@) + seq!['"'],
{
    format!("{:?}", s)
}

impl RequestId {
    /// The integer inside, where the identifier was made from one.
    pub fn as_i32(&self) -> (r: Option<i32>)
        ensures
            match self@ {
                IdValue::Int(n) => r == Some(n as i32),
                IdValue::Text(_) => r is None,
            },
            r matches Some(k) ==> self@ == IdValue::Int(k as int),
    {
        match &self.0 {
            IdRepr::I32(n) => Some(*n),
            IdRepr::String(_) => None,
        }
    }

    /// The string inside, where the identifier was made from one.
    pub fn as_text(&self) -> (r: Option<String>)
        ensures
            match self@ {
                IdValue::Int(_) => r is None,
                IdValue::Text(t) => r matches Some(s) && s@ == t,
            },
    {
        match &self.0 {
            IdRepr::I32(_) => None,
            IdRepr::String(s) => Some(s.clone()),
        }
    }

    /// The identifier as a person reads it.
    pub fn to_string(&self) -> (r: String)
        ensures
            r@ == id_text(self@),
            r@.len() > 0,
    {
        let r = match &self.0 {
            IdRepr::I32(n) => i32_text(*n),
            IdRepr::String(s) => quoted_text(s),
        };
        proof {
            if let IdRepr::I32(n) = self.0 {
                lemma_decimal_digits(if n < 0 { (-n) as nat } else { n as nat });
            }
        }
        r
    }
}

/// A numeric identifier and a textual one are never equal, and never read
/// the same: the text of a number never opens with a quote, that of a string
/// always does.
pub proof fn lemma_id_text_distinct(n: int, s: Seq<char>)
    ensures
        IdValue::Int(n) != IdValue::Text(s),
        id_text(IdValue::Int(n)) != id_text(IdValue::Text(s)),
{
    let m = if n < 0 { (-n) as nat } else { n as nat };
    lemma_decimal_digits(m);
    assert(is_digit(decimal_digits(m)[0]));
    let t = int_text(n);
    assert(t[0] != '"');
    assert(debug_quoted(s)[0] == '"');
}

} // verus!
