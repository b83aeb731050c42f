use vstd::prelude::*;

verus! {

/// The character of a decimal digit.
pub open spec fn digit_char(d: nat) -> char
    recommends
        d < 10,
{
    seq!['0', '1', '2', '3', '4', '5', '6', '7', '8', '9'][d as int]
}

/// The decimal digits of `n`, most significant first, without sign or padding.
pub open spec fn decimal(n: nat) -> Seq<char>
    decreases n,
{
    if n < 10 {
        seq![digit_char(n)]
    } else {
        decimal(n / 10).push(digit_char(n % 10))
    }
}

/// The decimal numbers of `s` separated by commas.
pub open spec fn decimal_items(s: Seq<usize>) -> Seq<char>
    decreases s.len(),
{
    if s.len() == 0 {
        Seq::empty()
    } else if s.len() == 1 {
        decimal(s[0] as nat)
    } else {
        decimal_items(s.drop_last()) + seq![','] + decimal(s.last() as nat)
    }
}

/// The compact JSON array of the numbers of `s`.
pub open spec fn decimal_list(s: Seq<usize>) -> Seq<char> {
    seq!['['] + decimal_items(s) + seq![']']
}

/// The JSON text of the unit value.
pub open spec fn null_text() -> Seq<char> {
    seq!['n', 'u', 'l', 'l']
}

/// What serde_json reads from `text` as a `usize`, if anything.
pub uninterp spec fn usize_read(text: Seq<char>) -> Option<usize>;

/// What serde_json reads from `text` as a list of `usize`, if anything.
pub uninterp spec fn usize_list_read(text: Seq<char>) -> Option<Seq<usize>>;

/// Whether serde_json reads `text` as the unit value.
pub uninterp spec fn unit_read(text: Seq<char>) -> bool;

/// A value that travels as JSON text: the argument or the return value of a task.
pub trait Payload: View + Sized {
    /// The JSON text that encodes a value.
    spec fn json(v: Self::V) -> Seq<char>;

    /// Whether a value can be encoded.
    spec fn encodes(v: Self::V) -> bool;

    /// The value that `text` decodes to, if any.
    spec fn read(text: Seq<char>) -> Option<Self::V>;

    /// Encodes this value, or fails when it cannot be encoded.
    fn to_json(&self) -> (r: Option<String>)
        ensures
            r is Some <==> Self::encodes(self@),
            r matches Some(s) ==> s@ == Self::json(self@),
    ;

    /// Decodes a value; the encoding of a value decodes to that value.
    fn from_json(text: &str) -> (r: Option<Self>)
        ensures
            r is None <==> Self::read(text@) is None,
            r matches Some(v) ==> Self::read(text@) == Some(v@),
            forall|v: Self::V| #[trigger] Self::json(v) == text@ ==> r is Some && r->0@ == v,
    ;
}

/// Relies on serde_json::to_string for `usize`: it writes the decimal digits
/// and cannot fail on an integer.
#[verifier::external_body]
fn usize_to_json(n: usize) -> (r: Option<String>)
    ensures
        r is Some && r->0@ == decimal(n as nat),
{
    serde_json::to_string(&n).ok()
}

/// Relies on serde_json::from_str for `usize`: decimal digits that fit read back
/// as their value.
#[verifier::external_body]
fn usize_from_json(text: &str) -> (r: Option<usize>)
    ensures
        r == usize_read(text@),
        forall|n: usize| #[trigger] decimal(n as nat) == text@ ==> r == Some(n),
{
    serde_json::from_str::<usize>(text).ok()
}

/// Relies on serde_json::to_string for `Vec<usize>`: a compact array of decimal
/// numbers, which cannot fail.
#[verifier::external_body]
fn usize_list_to_json(v: &Vec<usize>) -> (r: Option<String>)
    ensures
        r is Some && r->0@ == decimal_list(v@),
{
    serde_json::to_string(v).ok()
}

/// Relies on serde_json::from_str for `Vec<usize>`: a compact array of decimal
/// numbers reads back as those numbers.
#[verifier::external_body]
fn usize_list_from_json(text: &str) -> (r: Option<Vec<usize>>)
    ensures
        r is None <==> usize_list_read(text@) is None,
        r matches Some(v) ==> usize_list_read(text@) == Some(v@),
        forall|s: Seq<usize>| #[trigger] decimal_list(s) == text@ ==> r is Some && r->0@ == s,
{
    serde_json::from_str::<Vec<usize>>(text).ok()
}

/// Relies on serde_json::to_string for `()`: it writes `null` and cannot fail.
#[verifier::external_body]
fn unit_to_json(u: &()) -> (r: Option<String>)
    ensures
        r is Some && r->0@ == null_text(),
{
    serde_json::to_string(u).ok()
}

/// Relies on serde_json::from_str for `()`: `null` reads back as the unit value.
#[verifier::external_body]
fn unit_from_json(text: &str) -> (r: Option<()>)
    ensures
        r is Some == unit_read(text@),
        text@ == null_text() ==> r is Some,
{
    serde_json::from_str::<()>(text).ok()
}

impl Payload for usize {
    open spec fn json(v: usize) -> Seq<char> {
        decimal(v as nat)
    }

    open spec fn encodes(v: usize) -> bool {
        true
    }

    open spec fn read(text: Seq<char>) -> Option<usize> {
        usize_read(text)
    }

    fn to_json(&self) -> (r: Option<String>) {
        usize_to_json(*self)
    }

    fn from_json(text: &str) -> (r: Option<usize>) {
        usize_from_json(text)
    }
}

impl Payload for Vec<usize> {
    open spec fn json(v: Seq<usize>) -> Seq<char> {
        decimal_list(v)
    }

    open spec fn encodes(v: Seq<usize>) -> bool {
        true
    }

    open spec fn read(text: Seq<char>) -> Option<Seq<usize>> {
        usize_list_read(text)
    }

    fn to_json(&self) -> (r: Option<String>) {
        usize_list_to_json(self)
    }

    fn from_json(text: &str) -> (r: Option<Vec<usize>>) {
        usize_list_from_json(text)
    }
}

impl Payload for () {
    open spec fn json(v: ()) -> Seq<char> {
        null_text()
    }

    open spec fn encodes(v: ()) -> bool {
        true
    }

    open spec fn read(text: Seq<char>) -> Option<()> {
        if unit_read(text) {
            Some(())
        } else {
            None
        }
    }

    fn to_json(&self) -> (r: Option<String>) {
        unit_to_json(self)
    }

    fn from_json(text: &str) -> (r: Option<()>) {
        unit_from_json(text)
    }
}

} // verus!
