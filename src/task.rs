use vstd::prelude::*;

use crate::error::Error;
use crate::escape::{
    escape_id, escape_text, lemma_escape_quote_free, lemma_unescape_escape, quote_free,
    unescape_id, unescape_text,
};
use crate::payload::Payload;
use crate::text::has_text_at;

verus! {

/// A kind of work with a fixed argument type and return type, known under a
/// stable identifier.
pub trait Task: Sized {
    type ArgumentType: Payload;

    type ReturnType: Payload;

    /// The identifier of this kind: the registry key and the tag on the wire.
    const ID: &'static str;

    /// What `run` computes from its argument.
    ///
    /// A verified implementation defines it; otherwise it is left unspecified.
    open spec fn result_of(
        arg: <Self::ArgumentType as View>::V,
    ) -> <Self::ReturnType as View>::V {
        arbitrary()
    }

    /// The signature that this instance was made from.
    ///
    /// A verified implementation defines it; otherwise it is left unspecified.
    open spec fn held_signature(&self) -> Signature<Self> {
        arbitrary()
    }

    /// Makes an instance that owns `signature`.
    fn from_signature(signature: Signature<Self>) -> (r: Self)
        ensures
            r.held_signature() == signature,
    ;

    /// The work itself: a pure computation on the argument.
    fn run(arg: &Self::ArgumentType) -> (r: Self::ReturnType)
        ensures
            r@ == Self::result_of(arg@),
    ;

    /// The signature that this instance was made from.
    fn signature(&self) -> (r: &Signature<Self>)
        ensures
            *r == self.held_signature(),
    ;
}

/// One invocation of a task kind: its argument and its invocation id.
pub struct Signature<T: Task> {
    pub arg: T::ArgumentType,
    pub id: String,
}

/// The text before the argument.
pub open spec fn arg_prefix() -> Seq<char> {
    seq!['{', '"', 'a', 'r', 'g', '"', ':']
}

/// The text between the argument and the invocation id.
pub open spec fn id_infix() -> Seq<char> {
    seq![',', '"', 'i', 'd', '"', ':', '"']
}

/// The text after the invocation id.
pub open spec fn text_suffix() -> Seq<char> {
    seq!['"', '}']
}

/// The serialized signature: the JSON object `{"arg":<argument>,"id":"<id>"}`,
/// with double quotes and backslashes in the id escaped.
pub open spec fn signature_text(arg_json: Seq<char>, id: Seq<char>) -> Seq<char> {
    arg_prefix() + arg_json + id_infix() + escape_text(id) + text_suffix()
}

/// The index of the last double quote in `s`, or -1 if there is none.
pub open spec fn last_quote(s: Seq<char>) -> int
    decreases s.len(),
{
    if s.len() == 0 {
        -1
    } else if s.last() == '"' {
        s.len() - 1
    } else {
        last_quote(s.drop_last())
    }
}

/// Splits a signature text into the argument text and the escaped id.
///
/// The escaped id is what follows the last double quote before the closing `"}`.
pub open spec fn split_signature(s: Seq<char>) -> Option<(Seq<char>, Seq<char>)> {
    if s.len() >= 16 && s.take(7) == arg_prefix() && s.skip(s.len() - 2) == text_suffix() {
        let body = s.subrange(7, s.len() - 2);
        let q = last_quote(body);
        if q >= 6 && body.subrange(q - 6, q + 1) == id_infix() {
            Some((body.take(q - 6), body.skip(q + 1)))
        } else {
            None
        }
    } else {
        None
    }
}

/// The text before the id when the id comes first.
pub open spec fn id_prefix() -> Seq<char> {
    seq!['{', '"', 'i', 'd', '"', ':', '"']
}

/// The text between the id and the argument when the id comes first.
pub open spec fn arg_infix() -> Seq<char> {
    seq!['"', ',', '"', 'a', 'r', 'g', '"', ':']
}

/// The index of the first double quote in `s`, or -1 if there is none.
pub open spec fn first_quote(s: Seq<char>) -> int
    decreases s.len(),
{
    if s.len() == 0 {
        -1
    } else if s[0] == '"' {
        0
    } else if first_quote(s.skip(1)) < 0 {
        -1
    } else {
        first_quote(s.skip(1)) + 1
    }
}

/// Splits a signature text with the id first, `{"id":"<id>","arg":<argument>}`,
/// into the argument text and the escaped id.
pub open spec fn split_id_first(s: Seq<char>) -> Option<(Seq<char>, Seq<char>)> {
    if s.len() >= 16 && s.take(7) == id_prefix() && s.last() == '}' {
        let body = s.subrange(7, s.len() - 1);
        let q = first_quote(body);
        if q >= 0 && q + 8 <= body.len() && body.subrange(q, q + 8) == arg_infix() {
            Some((body.skip(q + 8), body.take(q)))
        } else {
            None
        }
    } else {
        None
    }
}

/// Reads a signature text back into the argument text and the id; the two
/// fields may come in either order.
pub open spec fn read_signature(s: Seq<char>) -> Option<(Seq<char>, Seq<char>)> {
    match if split_signature(s) is Some {
        split_signature(s)
    } else {
        split_id_first(s)
    } {
        Some((a, e)) => match unescape_text(e) {
            Some(id) => Some((a, id)),
            None => None,
        },
        None => None,
    }
}

proof fn lemma_last_quote_before(x: Seq<char>, tail: Seq<char>)
    requires
        x.len() > 0,
        x.last() == '"',
        quote_free(tail),
    ensures
        last_quote(x + tail) == x.len() - 1,
    decreases tail.len(),
{
    if tail.len() == 0 {
        assert(x + tail =~= x);
    } else {
        assert((x + tail).drop_last() =~= x + tail.drop_last());
        assert((x + tail).last() == tail[tail.len() - 1]);
        lemma_last_quote_before(x, tail.drop_last());
    }
}

proof fn lemma_first_quote(s: Seq<char>, k: int)
    requires
        0 <= k < s.len(),
        s[k] == '"',
        forall|m: int| 0 <= m < k ==> #[trigger] s[m] != '"',
    ensures
        first_quote(s) == k,
    decreases s.len(),
{
    if k > 0 {
        assert forall|m: int| 0 <= m < k - 1 implies #[trigger] s.skip(1)[m] != '"' by {
            assert(s.skip(1)[m] == s[m + 1]);
        }
        lemma_first_quote(s.skip(1), k - 1);
    }
}

proof fn lemma_no_quote(s: Seq<char>)
    requires
        forall|m: int| 0 <= m < s.len() ==> #[trigger] s[m] != '"',
    ensures
        first_quote(s) == -1,
    decreases s.len(),
{
    if s.len() > 0 {
        assert forall|m: int| 0 <= m < s.len() - 1 implies #[trigger] s.skip(1)[m] != '"' by {
            assert(s.skip(1)[m] == s[m + 1]);
        }
        lemma_no_quote(s.skip(1));
    }
}

/// Splits a signature text with the id first into the argument text and the
/// escaped id.
fn split_id_first_text(s: &str) -> (r: Option<(String, String)>)
    ensures
        r is None <==> split_id_first(s@) is None,
        r matches Some((a, e)) ==> split_id_first(s@) == Some((a@, e@)),
{
    proof {
        reveal_strlit("{\"id\":\"");
        reveal_strlit("\",\"arg\":");
        assert("{\"id\":\""@ =~= id_prefix());
        assert("\",\"arg\":"@ =~= arg_infix());
    }
    let n = s.unicode_len();
    if n < 16 || !has_text_at(s, 0, "{\"id\":\"") || s.get_char(n - 1) != '}' {
        proof {
            if n >= 16 {
                assert(s@.take(7) =~= s@.subrange(0, 7));
            }
        }
        return None;
    }
    assert(s@.take(7) =~= id_prefix());
    let ghost body = s@.subrange(7, n - 1);
    let mut j: usize = 7;
    while j < n - 1 && s.get_char(j) != '"'
        invariant
            n == s@.len(),
            n >= 16,
            7 <= j <= n - 1,
            body == s@.subrange(7, n - 1),
            forall|m: int| 0 <= m < j - 7 ==> #[trigger] body[m] != '"',
        decreases n - j,
    {
        j = j + 1;
    }
    if j == n - 1 {
        proof {
            lemma_no_quote(body);
        }
        return None;
    }
    proof {
        assert(body[j - 7] == '"');
        lemma_first_quote(body, j - 7);
    }
    if j > n - 9 || !has_text_at(s, j, "\",\"arg\":") {
        proof {
            if j + 8 <= n - 1 {
                assert(body.subrange(j - 7, j + 1) =~= s@.subrange(j as int, j + 8));
            }
        }
        return None;
    }
    assert(body.subrange(j - 7, j + 1) =~= s@.subrange(j as int, j + 8));
    let escaped = s.substring_char(7, j).to_owned();
    let arg = s.substring_char(j + 8, n - 1).to_owned();
    assert(escaped@ =~= body.take(j - 7));
    assert(arg@ =~= body.skip(j + 1));
    Some((arg, escaped))
}

/// A signature text reads back as the argument text and the id it was made of.
pub proof fn lemma_signature_round_trip(arg_json: Seq<char>, id: Seq<char>)
    ensures
        read_signature(signature_text(arg_json, id)) == Some((arg_json, id)),
{
    let escaped = escape_text(id);
    lemma_escape_quote_free(id);
    lemma_unescape_escape(id);
    let s = signature_text(arg_json, id);
    let body = s.subrange(7, s.len() - 2);
    let head = arg_json + id_infix();
    assert(s.take(7) =~= arg_prefix());
    assert(s.skip(s.len() - 2) =~= text_suffix());
    assert(body =~= head + escaped);
    lemma_last_quote_before(head, escaped);
    let q = last_quote(body);
    assert(q == arg_json.len() + 6);
    assert(body.subrange(q - 6, q + 1) =~= id_infix());
    assert(body.take(q - 6) =~= arg_json);
    assert(body.skip(q + 1) =~= escaped);
}

/// Splits a signature text into the argument text and the id.
fn split_signature_text(s: &str) -> (r: Option<(String, String)>)
    ensures
        r is None <==> split_signature(s@) is None,
        r matches Some((a, i)) ==> split_signature(s@) == Some((a@, i@)),
{
    proof {
        reveal_strlit("{\"arg\":");
        reveal_strlit(",\"id\":\"");
        reveal_strlit("\"}");
    }
    let n = s.unicode_len();
    if n < 16 || !has_text_at(s, 0, "{\"arg\":") || !has_text_at(s, n - 2, "\"}") {
        proof {
            assert("{\"arg\":"@ =~= arg_prefix());
            assert("\"}"@ =~= text_suffix());
            if n >= 16 {
                assert(s@.take(7) =~= s@.subrange(0, 7));
                assert(s@.skip(n - 2) =~= s@.subrange(n - 2, n as int));
            }
        }
        return None;
    }
    assert(s@.take(7) =~= arg_prefix());
    assert(s@.skip(n - 2) =~= text_suffix());
    let ghost body = s@.subrange(7, n - 2);
    assert(body.take(n - 9) =~= body);
    // Walk back from the closing quote to the last quote of the body.
    let mut j: usize = n - 2;
    while j > 7 && s.get_char(j - 1) != '"'
        invariant
            n == s@.len(),
            n >= 16,
            7 <= j <= n - 2,
            body == s@.subrange(7, n - 2),
            last_quote(body) == last_quote(body.take(j - 7)),
        decreases j,
    {
        proof {
            let b = body.take(j - 7);
            assert(b.last() == s@[j - 1]);
            assert(b.drop_last() =~= body.take(j - 8));
        }
        j = j - 1;
    }
    proof {
        let b = body.take(j - 7);
        if j == 7 {
            assert(b.len() == 0);
        } else {
            assert(b.last() == s@[j - 1]);
        }
    }
    // Here the last quote of the body, if any, stands at index j - 8 of it.
    if j < 14 || !has_text_at(s, j - 7, ",\"id\":\"") {
        proof {
            assert(",\"id\":\""@ =~= id_infix());
            if j >= 14 {
                assert(body.subrange(j - 14, j - 7) =~= s@.subrange(j - 7, j as int));
            }
        }
        return None;
    }
    assert(body.subrange(j - 14, j - 7) =~= s@.subrange(j - 7, j as int));
    assert(",\"id\":\""@ =~= id_infix());
    let arg = s.substring_char(7, j - 7).to_owned();
    let id = s.substring_char(j, n - 2).to_owned();
    assert(arg@ =~= body.take(j - 14));
    assert(id@ =~= body.skip(j - 7));
    Some((arg, id))
}

impl<T: Task> Signature<T> {
    /// The serialized form of this signature, or `None` when the argument
    /// cannot be encoded.
    pub fn to_serialized(&self) -> (r: Option<String>)
        ensures
            r is Some <==> T::ArgumentType::encodes(self.arg@),
            r matches Some(s) ==> s@ == signature_text(T::ArgumentType::json(self.arg@), self.id@),
    {
        proof {
            reveal_strlit("{\"arg\":");
            reveal_strlit(",\"id\":\"");
            reveal_strlit("\"}");
        }
        let arg = self.arg.to_json()?;
        let id = escape_id(self.id.as_str());
        let mut text = "{\"arg\":".to_owned();
        text.append(arg.as_str());
        text.append(",\"id\":\"");
        text.append(id.as_str());
        text.append("\"}");
        Some(text)
    }

    /// Reads a signature back from its serialized form.
    ///
    /// It fails with `Serialization` exactly when the text does not read as an
    /// argument text and an id, or the argument does not decode.
    pub fn from_serialized(signature: &str) -> (r: Result<Self, Error>)
        ensures
            r is Ok <==> (read_signature(signature@) matches Some((a, i))
                && T::ArgumentType::read(a) is Some),
            r is Err ==> r == Err::<Self, Error>(Error::Serialization),
            r matches Ok(sig) ==> read_signature(signature@) matches Some((a, i)) && sig.id@ == i
                && T::ArgumentType::read(a) == Some(sig.arg@),
            read_signature(signature@) matches Some((a, i)) ==> forall|
                v: <T::ArgumentType as View>::V,
            | #[trigger] T::ArgumentType::json(v) == a ==> r is Ok && r->Ok_0.arg@ == v,
    {
        let parts = match split_signature_text(signature) {
            Some(parts) => Some(parts),
            None => split_id_first_text(signature),
        };
        match parts {
            None => Err(Error::Serialization),
            Some((arg_text, escaped)) => match unescape_id(escaped.as_str()) {
                None => Err(Error::Serialization),
                Some(id) => match T::ArgumentType::from_json(arg_text.as_str()) {
                    None => Err(Error::Serialization),
                    Some(arg) => Ok(Signature { arg, id }),
                },
            },
        }
    }
}

} // verus!
