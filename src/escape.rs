use vstd::prelude::*;

use crate::text::has_text_at;

verus! {

/// The JSON escape of a double quote.
pub open spec fn quote_escape() -> Seq<char> {
    seq!['\\', 'u', '0', '0', '2', '2']
}

/// The JSON escape of a backslash.
pub open spec fn backslash_escape() -> Seq<char> {
    seq!['\\', 'u', '0', '0', '5', 'c']
}

/// How `c` stands inside a JSON string: double quote and backslash escaped.
pub open spec fn escape_char(c: char) -> Seq<char> {
    if c == '"' {
        quote_escape()
    } else if c == '\\' {
        backslash_escape()
    } else {
        seq![c]
    }
}

/// How `s` stands inside a JSON string.
pub open spec fn escape_text(s: Seq<char>) -> Seq<char>
    decreases s.len(),
{
    if s.len() == 0 {
        s
    } else {
        escape_char(s[0]) + escape_text(s.skip(1))
    }
}

/// Reads escaped text back: a backslash must start one of the two escapes.
pub open spec fn unescape_text(t: Seq<char>) -> Option<Seq<char>>
    decreases t.len(),
{
    if t.len() == 0 {
        Some(t)
    } else if t[0] != '\\' {
        match unescape_text(t.skip(1)) {
            Some(r) => Some(seq![t[0]] + r),
            None => None,
        }
    } else if t.len() >= 6 && t.take(6) == quote_escape() {
        match unescape_text(t.skip(6)) {
            Some(r) => Some(seq!['"'] + r),
            None => None,
        }
    } else if t.len() >= 6 && t.take(6) == backslash_escape() {
        match unescape_text(t.skip(6)) {
            Some(r) => Some(seq!['\\'] + r),
            None => None,
        }
    } else {
        None
    }
}

/// `s` holds no double quote.
pub open spec fn quote_free(s: Seq<char>) -> bool {
    forall|i: int| 0 <= i < s.len() ==> #[trigger] s[i] != '"'
}

/// Escaped text reads back as the text.
pub proof fn lemma_unescape_escape(s: Seq<char>)
    ensures
        unescape_text(escape_text(s)) == Some(s),
    decreases s.len(),
{
    if s.len() > 0 {
        let e = escape_char(s[0]);
        let rest = escape_text(s.skip(1));
        let t = e + rest;
        lemma_unescape_escape(s.skip(1));
        assert(t.skip(e.len() as int) =~= rest);
        if e.len() == 6 {
            assert(t.take(6) =~= e);
        } else {
            assert(t[0] == s[0]);
        }
        assert(seq![s[0]] + s.skip(1) =~= s);
    }
}

/// Escaped text holds no double quote.
pub proof fn lemma_escape_quote_free(s: Seq<char>)
    ensures
        quote_free(escape_text(s)),
    decreases s.len(),
{
    if s.len() > 0 {
        let e = escape_char(s[0]);
        let rest = escape_text(s.skip(1));
        lemma_escape_quote_free(s.skip(1));
        assert forall|i: int| 0 <= i < (e + rest).len() implies #[trigger] (e + rest)[i]
            != '"' by {
            if i >= e.len() {
                assert((e + rest)[i] == rest[i - e.len()]);
            }
        }
    }
}

proof fn lemma_escape_append(s: Seq<char>, c: char)
    ensures
        escape_text(s.push(c)) == escape_text(s) + escape_char(c),
    decreases s.len(),
{
    if s.len() == 0 {
        let one = s.push(c);
        assert(one.skip(1) =~= Seq::<char>::empty());
        assert(one[0] == c);
        assert(escape_text(one.skip(1)) == Seq::<char>::empty());
        assert(escape_text(one) == escape_char(c) + escape_text(one.skip(1)));
        assert(escape_char(c) + Seq::<char>::empty() =~= escape_char(c));
        assert(escape_text(s) == s);
        assert(s + escape_char(c) =~= escape_char(c));
    } else {
        assert(s.push(c).skip(1) =~= s.skip(1).push(c));
        lemma_escape_append(s.skip(1), c);
        assert(s.push(c)[0] == s[0]);
        assert(escape_text(s.push(c)) =~= escape_text(s) + escape_char(c));
    }
}

/// Escapes `s` for a JSON string.
pub fn escape_id(s: &str) -> (r: String)
    ensures
        r@ == escape_text(s@),
{
    proof {
        reveal_strlit("\\u0022");
        reveal_strlit("\\u005c");
    }
    assert("\\u0022"@ =~= quote_escape());
    assert("\\u005c"@ =~= backslash_escape());
    let n = s.unicode_len();
    let mut out = String::new();
    let mut i: usize = 0;
    assert(s@.take(0) =~= Seq::<char>::empty());
    while i < n
        invariant
            n == s@.len(),
            i <= n,
            "\\u0022"@ == quote_escape(),
            "\\u005c"@ == backslash_escape(),
            out@ == escape_text(s@.take(i as int)),
        decreases n - i,
    {
        let c = s.get_char(i);
        if c == '"' {
            out.append("\\u0022");
        } else if c == '\\' {
            out.append("\\u005c");
        } else {
            let one = s.substring_char(i, i + 1);
            assert(one@ =~= seq![c]);
            out.append(one);
        }
        proof {
            lemma_escape_append(s@.take(i as int), c);
            assert(s@.take(i + 1) =~= s@.take(i as int).push(c));
        }
        i = i + 1;
    }
    assert(s@.take(n as int) =~= s@);
    out
}

/// Reads escaped text back, or `None` when a backslash starts no known escape.
pub fn unescape_id(t: &str) -> (r: Option<String>)
    ensures
        r matches Some(s) ==> unescape_text(t@) == Some(s@),
        r is None ==> unescape_text(t@) is None,
{
    proof {
        reveal_strlit("\\u0022");
        reveal_strlit("\\u005c");
        reveal_strlit("\"");
        reveal_strlit("\\");
        assert("\\u0022"@ =~= quote_escape());
        assert("\\u005c"@ =~= backslash_escape());
    }
    let n = t.unicode_len();
    let mut out = String::new();
    let mut i: usize = 0;
    proof {
        assert(t@.skip(0) =~= t@);
        match unescape_text(t@) {
            Some(r) => {
                assert(out@ + r =~= r);
            },
            None => {},
        }
    }
    while i < n
        invariant
            n == t@.len(),
            i <= n,
            "\\u0022"@ == quote_escape(),
            "\\u005c"@ == backslash_escape(),
            "\""@ == seq!['"'],
            "\\"@ == seq!['\\'],
            unescape_text(t@) == match unescape_text(t@.skip(i as int)) {
                Some(r) => Some(out@ + r),
                None => None::<Seq<char>>,
            },
        decreases n - i,
    {
        let ghost rest = t@.skip(i as int);
        let c = t.get_char(i);
        assert(rest[0] == c);
        if c != '\\' {
            let one = t.substring_char(i, i + 1);
            assert(one@ =~= seq![c]);
            out.append(one);
            proof {
                assert(rest.skip(1) =~= t@.skip(i + 1));
                match unescape_text(rest.skip(1)) {
                    Some(r) => {
                        assert(out@ + r =~= (out@.drop_last()) + (seq![c] + r));
                    },
                    None => {},
                }
            }
            i = i + 1;
        } else if has_text_at(t, i, "\\u0022") {
            out.append("\"");
            proof {
                assert(rest.take(6) =~= t@.subrange(i as int, i + 6));
                assert(rest.skip(6) =~= t@.skip(i + 6));
                match unescape_text(rest.skip(6)) {
                    Some(r) => {
                        assert(out@ + r =~= (out@.drop_last()) + (seq!['"'] + r));
                    },
                    None => {},
                }
            }
            i = i + 6;
        } else if has_text_at(t, i, "\\u005c") {
            out.append("\\");
            proof {
                assert(rest.take(6) =~= t@.subrange(i as int, i + 6));
                assert(rest.skip(6) =~= t@.skip(i + 6));
                assert(quote_escape() != backslash_escape()) by {
                    assert(quote_escape()[4] != backslash_escape()[4]);
                }
                match unescape_text(rest.skip(6)) {
                    Some(r) => {
                        assert(out@ + r =~= (out@.drop_last()) + (seq!['\\'] + r));
                    },
                    None => {},
                }
            }
            i = i + 6;
        } else {
            proof {
                if rest.len() >= 6 {
                    assert(rest.take(6) =~= t@.subrange(i as int, i + 6));
                }
            }
            return None;
        }
    }
    assert(t@.skip(n as int) =~= Seq::<char>::empty());
    assert(out@ + Seq::<char>::empty() =~= out@);
    Some(out)
}

} // verus!
