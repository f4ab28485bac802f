//! JSON string-literal escaping and the matching parser. Records are stored
//! as JSON text, so the string fields are escaped on the way out and read
//! back by a parser that is proved to invert the escaping exactly.

use vstd::prelude::*;
use vstd::string::StringExecFns;
use crate::ident::is_hex_digit;
use crate::ext::push_char;

verus! {

/// The lower-case hexadecimal digit for a value below sixteen.
pub open spec fn hex_char(v: int) -> char {
    if v == 0 {
        '0'
    } else if v == 1 {
        '1'
    } else if v == 2 {
        '2'
    } else if v == 3 {
        '3'
    } else if v == 4 {
        '4'
    } else if v == 5 {
        '5'
    } else if v == 6 {
        '6'
    } else if v == 7 {
        '7'
    } else if v == 8 {
        '8'
    } else if v == 9 {
        '9'
    } else if v == 10 {
        'a'
    } else if v == 11 {
        'b'
    } else if v == 12 {
        'c'
    } else if v == 13 {
        'd'
    } else if v == 14 {
        'e'
    } else {
        'f'
    }
}

/// The value of a hexadecimal digit, either case.
pub open spec fn hex_val(c: char) -> int {
    if '0' <= c && c <= '9' {
        c as int - '0' as int
    } else if 'a' <= c && c <= 'f' {
        10 + (c as int - 'a' as int)
    } else {
        10 + (c as int - 'A' as int)
    }
}

pub proof fn lemma_hex_char_val(v: int)
    requires
        0 <= v < 16,
    ensures
        is_hex_digit(hex_char(v)),
        hex_val(hex_char(v)) == v,
{
}

/// How one character is written inside a JSON string literal: quote,
/// backslash and the named control characters get a two-character escape,
/// other control characters the six-character `\u00..` form, and every
/// other character stands as itself.
pub open spec fn escape_char(c: char) -> Seq<char> {
    if c == '"' {
        seq!['\\', '"']
    } else if c == '\\' {
        seq!['\\', '\\']
    } else if c == '\n' {
        seq!['\\', 'n']
    } else if c == '\r' {
        seq!['\\', 'r']
    } else if c == '\t' {
        seq!['\\', 't']
    } else if (c as u32) < 32 {
        seq!['\\', 'u', '0', '0', hex_char(c as u32 as int / 16), hex_char(c as u32 as int % 16)]
    } else {
        seq![c]
    }
}

/// A whole text written as the body of a JSON string literal.
pub open spec fn escape_text(s: Seq<char>) -> Seq<char>
    decreases s.len(),
{
    if s.len() == 0 {
        Seq::empty()
    } else {
        escape_char(s[0]) + escape_text(s.drop_first())
    }
}

pub proof fn lemma_escape_text_push(s: Seq<char>, c: char)
    ensures
        escape_text(s.push(c)) == escape_text(s) + escape_char(c),
    decreases s.len(),
{
    if s.len() == 0 {
        assert(s.push(c).drop_first() =~= Seq::<char>::empty());
        assert(s.push(c)[0] == c);
        assert(escape_text(Seq::<char>::empty()) == Seq::<char>::empty());
        assert(escape_text(s.push(c)) == escape_char(c) + Seq::<char>::empty());
        assert(escape_text(s.push(c)) =~= escape_text(s) + escape_char(c));
    } else {
        assert(s.push(c).drop_first() =~= s.drop_first().push(c));
        lemma_escape_text_push(s.drop_first(), c);
        assert(escape_text(s.push(c)) =~= escape_text(s) + escape_char(c));
    }
}

/// The lower-case hexadecimal digit for a value below sixteen.
fn hex_char_of(v: u8) -> (c: char)
    requires
        v < 16,
    ensures
        c == hex_char(v as int),
{
    if v == 0 {
        '0'
    } else if v == 1 {
        '1'
    } else if v == 2 {
        '2'
    } else if v == 3 {
        '3'
    } else if v == 4 {
        '4'
    } else if v == 5 {
        '5'
    } else if v == 6 {
        '6'
    } else if v == 7 {
        '7'
    } else if v == 8 {
        '8'
    } else if v == 9 {
        '9'
    } else if v == 10 {
        'a'
    } else if v == 11 {
        'b'
    } else if v == 12 {
        'c'
    } else if v == 13 {
        'd'
    } else if v == 14 {
        'e'
    } else {
        'f'
    }
}

/// Appends the escaped form of one character.
fn push_escaped_char(out: &mut String, c: char)
    ensures
        final(out)@ == old(out)@ + escape_char(c),
{
    if c == '"' {
        push_char(out, '\\');
        push_char(out, '"');
        assert(final(out)@ =~= old(out)@ + escape_char(c));
    } else if c == '\\' {
        push_char(out, '\\');
        push_char(out, '\\');
        assert(final(out)@ =~= old(out)@ + escape_char(c));
    } else if c == '\n' {
        push_char(out, '\\');
        push_char(out, 'n');
        assert(final(out)@ =~= old(out)@ + escape_char(c));
    } else if c == '\r' {
        push_char(out, '\\');
        push_char(out, 'r');
        assert(final(out)@ =~= old(out)@ + escape_char(c));
    } else if c == '\t' {
        push_char(out, '\\');
        push_char(out, 't');
        assert(final(out)@ =~= old(out)@ + escape_char(c));
    } else if (c as u32) < 32 {
        let v: u32 = c as u32;
        push_char(out, '\\');
        push_char(out, 'u');
        push_char(out, '0');
        push_char(out, '0');
        push_char(out, hex_char_of((v / 16) as u8));
        push_char(out, hex_char_of((v % 16) as u8));
        assert(final(out)@ =~= old(out)@ + escape_char(c));
    } else {
        push_char(out, c);
        assert(final(out)@ =~= old(out)@ + escape_char(c));
    }
}

/// The body of the JSON string literal that denotes `s`.
pub fn escape_string(s: &str) -> (r: String)
    ensures
        r@ == escape_text(s@),
{
    let n = s.unicode_len();
    let mut out = String::new();
    let mut i: usize = 0;
    while i < n
        invariant
            0 <= i <= n,
            n == s@.len(),
            out@ == escape_text(s@.take(i as int)),
        decreases n - i,
    {
        let c = s.get_char(i);
        push_escaped_char(&mut out, c);
        proof {
            assert(s@.take(i as int).push(c) =~= s@.take(i + 1 as int));
            lemma_escape_text_push(s@.take(i as int), c);
        }
        i = i + 1;
    }
    proof {
        assert(s@.take(n as int) =~= s@);
    }
    out
}

/// The character a named two-character escape stands for.
pub open spec fn unescape_code(e: char) -> char {
    if e == '"' {
        '"'
    } else if e == '\\' {
        '\\'
    } else if e == 'n' {
        '\n'
    } else if e == 'r' {
        '\r'
    } else {
        '\t'
    }
}

/// The character with a given code point below thirty-two.
pub open spec fn control_char(v: int) -> char {
    (v as u32) as char
}

/// Reads a JSON string-literal body from position `i` up to and over its
/// closing quote: the decoded text and the position after the quote.
/// Only the escapes that `escape_char` writes are accepted.
pub open spec fn parse_qstring(s: Seq<char>, i: int) -> Option<(Seq<char>, int)>
    decreases s.len() - i,
    when 0 <= i <= s.len()
{
    if i >= s.len() {
        None
    } else if s[i] == '"' {
        Some((Seq::empty(), i + 1))
    } else if s[i] == '\\' {
        if i + 2 <= s.len() && (s[i + 1] == '"' || s[i + 1] == '\\' || s[i + 1] == 'n' || s[i + 1]
            == 'r' || s[i + 1] == 't') {
            match parse_qstring(s, i + 2) {
                Some(p) => Some((seq![unescape_code(s[i + 1])] + p.0, p.1)),
                None => None,
            }
        } else if i + 6 <= s.len() && s[i + 1] == 'u' && s[i + 2] == '0' && s[i + 3] == '0'
            && is_hex_digit(s[i + 4]) && is_hex_digit(s[i + 5]) && hex_val(s[i + 4]) * 16 + hex_val(
            s[i + 5],
        ) < 32 {
            match parse_qstring(s, i + 6) {
                Some(p) => Some(
                    (seq![control_char(hex_val(s[i + 4]) * 16 + hex_val(s[i + 5]))] + p.0, p.1),
                ),
                None => None,
            }
        } else {
            None
        }
    } else {
        match parse_qstring(s, i + 1) {
            Some(p) => Some((seq![s[i]] + p.0, p.1)),
            None => None,
        }
    }
}

/// Parsing inverts escaping: where the text at `i` reads as the escaped form
/// of `t` followed by a closing quote, the parser recovers `t` exactly and
/// stops right after that quote.
pub proof fn lemma_parse_escaped(t: Seq<char>, s: Seq<char>, i: int)
    requires
        0 <= i,
        i + escape_text(t).len() + 1 <= s.len(),
        s.subrange(i, i + escape_text(t).len() + 1) == escape_text(t) + seq!['"'],
    ensures
        parse_qstring(s, i) == Some((t, i + escape_text(t).len() + 1)),
    decreases t.len(),
{
    let e = escape_text(t);
    let sub = s.subrange(i, i + e.len() + 1);
    assert forall|k: int| 0 <= k < e.len() implies s[i + k] == e[k] by {
        assert(sub[k] == s[i + k]);
        assert((e + seq!['"'])[k] == e[k]);
    }
    assert(s[i + e.len()] == '"') by {
        assert(sub[e.len() as int] == s[i + e.len()]);
        assert((e + seq!['"'])[e.len() as int] == '"');
    }
    if t.len() == 0 {
        assert(e.len() == 0);
        assert(s[i] == '"');
        assert(t =~= Seq::<char>::empty());
    } else {
        let c = t[0];
        let t1 = t.drop_first();
        let ec = escape_char(c);
        let e1 = escape_text(t1);
        assert(e == ec + e1);
        assert forall|k: int| 0 <= k < ec.len() implies s[i + k] == ec[k] by {
            assert(e[k] == (ec + e1)[k]);
        }
        let i1 = i + ec.len();
        assert(s.subrange(i1, i1 + e1.len() + 1) =~= e1 + seq!['"']) by {
            assert forall|k: int| 0 <= k < e1.len() + 1 implies s.subrange(
                i1,
                i1 + e1.len() + 1,
            )[k] == (e1 + seq!['"'])[k] by {
                if k < e1.len() {
                    assert(e[ec.len() + k] == (ec + e1)[ec.len() + k]);
                    assert(s[i + (ec.len() + k)] == e[ec.len() + k]);
                } else {
                    assert(s[i + e.len()] == '"');
                }
            }
        }
        lemma_parse_escaped(t1, s, i1);
        assert(seq![c] + t1 =~= t);
        if c == '"' || c == '\\' || c == '\n' || c == '\r' || c == '\t' {
            assert(s[i] == '\\');
            assert(unescape_code(s[i + 1]) == c);
            assert(parse_qstring(s, i) == Some((t, i + e.len() + 1)));
        } else if (c as u32) < 32 {
            let cv = c as u32 as int;
            lemma_hex_char_val(cv / 16);
            lemma_hex_char_val(cv % 16);
            assert(s[i] == '\\' && s[i + 1] == 'u' && s[i + 2] == '0' && s[i + 3] == '0');
            assert(s[i + 4] == hex_char(cv / 16) && s[i + 5] == hex_char(cv % 16));
            assert(hex_val(s[i + 4]) * 16 + hex_val(s[i + 5]) == cv);
            assert(control_char(cv) == c) by {
                vstd::utf8::char_u32_cast(c, c as u32);
            }
            assert(parse_qstring(s, i) == Some((t, i + e.len() + 1)));
        } else {
            assert(s[i] == c);
            assert(parse_qstring(s, i) == Some((t, i + e.len() + 1)));
        }
    }
}

/// The value of a hexadecimal digit, either case.
fn hex_val_of(c: char) -> (v: u8)
    requires
        is_hex_digit(c),
    ensures
        v == hex_val(c),
        v < 16,
{
    if '0' <= c && c <= '9' {
        (c as u32 - '0' as u32) as u8
    } else if 'a' <= c && c <= 'f' {
        (10 + (c as u32 - 'a' as u32)) as u8
    } else {
        (10 + (c as u32 - 'A' as u32)) as u8
    }
}

/// Reads a JSON string-literal body from position `i` up to and over its
/// closing quote.
pub fn parse_string_body(s: &str, n: usize, i: usize) -> (r: Option<(String, usize)>)
    requires
        n == s@.len(),
        i <= n,
    ensures
        r is Some <==> parse_qstring(s@, i as int) is Some,
        r is Some ==> parse_qstring(s@, i as int) == Some(((r->0).0@, (r->0).1 as int)),
        r is Some ==> i < (r->0).1 <= n,
    decreases n - i,
{
    if i >= n {
        return None;
    }
    let c = s.get_char(i);
    if c == '"' {
        return Some((String::new(), i + 1));
    }
    if c == '\\' {
        if n - i >= 2 {
            let e = s.get_char(i + 1);
            if e == '"' || e == '\\' || e == 'n' || e == 'r' || e == 't' {
                let d: char = if e == '"' {
                    '"'
                } else if e == '\\' {
                    '\\'
                } else if e == 'n' {
                    '\n'
                } else if e == 'r' {
                    '\r'
                } else {
                    '\t'
                };
                match parse_string_body(s, n, i + 2) {
                    Some(p) => {
                        let mut out = String::new();
                        push_char(&mut out, d);
                        out.append(p.0.as_str());
                        proof {
                            assert(out@ =~= seq![unescape_code(s@[i + 1])] + p.0@);
                        }
                        return Some((out, p.1));
                    },
                    None => {
                        return None;
                    },
                }
            }
            if n - i >= 6 && e == 'u' {
                let d2 = s.get_char(i + 2);
                let d3 = s.get_char(i + 3);
                let h1 = s.get_char(i + 4);
                let h2 = s.get_char(i + 5);
                if d2 == '0' && d3 == '0' && crate::ident::hex_digit_ok(h1)
                    && crate::ident::hex_digit_ok(h2) {
                    let v: u8 = hex_val_of(h1) * 16 + hex_val_of(h2);
                    if v < 32 {
                        let d: char = v as char;
                        match parse_string_body(s, n, i + 6) {
                            Some(p) => {
                                let mut out = String::new();
                                push_char(&mut out, d);
                                out.append(p.0.as_str());
                                proof {
                                    assert(out@ =~= seq![control_char(v as int)] + p.0@);
                                }
                                return Some((out, p.1));
                            },
                            None => {
                                return None;
                            },
                        }
                    }
                }
            }
        }
        return None;
    }
    match parse_string_body(s, n, i + 1) {
        Some(p) => {
            let mut out = String::new();
            push_char(&mut out, c);
            out.append(p.0.as_str());
            proof {
                assert(out@ =~= seq![s@[i as int]] + p.0@);
            }
            Some((out, p.1))
        },
        None => None,
    }
}

} // verus!
