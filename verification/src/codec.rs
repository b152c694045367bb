//! Escaping and form decoding: hypertext escaping of the five reserved
//! characters, and the percent/plus decoding applied to query and form values.
use vstd::prelude::*;
use vstd::string::StrSliceExecFns;

use crate::text::chars_to_string;

verus! {

/// What one character contributes to the escaped form of a text.
pub open spec fn escape_char(c: char) -> Seq<char> {
    if c == '&' {
        seq!['&', 'a', 'm', 'p', ';']
    } else if c == '<' {
        seq!['&', 'l', 't', ';']
    } else if c == '>' {
        seq!['&', 'g', 't', ';']
    } else if c == '"' {
        seq!['&', 'q', 'u', 'o', 't', ';']
    } else if c == '\'' {
        seq!['&', '#', '3', '9', ';']
    } else {
        seq![c]
    }
}

/// The escaped form of a text: each reserved character replaced by its entity.
pub open spec fn escape_seq(s: Seq<char>) -> Seq<char>
    decreases s.len(),
{
    if s.len() == 0 {
        Seq::<char>::empty()
    } else {
        escape_char(s[0]) + escape_seq(s.skip(1))
    }
}

/// Appends the escaped form of one character to `out`.
pub(crate) fn push_escaped_char(out: &mut Vec<char>, c: char)
    ensures
        final(out)@ == old(out)@ + escape_char(c),
{
    let ghost prev = out@;
    if c == '&' {
        out.push('&');
        out.push('a');
        out.push('m');
        out.push('p');
        out.push(';');
    } else if c == '<' {
        out.push('&');
        out.push('l');
        out.push('t');
        out.push(';');
    } else if c == '>' {
        out.push('&');
        out.push('g');
        out.push('t');
        out.push(';');
    } else if c == '"' {
        out.push('&');
        out.push('q');
        out.push('u');
        out.push('o');
        out.push('t');
        out.push(';');
    } else if c == '\'' {
        out.push('&');
        out.push('#');
        out.push('3');
        out.push('9');
        out.push(';');
    } else {
        out.push(c);
    }
    proof {
        assert(out@ =~= prev + escape_char(c));
    }
}

/// Escapes `& < > " '` so that stored text never injects markup.
pub fn escape_html(s: &str) -> (r: String)
    ensures
        r@ == escape_seq(s@),
{
    let len = s.unicode_len();
    let mut out: Vec<char> = Vec::new();
    let mut i: usize = 0;
    proof {
        assert(s@.skip(0) =~= s@);
    }
    while i < len
        invariant
            len == s@.len(),
            i <= len,
            out@ + escape_seq(s@.skip(i as int)) == escape_seq(s@),
        decreases len - i,
    {
        let c = s.get_char(i);
        proof {
            assert(s@.skip(i as int).skip(1) =~= s@.skip(i + 1));
            assert(escape_seq(s@.skip(i as int)) == escape_char(c) + escape_seq(s@.skip(i + 1)));
        }
        let ghost prev = out@;
        push_escaped_char(&mut out, c);
        proof {
            assert(out@ + escape_seq(s@.skip(i + 1)) =~= (prev + escape_char(c)) + escape_seq(
                s@.skip(i + 1),
            ));
        }
        i += 1;
    }
    proof {
        assert(s@.skip(len as int) =~= Seq::<char>::empty());
        assert(out@ =~= escape_seq(s@));
    }
    chars_to_string(&out)
}

/// A hexadecimal digit, upper or lower case.
pub open spec fn is_hex_digit(c: char) -> bool {
    ('0' <= c && c <= '9') || ('a' <= c && c <= 'f') || ('A' <= c && c <= 'F')
}

/// The numeric value of a hexadecimal digit.
pub open spec fn hex_val(c: char) -> int {
    if '0' <= c && c <= '9' {
        c as int - '0' as int
    } else if 'a' <= c && c <= 'f' {
        c as int - 'a' as int + 10
    } else {
        c as int - 'A' as int + 10
    }
}

/// The character encoded by two hexadecimal digits.
pub open spec fn hex_char(h: char, l: char) -> char {
    (16 * hex_val(h) + hex_val(l)) as char
}

/// The value of a hexadecimal digit, or `None` where the character is none.
pub fn hex_digit_val(c: char) -> (r: Option<u8>)
    ensures
        match r {
            Some(v) => is_hex_digit(c) && v as int == hex_val(c),
            None => !is_hex_digit(c),
        },
{
    if '0' <= c && c <= '9' {
        Some((c as u32 - '0' as u32) as u8)
    } else if 'a' <= c && c <= 'f' {
        Some((c as u32 - 'a' as u32 + 10) as u8)
    } else if 'A' <= c && c <= 'F' {
        Some((c as u32 - 'A' as u32 + 10) as u8)
    } else {
        None
    }
}

/// The decoded form of a query or form value: `+` becomes a space, `%XY`
/// becomes the character with code `XY` (missing digits default to `0`,
/// malformed digits drop the escape silently), all else passes through.
pub open spec fn urldecode_seq(s: Seq<char>) -> Seq<char>
    decreases s.len(),
{
    if s.len() == 0 {
        Seq::<char>::empty()
    } else if s[0] == '+' {
        seq![' '] + urldecode_seq(s.skip(1))
    } else if s[0] == '%' {
        let h = if s.len() >= 2 {
            s[1]
        } else {
            '0'
        };
        let l = if s.len() >= 3 {
            s[2]
        } else {
            '0'
        };
        let rest = if s.len() >= 3 {
            urldecode_seq(s.skip(3))
        } else {
            Seq::<char>::empty()
        };
        if is_hex_digit(h) && is_hex_digit(l) {
            seq![hex_char(h, l)] + rest
        } else {
            rest
        }
    } else {
        seq![s[0]] + urldecode_seq(s.skip(1))
    }
}

/// Percent/plus decoding of one query or form value.
pub fn urldecode(s: &str) -> (r: String)
    ensures
        r@ == urldecode_seq(s@),
{
    let len = s.unicode_len();
    let mut out: Vec<char> = Vec::new();
    let mut i: usize = 0;
    proof {
        assert(s@.skip(0) =~= s@);
    }
    while i < len
        invariant
            len == s@.len(),
            i <= len,
            out@ + urldecode_seq(s@.skip(i as int)) == urldecode_seq(s@),
        decreases len - i,
    {
        let c = s.get_char(i);
        let ghost tail = s@.skip(i as int);
        let ghost prev = out@;
        if c == '+' {
            out.push(' ');
            proof {
                assert(tail.skip(1) =~= s@.skip(i + 1));
                assert(out@ + urldecode_seq(s@.skip(i + 1)) =~= prev + urldecode_seq(tail));
            }
            i += 1;
        } else if c == '%' {
            let h = if len - i > 1 {
                s.get_char(i + 1)
            } else {
                '0'
            };
            let l = if len - i > 2 {
                s.get_char(i + 2)
            } else {
                '0'
            };
            let next = if len - i >= 3 {
                i + 3
            } else {
                len
            };
            proof {
                if tail.len() >= 3 {
                    assert(tail.skip(3) =~= s@.skip(next as int));
                } else {
                    assert(s@.skip(next as int) =~= Seq::<char>::empty());
                }
            }
            match (hex_digit_val(h), hex_digit_val(l)) {
                (Some(hv), Some(lv)) => {
                    let b: u8 = 16 * hv + lv;
                    out.push(byte_to_char(b));
                    proof {
                        assert(b as char == hex_char(h, l));
                        assert(out@ =~= prev + seq![hex_char(h, l)]);
                        assert(out@ + urldecode_seq(s@.skip(next as int)) =~= prev + urldecode_seq(
                            tail,
                        ));
                    }
                },
                _ => {
                    proof {
                        assert(out@ + urldecode_seq(s@.skip(next as int)) =~= prev + urldecode_seq(
                            tail,
                        ));
                    }
                },
            }
            i = next;
        } else {
            out.push(c);
            proof {
                assert(tail.skip(1) =~= s@.skip(i + 1));
                assert(out@ + urldecode_seq(s@.skip(i + 1)) =~= prev + urldecode_seq(tail));
            }
            i += 1;
        }
    }
    proof {
        assert(s@.skip(len as int) =~= Seq::<char>::empty());
        assert(out@ =~= urldecode_seq(s@));
    }
    chars_to_string(&out)
}

/// What follows the first occurrence of `sep`, or `None` where `sep` is absent.
pub open spec fn after_first(s: Seq<char>, sep: char) -> Option<Seq<char>>
    decreases s.len(),
{
    if s.len() == 0 {
        None
    } else if s[0] == sep {
        Some(s.skip(1))
    } else {
        after_first(s.skip(1), sep)
    }
}

/// The decoded value of the first `k=v` pair whose key is `param` and which
/// splits into exactly two `=`-separated pieces; empty where none matches.
pub open spec fn lookup_pairs(pairs: Seq<Seq<char>>, param: Seq<char>) -> Seq<char>
    decreases pairs.len(),
{
    if pairs.len() == 0 {
        Seq::<char>::empty()
    } else {
        let kv = crate::text::split_char(pairs[0], '=');
        if kv.len() == 2 && kv[0] == param {
            urldecode_seq(kv[1])
        } else {
            lookup_pairs(pairs.skip(1), param)
        }
    }
}

/// The decoded value of `param` in a `&`-separated form body.
pub open spec fn form_param(body: Seq<char>, param: Seq<char>) -> Seq<char> {
    lookup_pairs(crate::text::split_char(body, '&'), param)
}

/// The decoded value of `param` in the query part of `path` (after the first
/// `?`); empty where the path has no query or no matching pair.
pub open spec fn query_param(path: Seq<char>, param: Seq<char>) -> Seq<char> {
    match after_first(path, '?') {
        Some(q) => form_param(q, param),
        None => Seq::<char>::empty(),
    }
}

/// Everything after the first blank-line separator of a raw request; empty
/// where the request has none.
pub open spec fn body_of(req: Seq<char>) -> Seq<char>
    decreases req.len(),
{
    if req.len() < 4 {
        Seq::<char>::empty()
    } else if req[0] == '\r' && req[1] == '\n' && req[2] == '\r' && req[3] == '\n' {
        req.skip(4)
    } else {
        body_of(req.skip(1))
    }
}

/// Looks `param` up in a `&`-separated pair list and decodes its value.
pub fn extract_form_param(body: &str, param: &str) -> (r: String)
    ensures
        r@ == form_param(body@, param@),
{
    let pairs = crate::text::split_str(body, '&');
    let ghost all = pairs.deep_view();
    let mut j: usize = 0;
    proof {
        assert(all.skip(0) =~~= all);
    }
    while j < pairs.len()
        invariant
            all == pairs.deep_view(),
            j <= pairs.len(),
            form_param(body@, param@) == lookup_pairs(all.skip(j as int), param@),
        decreases pairs.len() - j,
    {
        proof {
            assert(all.skip(j as int)[0] == all[j as int]);
            assert(all.skip(j as int).skip(1) =~~= all.skip(j + 1));
        }
        let kv = crate::text::split_str(pairs[j].as_str(), '=');
        if kv.len() == 2 && crate::text::str_eq(kv[0].as_str(), param) {
            return urldecode(kv[1].as_str());
        }
        j += 1;
    }
    proof {
        assert(all.skip(pairs.len() as int) =~~= Seq::<Seq<char>>::empty());
    }
    String::new()
}

/// Extracts and decodes query parameter `param` from a request path.
pub fn extract_query_param(path: &str, param: &str) -> (r: String)
    ensures
        r@ == query_param(path@, param@),
{
    let len = path.unicode_len();
    let mut i: usize = 0;
    proof {
        assert(path@.skip(0) =~= path@);
    }
    while i < len
        invariant
            len == path@.len(),
            i <= len,
            after_first(path@, '?') == after_first(path@.skip(i as int), '?'),
        decreases len - i,
    {
        proof {
            assert(path@.skip(i as int).skip(1) =~= path@.skip(i + 1));
        }
        if path.get_char(i) == '?' {
            let q = path.substring_char(i + 1, len);
            proof {
                assert(q@ =~= path@.skip(i + 1));
            }
            return extract_form_param(q, param);
        }
        i += 1;
    }
    proof {
        assert(path@.skip(len as int) =~= Seq::<char>::empty());
    }
    String::new()
}

/// Extracts the body: everything after the first blank-line separator.
pub fn extract_body(request: &str) -> (r: String)
    ensures
        r@ == body_of(request@),
{
    let len = request.unicode_len();
    let mut i: usize = 0;
    proof {
        assert(request@.skip(0) =~= request@);
    }
    while len - i >= 4
        invariant
            len == request@.len(),
            i <= len,
            body_of(request@) == body_of(request@.skip(i as int)),
        decreases len - i,
    {
        proof {
            assert(request@.skip(i as int).skip(1) =~= request@.skip(i + 1));
            assert(request@.skip(i as int).len() >= 4);
        }
        if request.get_char(i) == '\r' && request.get_char(i + 1) == '\n' && request.get_char(
            i + 2,
        ) == '\r' && request.get_char(i + 3) == '\n' {
            let rest = request.substring_char(i + 4, len);
            proof {
                assert(rest@ =~= request@.skip(i as int).skip(4));
            }
            return String::from_str(rest);
        }
        i += 1;
    }
    String::new()
}

/// Relies on the primitive `u8` to `char` cast: the character with that code.
#[verifier::external_body]
fn byte_to_char(b: u8) -> (c: char)
    ensures
        c == b as char,
{
    b as char
}

} // verus!
