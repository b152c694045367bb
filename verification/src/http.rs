//! Response framing: status lines, content-type headers, redirects, the
//! stylesheet, and the simplified date shown on history pages.
use vstd::prelude::*;

use crate::text::append_str;
use crate::text::chars_to_string;

verus! {

/// The decimal digit `d` as a character.
pub open spec fn digit_char(d: int) -> char {
    if d == 0 {
        '0'
    } else if d == 1 {
        '1'
    } else if d == 2 {
        '2'
    } else if d == 3 {
        '3'
    } else if d == 4 {
        '4'
    } else if d == 5 {
        '5'
    } else if d == 6 {
        '6'
    } else if d == 7 {
        '7'
    } else if d == 8 {
        '8'
    } else {
        '9'
    }
}

/// The decimal digits of `n`, most significant first, no leading zeros.
pub open spec fn dec_digits(n: nat) -> Seq<char>
    decreases n,
{
    if n < 10 {
        seq![digit_char(n as int)]
    } else {
        dec_digits(n / 10).push(digit_char((n % 10) as int))
    }
}

/// `s` left-padded with zeros to width `w`.
pub open spec fn zero_pad(s: Seq<char>, w: int) -> Seq<char> {
    if s.len() >= w {
        s
    } else {
        Seq::new((w - s.len()) as nat, |i: int| '0') + s
    }
}

fn digit_char_of(d: u64) -> (c: char)
    requires
        d < 10,
    ensures
        c == digit_char(d as int),
{
    if d == 0 {
        '0'
    } else if d == 1 {
        '1'
    } else if d == 2 {
        '2'
    } else if d == 3 {
        '3'
    } else if d == 4 {
        '4'
    } else if d == 5 {
        '5'
    } else if d == 6 {
        '6'
    } else if d == 7 {
        '7'
    } else if d == 8 {
        '8'
    } else {
        '9'
    }
}

/// Appends the decimal digits of `n` to `out`.
pub fn push_dec(n: u64, out: &mut Vec<char>)
    ensures
        final(out)@ == old(out)@ + dec_digits(n as nat),
    decreases n,
{
    if n >= 10 {
        push_dec(n / 10, out);
    }
    out.push(digit_char_of(n % 10));
    proof {
        if n >= 10 {
            assert(old(out)@ + dec_digits(n as nat) =~= (old(out)@ + dec_digits(
                (n / 10) as nat,
            )).push(digit_char((n % 10) as int)));
        } else {
            assert(old(out)@ + dec_digits(n as nat) =~= old(out)@.push(digit_char(n as int)));
        }
    }
}

/// Appends the decimal digits of `n`, zero-padded to width `w`.
pub fn push_dec_padded(n: u64, w: usize, out: &mut Vec<char>)
    ensures
        final(out)@ == old(out)@ + zero_pad(dec_digits(n as nat), w as int),
{
    let mut digits: Vec<char> = Vec::new();
    push_dec(n, &mut digits);
    let ghost ds = digits@;
    let mut pad: usize = 0;
    if digits.len() < w {
        pad = w - digits.len();
    }
    let mut z: usize = 0;
    while z < pad
        invariant
            z <= pad,
            ds == digits@,
            out@ =~= old(out)@ + Seq::new(z as nat, |i: int| '0'),
        decreases pad - z,
    {
        out.push('0');
        proof {
            assert(out@ =~= old(out)@ + Seq::new((z + 1) as nat, |i: int| '0'));
        }
        z += 1;
    }
    let digits_str = chars_to_string(&digits);
    append_str(out, digits_str.as_str());
    proof {
        if ds.len() >= w {
            assert(Seq::new(0nat, |i: int| '0') =~= Seq::<char>::empty());
            assert(out@ =~= old(out)@ + zero_pad(ds, w as int));
        } else {
            assert(out@ =~= old(out)@ + zero_pad(ds, w as int));
        }
    }
}

/// The simplified date for a timestamp: whole days since the epoch, 365-day
/// years, 30-day months, rendered `YYYY-MM-DD`.
pub open spec fn format_ts(ts: u64) -> Seq<char> {
    let days = ts as int / 86400;
    let years = days / 365 + 1970;
    let rem = days % 365;
    let month = rem / 30 + 1;
    let day = rem % 30 + 1;
    zero_pad(dec_digits(years as nat), 4) + seq!['-'] + zero_pad(dec_digits(month as nat), 2)
        + seq!['-'] + zero_pad(dec_digits(day as nat), 2)
}

/// Renders a timestamp as its simplified `YYYY-MM-DD` date.
pub fn format_timestamp(ts: u64) -> (r: String)
    ensures
        r@ == format_ts(ts),
{
    let days = ts / 86400;
    let years = days / 365 + 1970;
    let rem = days % 365;
    let month = rem / 30 + 1;
    let day = rem % 30 + 1;
    let mut out: Vec<char> = Vec::new();
    push_dec_padded(years, 4, &mut out);
    out.push('-');
    push_dec_padded(month, 2, &mut out);
    out.push('-');
    push_dec_padded(day, 2, &mut out);
    proof {
        assert(out@ =~= format_ts(ts));
    }
    chars_to_string(&out)
}

/// A bare response: status line with `code` and `message`, no headers, and
/// the message again as the body.
pub open spec fn http_response_spec(code: u64, message: Seq<char>) -> Seq<char> {
    "HTTP/1.1 "@ + dec_digits(code as nat) + seq![' '] + message + "\r\n\r\n"@ + message
}

/// Frames a bare status response.
pub fn http_response(code: u64, message: &str) -> (r: String)
    ensures
        r@ == http_response_spec(code, message@),
{
    let mut out: Vec<char> = Vec::new();
    append_str(&mut out, "HTTP/1.1 ");
    push_dec(code, &mut out);
    out.push(' ');
    append_str(&mut out, message);
    append_str(&mut out, "\r\n\r\n");
    append_str(&mut out, message);
    proof {
        assert(out@ =~= http_response_spec(code, message@));
    }
    chars_to_string(&out)
}

/// A success response carrying a hypertext body.
pub open spec fn html_response_spec(body: Seq<char>) -> Seq<char> {
    "HTTP/1.1 200 OK\r\nContent-Type: text/html; charset=UTF-8\r\n\r\n"@ + body
}

/// Frames a hypertext body as a success response.
pub fn html_response(body: &str) -> (r: String)
    ensures
        r@ == html_response_spec(body@),
{
    let mut out: Vec<char> = Vec::new();
    append_str(&mut out, "HTTP/1.1 200 OK\r\nContent-Type: text/html; charset=UTF-8\r\n\r\n");
    append_str(&mut out, body);
    proof {
        assert(out@ =~= html_response_spec(body@));
    }
    chars_to_string(&out)
}

/// A see-other redirect to `location`, empty body.
pub open spec fn redirect_response_spec(location: Seq<char>) -> Seq<char> {
    "HTTP/1.1 303 See Other\r\nLocation: "@ + location + "\r\n\r\n"@
}

/// Frames a redirect after a save.
pub fn redirect_response(location: &str) -> (r: String)
    ensures
        r@ == redirect_response_spec(location@),
{
    let mut out: Vec<char> = Vec::new();
    append_str(&mut out, "HTTP/1.1 303 See Other\r\nLocation: ");
    append_str(&mut out, location);
    append_str(&mut out, "\r\n\r\n");
    proof {
        assert(out@ =~= redirect_response_spec(location@));
    }
    chars_to_string(&out)
}

/// The fixed stylesheet, as a complete response.
pub open spec fn css_response_spec() -> Seq<char> {
    "HTTP/1.1 200 OK\r\nContent-Type: text/css\r\n\r\n"@ + css_text()
}

pub open spec fn css_text() -> Seq<char> {
    "body { font-family: 'Helvetica Neue', Arial, sans-serif; background: #ffffff; color: #000000; line-height: 1.6; margin: 0; }\nheader { background: #000000; color: #ffffff; padding: 1.5rem 2rem; border-bottom: 4px solid #ff0000; }\nheader h1 a { color: #ffffff; text-decoration: none; }\nmain { max-width: 900px; margin: 2rem auto; padding: 0 2rem; }\narticle { border: 2px solid #000000; padding: 2rem; }\n.wiki-link { color: #0000ff; font-weight: 500; }\n.btn, .primary-btn { padding: 0.5rem 1.5rem; font-weight: 600; border: 2px solid #000000; }\n.primary-btn { background: #ff0000; color: #ffffff; }\n.edit-textarea { width: 100%; font-family: 'Courier New', monospace; }\n.history-item, .search-result { padding: 1rem; border: 2px solid #000000; margin-bottom: 1rem; }\n"@
}

/// Serves the stylesheet.
pub fn css_response() -> (r: String)
    ensures
        r@ == css_response_spec(),
{
    let mut out: Vec<char> = Vec::new();
    append_str(&mut out, "HTTP/1.1 200 OK\r\nContent-Type: text/css\r\n\r\n");
    append_str(
        &mut out,
        "body { font-family: 'Helvetica Neue', Arial, sans-serif; background: #ffffff; color: #000000; line-height: 1.6; margin: 0; }\nheader { background: #000000; color: #ffffff; padding: 1.5rem 2rem; border-bottom: 4px solid #ff0000; }\nheader h1 a { color: #ffffff; text-decoration: none; }\nmain { max-width: 900px; margin: 2rem auto; padding: 0 2rem; }\narticle { border: 2px solid #000000; padding: 2rem; }\n.wiki-link { color: #0000ff; font-weight: 500; }\n.btn, .primary-btn { padding: 0.5rem 1.5rem; font-weight: 600; border: 2px solid #000000; }\n.primary-btn { background: #ff0000; color: #ffffff; }\n.edit-textarea { width: 100%; font-family: 'Courier New', monospace; }\n.history-item, .search-result { padding: 1rem; border: 2px solid #000000; margin-bottom: 1rem; }\n",
    );
    proof {
        assert(out@ =~= css_response_spec());
    }
    chars_to_string(&out)
}

} // verus!
