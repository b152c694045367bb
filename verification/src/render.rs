//! The markup renderer: a four-rule line grammar (blank line, heading, list
//! item, paragraph text) with paragraph buffering, and the resolution of
//! `[[Name]]` cross-references into links.
use vstd::prelude::*;
use vstd::string::StrSliceExecFns;

use crate::codec::escape_char;
use crate::codec::escape_html;
use crate::codec::escape_seq;
use crate::text::append_str;
use crate::text::chars_to_string;
use crate::text::lines_vec;
use crate::text::lower_of;
use crate::text::lowercase;
use crate::text::split_lines;
use crate::text::trim_seq;
use crate::text::trim_str;

verus! {

/// The wiki key a cross-reference points at: the name lowercased, spaces
/// turned into underscores.
pub open spec fn link_target(name: Seq<char>) -> Seq<char> {
    lower_of(name).map_values(
        |c: char|
            if c == ' ' {
                '_'
            } else {
                c
            },
    )
}

/// The link a `[[name]]` cross-reference renders to.
pub open spec fn link_html(name: Seq<char>) -> Seq<char> {
    "<a href=\"/wiki/"@ + link_target(name) + "\" class=\"wiki-link\">"@ + escape_seq(name)
        + "</a>"@
}

/// The position of the first `]]` in `s`, or `None`.
pub open spec fn close_pos(s: Seq<char>) -> Option<int>
    decreases s.len(),
{
    if s.len() < 2 {
        None
    } else if s[0] == ']' && s[1] == ']' {
        Some(0int)
    } else {
        match close_pos(s.skip(1)) {
            Some(j) => Some(j + 1),
            None => None,
        }
    }
}

pub proof fn lemma_close_pos_bounds(s: Seq<char>)
    ensures
        match close_pos(s) {
            Some(j) => 0 <= j && j + 2 <= s.len() && s[j] == ']' && s[j + 1] == ']',
            None => true,
        },
    decreases s.len(),
{
    if s.len() < 2 {
    } else if s[0] == ']' && s[1] == ']' {
    } else {
        lemma_close_pos_bounds(s.skip(1));
    }
}

/// A text with every `[[name]]` cross-reference replaced by its link and all
/// text outside the tokens escaped; an unterminated `[[` consumes the rest of
/// the text silently.
pub open spec fn render_links(s: Seq<char>) -> Seq<char>
    decreases s.len(),
    via render_links_decreases
{
    if s.len() == 0 {
        Seq::<char>::empty()
    } else if s.len() >= 2 && s[0] == '[' && s[1] == '[' {
        match close_pos(s.skip(2)) {
            Some(j) => link_html(s.skip(2).take(j)) + render_links(s.skip(2).skip(j + 2)),
            None => Seq::<char>::empty(),
        }
    } else {
        escape_char(s[0]) + render_links(s.skip(1))
    }
}

#[via_fn]
proof fn render_links_decreases(s: Seq<char>) {
    if s.len() >= 2 && s[0] == '[' && s[1] == '[' {
        lemma_close_pos_bounds(s.skip(2));
    }
}

/// Replaces every `[[name]]` cross-reference in `text` by a link to the wiki
/// key derived from the name, with the escaped name as visible text, and
/// escapes all text outside the tokens.
pub fn process_links(text: &str) -> (r: String)
    ensures
        r@ == render_links(text@),
{
    let len = text.unicode_len();
    let mut out: Vec<char> = Vec::new();
    let mut i: usize = 0;
    proof {
        assert(text@.skip(0) =~= text@);
    }
    while i < len
        invariant
            len == text@.len(),
            i <= len,
            out@ + render_links(text@.skip(i as int)) == render_links(text@),
        decreases len - i,
    {
        let c = text.get_char(i);
        let ghost tail = text@.skip(i as int);
        let ghost prev = out@;
        if c == '[' && len - i >= 2 && text.get_char(i + 1) == '[' {
            // Scan for the first closing `]]`.
            let mut j: usize = i + 2;
            let mut found = false;
            proof {
                assert(text@.skip(i + 2).skip(0) =~= text@.skip(i + 2));
            }
            while !found && len - j >= 2
                invariant
                    len == text@.len(),
                    i + 2 <= j <= len,
                    found ==> j + 2 <= len && text@[j as int] == ']' && text@[j + 1] == ']',
                    found ==> close_pos(text@.skip(i + 2)) == Some(j - i - 2),
                    !found ==> close_pos(text@.skip(i + 2)) == match close_pos(
                        text@.skip(j as int),
                    ) {
                        Some(m) => Some(m + j - i - 2),
                        None => None::<int>,
                    },
                decreases len - j + (if found { 0int } else { 1int }),
            {
                proof {
                    assert(text@.skip(j as int).skip(1) =~= text@.skip(j + 1));
                    assert(text@.skip(j as int)[0] == text@[j as int]);
                    assert(text@.skip(j as int)[1] == text@[j + 1]);
                }
                if text.get_char(j) == ']' && text.get_char(j + 1) == ']' {
                    found = true;
                } else {
                    j += 1;
                }
            }
            if found {
                let name = text.substring_char(i + 2, j);
                proof {
                    assert(name@ =~= text@.skip(i + 2).take(j - i - 2));
                }
                let target_src = lowercase(name);
                let tlen = target_src.as_str().unicode_len();
                let mut target: Vec<char> = Vec::new();
                let mut k: usize = 0;
                while k < tlen
                    invariant
                        tlen == target_src@.len(),
                        k <= tlen,
                        target_src@ == lower_of(name@),
                        target@ =~= target_src@.take(k as int).map_values(
                            |c: char|
                                if c == ' ' {
                                    '_'
                                } else {
                                    c
                                },
                        ),
                    decreases tlen - k,
                {
                    let tc = target_src.as_str().get_char(k);
                    if tc == ' ' {
                        target.push('_');
                    } else {
                        target.push(tc);
                    }
                    proof {
                        assert(target@ =~= target_src@.take(k + 1).map_values(
                            |c: char|
                                if c == ' ' {
                                    '_'
                                } else {
                                    c
                                },
                        ));
                    }
                    k += 1;
                }
                proof {
                    assert(target_src@.take(tlen as int) =~= target_src@);
                    assert(target@ =~= link_target(name@));
                }
                let escaped = escape_html(name);
                let target_str = chars_to_string(&target);
                append_str(&mut out, "<a href=\"/wiki/");
                append_str(&mut out, target_str.as_str());
                append_str(&mut out, "\" class=\"wiki-link\">");
                append_str(&mut out, escaped.as_str());
                append_str(&mut out, "</a>");
                proof {
                    assert(out@ =~= prev + link_html(name@));
                    assert(tail.len() >= 2 && tail[0] == '[' && tail[1] == '[');
                    assert(tail.skip(2) =~= text@.skip(i + 2));
                    assert(tail.skip(2).take(j - i - 2) =~= name@);
                    assert(tail.skip(2).skip(j - i) =~= text@.skip(j + 2));
                    assert(render_links(tail) == link_html(name@) + render_links(
                        text@.skip(j + 2),
                    ));
                    assert(out@ + render_links(text@.skip(j + 2)) =~= prev + render_links(tail));
                }
                i = j + 2;
            } else {
                // Unterminated cross-reference: the rest is consumed silently.
                proof {
                    assert(text@.skip(j as int).len() < 2);
                    assert(close_pos(text@.skip(j as int)) is None);
                    assert(tail.len() >= 2 && tail[0] == '[' && tail[1] == '[');
                    assert(tail.skip(2) =~= text@.skip(i + 2));
                    assert(render_links(tail) =~= Seq::<char>::empty());
                    assert(text@.skip(len as int) =~= Seq::<char>::empty());
                    assert(out@ + render_links(text@.skip(len as int)) =~= prev + render_links(
                        tail,
                    ));
                }
                i = len;
            }
        } else {
            crate::codec::push_escaped_char(&mut out, c);
            proof {
                assert(tail.skip(1) =~= text@.skip(i + 1));
                if tail.len() >= 2 && tail[0] == '[' && tail[1] == '[' {
                    assert(false);
                }
                assert(render_links(tail) == escape_char(tail[0]) + render_links(
                    text@.skip(i + 1),
                ));
                assert(out@ + render_links(text@.skip(i + 1)) =~= prev + render_links(tail));
            }
            i += 1;
        }
    }
    proof {
        assert(text@.skip(len as int) =~= Seq::<char>::empty());
        assert(out@ =~= render_links(text@));
    }
    chars_to_string(&out)
}

/// What closing the paragraph buffer emits.
pub open spec fn close_par(in_par: bool) -> Seq<char> {
    if in_par {
        "</p>\n"@
    } else {
        Seq::<char>::empty()
    }
}

/// The rendering of a sequence of markup lines, top to bottom, given whether
/// a paragraph is open: blank lines close the paragraph, `# ` lines become
/// level-2 headings, `- ` lines become one-item lists, and any other line
/// opens or continues a paragraph. Every line's content is escaped and has
/// its cross-references resolved.
pub open spec fn render_lines(lines: Seq<Seq<char>>, in_par: bool) -> Seq<char>
    decreases lines.len(),
{
    if lines.len() == 0 {
        close_par(in_par)
    } else {
        let t = trim_seq(lines[0]);
        if t.len() == 0 {
            close_par(in_par) + render_lines(lines.skip(1), false)
        } else if t.len() >= 2 && t[0] == '#' && t[1] == ' ' {
            close_par(in_par) + "<h2>"@ + render_links(t.skip(2)) + "</h2>\n"@ + render_lines(
                lines.skip(1),
                false,
            )
        } else if t.len() >= 2 && t[0] == '-' && t[1] == ' ' {
            close_par(in_par) + "<ul><li>"@ + render_links(t.skip(2)) + "</li></ul>\n"@
                + render_lines(lines.skip(1), false)
        } else if !in_par {
            "<p>"@ + render_links(t) + render_lines(lines.skip(1), true)
        } else {
            seq![' '] + render_links(t) + render_lines(lines.skip(1), true)
        }
    }
}

/// The hypertext a stored markup text renders to.
pub open spec fn markdown_spec(content: Seq<char>) -> Seq<char> {
    render_lines(split_lines(content), false)
}

/// Renders a stored markup text into hypertext, line by line.
pub fn markdown_to_html(content: &str) -> (r: String)
    ensures
        r@ == markdown_spec(content@),
{
    let lines = lines_vec(content);
    let ghost lv = lines.deep_view();
    let mut out: Vec<char> = Vec::new();
    let mut in_par = false;
    let mut k: usize = 0;
    proof {
        assert(lv.skip(0) =~~= lv);
    }
    while k < lines.len()
        invariant
            lv == lines.deep_view(),
            k <= lines.len(),
            out@ + render_lines(lv.skip(k as int), in_par) == render_lines(lv, false),
        decreases lines.len() - k,
    {
        let ghost tail = lv.skip(k as int);
        let ghost prev = out@;
        proof {
            assert(tail[0] == lv[k as int]);
            assert(tail.skip(1) =~~= lv.skip(k + 1));
        }
        let t = trim_str(lines[k].as_str());
        let tl = t.as_str().unicode_len();
        if tl == 0 {
            let ghost was_par = in_par;
            if in_par {
                append_str(&mut out, "</p>\n");
                in_par = false;
            }
            proof {
                assert(out@ =~= prev + close_par(was_par));
                assert(out@ + render_lines(lv.skip(k + 1), false) =~= prev + render_lines(
                    tail,
                    was_par,
                ));
            }
        } else if tl >= 2 && t.as_str().get_char(0) == '#' && t.as_str().get_char(1) == ' ' {
            let ghost was_par = in_par;
            if in_par {
                append_str(&mut out, "</p>\n");
                in_par = false;
            }
            let restt = t.as_str().substring_char(2, tl);
            proof {
                assert(restt@ =~= t@.skip(2));
            }
            let heading = process_links(restt);
            append_str(&mut out, "<h2>");
            append_str(&mut out, heading.as_str());
            append_str(&mut out, "</h2>\n");
            proof {
                assert(out@ =~= prev + (close_par(was_par) + "<h2>"@ + render_links(t@.skip(2))
                    + "</h2>\n"@));
                assert(out@ + render_lines(lv.skip(k + 1), false) =~= prev + render_lines(
                    tail,
                    was_par,
                ));
            }
        } else if tl >= 2 && t.as_str().get_char(0) == '-' && t.as_str().get_char(1) == ' ' {
            let ghost was_par = in_par;
            if in_par {
                append_str(&mut out, "</p>\n");
                in_par = false;
            }
            let restt = t.as_str().substring_char(2, tl);
            proof {
                assert(restt@ =~= t@.skip(2));
            }
            let body = process_links(restt);
            append_str(&mut out, "<ul><li>");
            append_str(&mut out, body.as_str());
            append_str(&mut out, "</li></ul>\n");
            proof {
                assert(out@ =~= prev + (close_par(was_par) + "<ul><li>"@ + render_links(t@.skip(2))
                    + "</li></ul>\n"@));
                assert(out@ + render_lines(lv.skip(k + 1), false) =~= prev + render_lines(
                    tail,
                    was_par,
                ));
            }
        } else {
            let ghost was_par = in_par;
            if !in_par {
                append_str(&mut out, "<p>");
                in_par = true;
            } else {
                out.push(' ');
            }
            let body = process_links(t.as_str());
            append_str(&mut out, body.as_str());
            proof {
                if was_par {
                    assert(out@ =~= prev + (seq![' '] + render_links(t@)));
                } else {
                    assert(out@ =~= prev + ("<p>"@ + render_links(t@)));
                }
                assert(out@ + render_lines(lv.skip(k + 1), true) =~= prev + render_lines(
                    tail,
                    was_par,
                ));
            }
        }
        k += 1;
    }
    if in_par {
        append_str(&mut out, "</p>\n");
    }
    proof {
        assert(lv.skip(lines.len() as int) =~~= Seq::<Seq<char>>::empty());
        assert(out@ =~= render_lines(lv, false));
    }
    chars_to_string(&out)
}

} // verus!
