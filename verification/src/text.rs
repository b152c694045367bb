//! Character and string primitives shared by the decoder, the renderer and
//! the router: whitespace classification, substring search, prefix tests and
//! conversions between `&str`, `Vec<char>` and `String`.
use vstd::prelude::*;
use vstd::string::StrSliceExecFns;

verus! {

/// The Unicode white-space characters, as `char::is_whitespace` documents them.
pub open spec fn is_space(c: char) -> bool {
    c == ' ' || c == '\t' || c == '\n' || c == '\r' || c == '\u{000B}' || c == '\u{000C}'
        || c == '\u{0085}' || c == '\u{00A0}' || c == '\u{1680}'
        || ('\u{2000}' <= c && c <= '\u{200A}')
        || c == '\u{2028}' || c == '\u{2029}' || c == '\u{202F}' || c == '\u{205F}'
        || c == '\u{3000}'
}

pub fn is_space_char(c: char) -> (r: bool)
    ensures
        r == is_space(c),
{
    c == ' ' || c == '\t' || c == '\n' || c == '\r' || c == '\u{000B}' || c == '\u{000C}'
        || c == '\u{0085}' || c == '\u{00A0}' || c == '\u{1680}'
        || ('\u{2000}' <= c && c <= '\u{200A}')
        || c == '\u{2028}' || c == '\u{2029}' || c == '\u{202F}' || c == '\u{205F}'
        || c == '\u{3000}'
}

/// The needle `n` occurs in `h` starting at position `i`.
pub open spec fn matches_at(h: Seq<char>, n: Seq<char>, i: int) -> bool {
    0 <= i && i + n.len() <= h.len() && h.subrange(i, i + n.len()) == n
}

/// `n` occurs somewhere in `h` (every sequence contains the empty one).
pub open spec fn contains_seq(h: Seq<char>, n: Seq<char>) -> bool {
    exists|i: int| matches_at(h, n, i)
}

/// `p` is a prefix of `s`.
pub open spec fn is_prefix(p: Seq<char>, s: Seq<char>) -> bool {
    p.len() <= s.len() && s.subrange(0, p.len() as int) == p
}

/// Substring search by character, checking every candidate position.
pub fn contains_str(h: &str, n: &str) -> (r: bool)
    ensures
        r == contains_seq(h@, n@),
{
    let hl = h.unicode_len();
    let nl = n.unicode_len();
    if nl > hl {
        assert(forall|i: int| !matches_at(h@, n@, i));
        return false;
    }
    let mut i: usize = 0;
    while i <= hl - nl
        invariant
            nl <= hl,
            hl == h@.len(),
            nl == n@.len(),
            i <= hl - nl + 1,
            forall|k: int| 0 <= k < i ==> !matches_at(h@, n@, k),
        decreases hl - nl - i + 1,
    {
        let mut j: usize = 0;
        let mut same = true;
        while j < nl
            invariant
                nl <= hl,
                hl == h@.len(),
                nl == n@.len(),
                i + nl <= hl,
                j <= nl,
                same <==> h@.subrange(i as int, i + j as int) =~= n@.subrange(0, j as int),
            decreases nl - j,
        {
            if h.get_char(i + j) != n.get_char(j) {
                assert(h@.subrange(i as int, i + j + 1)[j as int] != n@.subrange(0, j + 1)[j as int]);
                same = false;
                j += 1;
            } else {
                proof {
                    if same {
                        assert(h@.subrange(i as int, i + j + 1) =~= n@.subrange(0, j + 1));
                    } else {
                        let k = choose|k: int|
                            0 <= k < j && h@.subrange(i as int, i + j as int)[k] != n@.subrange(
                                0,
                                j as int,
                            )[k];
                        assert(h@.subrange(i as int, i + j + 1)[k] != n@.subrange(0, j + 1)[k]);
                    }
                }
                j += 1;
            }
        }
        if same {
            assert(n@.subrange(0, nl as int) =~= n@);
            assert(matches_at(h@, n@, i as int));
            return true;
        }
        proof {
            assert(h@.subrange(i as int, i + nl) != n@.subrange(0, nl as int));
            assert(n@.subrange(0, nl as int) =~= n@);
            assert(!matches_at(h@, n@, i as int));
        }
        i += 1;
    }
    proof {
        assert(forall|k: int| i <= k ==> !matches_at(h@, n@, k));
    }
    false
}

/// Prefix test by character comparison.
pub fn str_starts_with(s: &str, p: &str) -> (r: bool)
    ensures
        r == is_prefix(p@, s@),
{
    let sl = s.unicode_len();
    let pl = p.unicode_len();
    if pl > sl {
        return false;
    }
    let mut j: usize = 0;
    while j < pl
        invariant
            pl <= sl,
            sl == s@.len(),
            pl == p@.len(),
            j <= pl,
            s@.subrange(0, j as int) =~= p@.subrange(0, j as int),
        decreases pl - j,
    {
        if s.get_char(j) != p.get_char(j) {
            assert(s@.subrange(0, p@.len() as int)[j as int] != p@[j as int]);
            return false;
        }
        proof {
            assert(s@.subrange(0, j + 1) =~= p@.subrange(0, j + 1));
        }
        j += 1;
    }
    assert(s@.subrange(0, pl as int) =~= p@);
    true
}

/// Character-wise string equality.
pub fn str_eq(a: &str, b: &str) -> (r: bool)
    ensures
        r == (a@ == b@),
{
    let al = a.unicode_len();
    let bl = b.unicode_len();
    if al != bl {
        return false;
    }
    let mut j: usize = 0;
    while j < al
        invariant
            al == a@.len(),
            al == b@.len(),
            j <= al,
            a@.subrange(0, j as int) =~= b@.subrange(0, j as int),
        decreases al - j,
    {
        if a.get_char(j) != b.get_char(j) {
            assert(a@.subrange(0, a@.len() as int)[j as int] != b@.subrange(0, b@.len() as int)[j as int]);
            return false;
        }
        proof {
            assert(a@.subrange(0, j + 1) =~= b@.subrange(0, j + 1));
        }
        j += 1;
    }
    proof {
        assert(a@.subrange(0, al as int) =~= a@);
        assert(b@.subrange(0, al as int) =~= b@);
    }
    true
}

/// The pieces of `s` between occurrences of `sep`: always at least one piece,
/// one more for every separator, separators themselves dropped.
pub open spec fn split_char(s: Seq<char>, sep: char) -> Seq<Seq<char>>
    decreases s.len(),
{
    if s.len() == 0 {
        seq![Seq::<char>::empty()]
    } else if s[0] == sep {
        seq![Seq::<char>::empty()] + split_char(s.skip(1), sep)
    } else {
        let rest = split_char(s.skip(1), sep);
        seq![seq![s[0]] + rest[0]] + rest.skip(1)
    }
}

pub proof fn lemma_split_char_len(s: Seq<char>, sep: char)
    ensures
        split_char(s, sep).len() >= 1,
    decreases s.len(),
{
    if s.len() == 0 {
    } else if s[0] == sep {
    } else {
        lemma_split_char_len(s.skip(1), sep);
    }
}

/// The pieces of `s` between white-space characters, empty pieces included.
pub open spec fn split_spaces(s: Seq<char>) -> Seq<Seq<char>>
    decreases s.len(),
{
    if s.len() == 0 {
        seq![Seq::<char>::empty()]
    } else if is_space(s[0]) {
        seq![Seq::<char>::empty()] + split_spaces(s.skip(1))
    } else {
        let rest = split_spaces(s.skip(1));
        seq![seq![s[0]] + rest[0]] + rest.skip(1)
    }
}

pub proof fn lemma_split_spaces_len(s: Seq<char>)
    ensures
        split_spaces(s).len() >= 1,
    decreases s.len(),
{
    if s.len() == 0 {
    } else if is_space(s[0]) {
    } else {
        lemma_split_spaces_len(s.skip(1));
    }
}

/// The white-space-separated tokens of `s`, as `str::split_whitespace` yields
/// them: maximal runs of non-space characters, in order.
pub open spec fn split_ws(s: Seq<char>) -> Seq<Seq<char>> {
    split_spaces(s).filter(|t: Seq<char>| t.len() > 0)
}

/// `s` without leading white space.
pub open spec fn trim_start(s: Seq<char>) -> Seq<char>
    decreases s.len(),
{
    if s.len() > 0 && is_space(s[0]) {
        trim_start(s.skip(1))
    } else {
        s
    }
}

/// `s` without trailing white space.
pub open spec fn trim_end(s: Seq<char>) -> Seq<char>
    decreases s.len(),
{
    if s.len() > 0 && is_space(s.last()) {
        trim_end(s.drop_last())
    } else {
        s
    }
}

/// `s` without leading and trailing white space, as `str::trim` yields it.
pub open spec fn trim_seq(s: Seq<char>) -> Seq<char> {
    trim_end(trim_start(s))
}

/// A line without its trailing carriage return, if it carries one.
pub open spec fn strip_cr(line: Seq<char>) -> Seq<char> {
    if line.len() > 0 && line.last() == '\r' {
        line.drop_last()
    } else {
        line
    }
}

/// The lines of `s`, as `str::lines` yields them: split at every line feed,
/// one optional final line ending producing no extra empty line, and each
/// line's trailing carriage return dropped.
pub open spec fn split_lines(s: Seq<char>) -> Seq<Seq<char>> {
    let parts = split_char(s, '\n');
    let kept = if parts.len() > 0 && parts.last().len() == 0 {
        parts.drop_last()
    } else {
        parts
    };
    kept.map_values(|l: Seq<char>| strip_cr(l))
}

/// Splits `s` at every occurrence of `sep`.
pub fn split_str(s: &str, sep: char) -> (r: Vec<String>)
    ensures
        r.deep_view() == split_char(s@, sep),
{
    let len = s.unicode_len();
    let mut out: Vec<String> = Vec::new();
    let mut cur: Vec<char> = Vec::new();
    let mut i: usize = 0;
    proof {
        assert(s@.skip(0) =~= s@);
    }
    while i < len
        invariant
            len == s@.len(),
            i <= len,
            split_char(s@, sep) =~~= out.deep_view() + prepend_first(
                cur@,
                split_char(s@.skip(i as int), sep),
            ),
        decreases len - i,
    {
        let c = s.get_char(i);
        let ghost tail = s@.skip(i as int);
        proof {
            assert(tail.skip(1) =~= s@.skip(i + 1));
            lemma_split_char_len(s@.skip(i + 1), sep);
        }
        if c == sep {
            let done = chars_to_string(&cur);
            out.push(done);
            cur = Vec::new();
            proof {
                assert(split_char(s@, sep) =~~= out.deep_view() + prepend_first(
                    cur@,
                    split_char(s@.skip(i + 1), sep),
                ));
            }
        } else {
            cur.push(c);
            proof {
                assert(split_char(s@, sep) =~~= out.deep_view() + prepend_first(
                    cur@,
                    split_char(s@.skip(i + 1), sep),
                ));
            }
        }
        i += 1;
    }
    let done = chars_to_string(&cur);
    out.push(done);
    proof {
        assert(s@.skip(len as int) =~= Seq::<char>::empty());
        assert(out.deep_view() =~~= split_char(s@, sep));
    }
    out
}

/// The remaining split pieces with `pre` glued onto the front of the first.
pub open spec fn prepend_first(pre: Seq<char>, parts: Seq<Seq<char>>) -> Seq<Seq<char>> {
    seq![pre + parts[0]] + parts.skip(1)
}

/// Splits `s` into its white-space-separated tokens.
pub fn split_whitespace_vec(s: &str) -> (r: Vec<String>)
    ensures
        r.deep_view() == split_ws(s@),
{
    let len = s.unicode_len();
    let mut parts: Vec<String> = Vec::new();
    let mut cur: Vec<char> = Vec::new();
    let mut i: usize = 0;
    proof {
        assert(s@.skip(0) =~= s@);
    }
    while i < len
        invariant
            len == s@.len(),
            i <= len,
            split_spaces(s@) =~~= parts.deep_view() + prepend_first(
                cur@,
                split_spaces(s@.skip(i as int)),
            ),
        decreases len - i,
    {
        let c = s.get_char(i);
        let ghost tail = s@.skip(i as int);
        proof {
            assert(tail.skip(1) =~= s@.skip(i + 1));
            lemma_split_spaces_len(s@.skip(i + 1));
        }
        if is_space_char(c) {
            let done = chars_to_string(&cur);
            parts.push(done);
            cur = Vec::new();
            proof {
                assert(split_spaces(s@) =~~= parts.deep_view() + prepend_first(
                    cur@,
                    split_spaces(s@.skip(i + 1)),
                ));
            }
        } else {
            cur.push(c);
            proof {
                assert(split_spaces(s@) =~~= parts.deep_view() + prepend_first(
                    cur@,
                    split_spaces(s@.skip(i + 1)),
                ));
            }
        }
        i += 1;
    }
    let done = chars_to_string(&cur);
    parts.push(done);
    proof {
        assert(s@.skip(len as int) =~= Seq::<char>::empty());
        assert(parts.deep_view() =~~= split_spaces(s@));
    }
    let ghost all = parts.deep_view();
    let ghost pred = |t: Seq<char>| t.len() > 0;
    let mut out: Vec<String> = Vec::new();
    let mut k: usize = 0;
    proof {
        assert(all.take(0) =~~= Seq::<Seq<char>>::empty());
        reveal(Seq::filter);
    }
    while k < parts.len()
        invariant
            all == parts.deep_view(),
            pred == (|t: Seq<char>| t.len() > 0),
            k <= parts.len(),
            out.deep_view() == all.take(k as int).filter(pred),
        decreases parts.len() - k,
    {
        proof {
            reveal(Seq::filter);
            assert(all.take(k + 1).drop_last() =~~= all.take(k as int));
            assert(all.take(k + 1).last() == all[k as int]);
        }
        let piece = &parts[k];
        if piece.unicode_len() > 0 {
            let copy = String::from_str(piece.as_str());
            out.push(copy);
            proof {
                assert(out.deep_view() =~~= all.take(k as int).filter(pred).push(all[k as int]));
            }
        } else {
            proof {
                assert(out.deep_view() =~~= all.take(k + 1).filter(pred));
            }
        }
        k += 1;
    }
    proof {
        assert(all.take(parts.len() as int) =~~= all);
    }
    out
}

/// Trims white space from both ends of `s`.
pub fn trim_str(s: &str) -> (r: String)
    ensures
        r@ == trim_seq(s@),
{
    let len = s.unicode_len();
    let mut a: usize = 0;
    proof {
        assert(s@.skip(0) =~= s@);
    }
    while a < len && is_space_char(s.get_char(a))
        invariant
            len == s@.len(),
            a <= len,
            trim_start(s@) == trim_start(s@.skip(a as int)),
        decreases len - a,
    {
        proof {
            assert(s@.skip(a as int).skip(1) =~= s@.skip(a + 1));
        }
        a += 1;
    }
    proof {
        if a == len {
            assert(s@.skip(a as int) =~= Seq::<char>::empty());
        }
        assert(trim_start(s@) == s@.skip(a as int));
    }
    let mut b: usize = len;
    proof {
        assert(s@.subrange(a as int, b as int) =~= s@.skip(a as int));
    }
    while b > a && is_space_char(s.get_char(b - 1))
        invariant
            len == s@.len(),
            a <= b <= len,
            trim_end(trim_start(s@)) == trim_end(s@.subrange(a as int, b as int)),
        decreases b,
    {
        proof {
            assert(s@.subrange(a as int, b as int).drop_last() =~= s@.subrange(a as int, b - 1));
            assert(s@.subrange(a as int, b as int).last() == s@[b - 1]);
        }
        b -= 1;
    }
    proof {
        assert(trim_seq(s@) == s@.subrange(a as int, b as int));
    }
    let piece = s.substring_char(a, b);
    String::from_str(piece)
}

/// Splits `s` into its lines.
pub fn lines_vec(s: &str) -> (r: Vec<String>)
    ensures
        r.deep_view() == split_lines(s@),
{
    let mut parts = split_str(s, '\n');
    proof {
        lemma_split_char_len(s@, '\n');
    }
    let last_len = parts[parts.len() - 1].unicode_len();
    if last_len == 0 {
        let ghost before = parts.deep_view();
        parts.pop();
        proof {
            assert(parts.deep_view() =~~= before.drop_last());
        }
    }
    let ghost kept = parts.deep_view();
    let mut out: Vec<String> = Vec::new();
    let mut k: usize = 0;
    while k < parts.len()
        invariant
            kept == parts.deep_view(),
            k <= parts.len(),
            out.deep_view() =~~= kept.take(k as int).map_values(|l: Seq<char>| strip_cr(l)),
        decreases parts.len() - k,
    {
        let piece = &parts[k];
        let pl = piece.unicode_len();
        let stripped = if pl > 0 && piece.as_str().get_char(pl - 1) == '\r' {
            proof {
                assert(piece@.subrange(0, pl - 1) =~= piece@.drop_last());
            }
            String::from_str(piece.as_str().substring_char(0, pl - 1))
        } else {
            String::from_str(piece.as_str())
        };
        proof {
            assert(piece@ == kept[k as int]);
            assert(stripped@ == strip_cr(kept[k as int]));
        }
        out.push(stripped);
        proof {
            assert(kept.take(k + 1) =~~= kept.take(k as int).push(kept[k as int]));
            assert(kept.take(k + 1).map_values(|l: Seq<char>| strip_cr(l)) =~~= kept.take(
                k as int,
            ).map_values(|l: Seq<char>| strip_cr(l)).push(strip_cr(kept[k as int])));
            assert(out.deep_view() =~~= kept.take(k + 1).map_values(|l: Seq<char>| strip_cr(l)));
        }
        k += 1;
    }
    proof {
        assert(kept.take(parts.len() as int) =~~= kept);
        assert(out.deep_view() =~~= split_lines(s@));
    }
    out
}

/// A word with its first character mapped to upper case.
pub open spec fn capitalize_word(w: Seq<char>) -> Seq<char> {
    if w.len() == 0 {
        w
    } else {
        upper_of(w[0]) + w.skip(1)
    }
}

/// The pieces joined with single spaces between them.
pub open spec fn join_spaces(ws: Seq<Seq<char>>) -> Seq<char> {
    join_char(ws, ' ')
}

/// The pieces joined with `sep` between them.
pub open spec fn join_char(ws: Seq<Seq<char>>, sep: char) -> Seq<char>
    decreases ws.len(),
{
    if ws.len() == 0 {
        Seq::<char>::empty()
    } else if ws.len() == 1 {
        ws[0]
    } else {
        join_char(ws.drop_last(), sep) + seq![sep] + ws.last()
    }
}

/// The display title derived from an article key: underscores become spaces,
/// each word's first character is mapped to upper case, words are joined with
/// single spaces.
pub open spec fn title_of(key: Seq<char>) -> Seq<char> {
    join_spaces(
        split_ws(
            key.map_values(
                |c: char|
                    if c == '_' {
                        ' '
                    } else {
                        c
                    },
            ),
        ).map_values(|w: Seq<char>| capitalize_word(w)),
    )
}

/// Appends the characters of `s` to `out`.
pub fn append_str(out: &mut Vec<char>, s: &str)
    ensures
        final(out)@ == old(out)@ + s@,
{
    let len = s.unicode_len();
    let mut j: usize = 0;
    while j < len
        invariant
            len == s@.len(),
            j <= len,
            out@ == old(out)@ + s@.take(j as int),
        decreases len - j,
    {
        out.push(s.get_char(j));
        proof {
            assert(old(out)@ + s@.take(j + 1) =~= (old(out)@ + s@.take(j as int)).push(
                s@[j as int],
            ));
        }
        j += 1;
    }
    proof {
        assert(s@.take(len as int) =~= s@);
    }
}

/// Relies on `String::from_iter` over `core::str::Chars`: collecting the
/// characters of a character vector yields the string with exactly those
/// characters.
#[verifier::external_body]
pub(crate) fn chars_to_string(v: &Vec<char>) -> (r: String)
    ensures
        r@ == v@,
{
    v.iter().collect()
}

/// What `str::to_lowercase` returns: a function of the characters alone.
pub uninterp spec fn lower_of(s: Seq<char>) -> Seq<char>;

/// Relies on `str::to_lowercase`: the result depends only on the input
/// characters (Unicode lowercase mapping, no locale or environment input).
#[verifier::external_body]
pub(crate) fn lowercase(s: &str) -> (r: String)
    ensures
        r@ == lower_of(s@),
{
    s.to_lowercase()
}

/// What `char::to_uppercase` yields for one character, as a character sequence.
pub uninterp spec fn upper_of(c: char) -> Seq<char>;

/// Relies on `char::to_uppercase`: the uppercase mapping of a character is a
/// fixed, possibly multi-character sequence depending on that character alone.
#[verifier::external_body]
pub(crate) fn char_upper(c: char) -> (r: String)
    ensures
        r@ == upper_of(c),
{
    c.to_uppercase().collect()
}

} // verus!
