//! Character and line primitives for the header engine.
//!
//! The engine holds a file's text as a vector of characters, so every
//! position in a contract is a character offset. Lines are terminated by
//! `'\n'`; a final line without a terminator is still a line.

use vstd::prelude::*;

verus! {

use vstd::std_specs::iter::IteratorSpec;

/// A character with the Unicode `White_Space` property, the set that
/// `char::is_whitespace` recognises.
pub open spec fn spec_is_space(c: char) -> bool {
    let u = c as u32;
    u == 0x20 || (0x09 <= u && u <= 0x0d) || u == 0x85 || u == 0xa0 || u == 0x1680 || (0x2000
        <= u && u <= 0x200a) || u == 0x2028 || u == 0x2029 || u == 0x202f || u == 0x205f || u
        == 0x3000
}

pub fn is_space(c: char) -> (r: bool)
    ensures
        r == spec_is_space(c),
{
    let u: u32 = c as u32;
    u == 0x20 || (0x09 <= u && u <= 0x0d) || u == 0x85 || u == 0xa0 || u == 0x1680 || (0x2000 <= u
        && u <= 0x200a) || u == 0x2028 || u == 0x2029 || u == 0x202f || u == 0x205f || u == 0x3000
}

/// A sequence is blank when every character is whitespace; the empty
/// sequence is blank.
pub open spec fn spec_blank(l: Seq<char>) -> bool {
    forall|i: int| 0 <= i < l.len() ==> spec_is_space(#[trigger] l[i])
}

/// Offset of the line terminator of the line starting at `p`, or the end of
/// the text when the last line is unterminated.
pub open spec fn line_end(s: Seq<char>, p: int) -> int
    decreases s.len() - p,
    when 0 <= p <= s.len()
{
    if p >= s.len() {
        s.len() as int
    } else if s[p] == '\n' {
        p
    } else {
        line_end(s, p + 1)
    }
}

/// Offset of the first character after the line starting at `p`: one past
/// its terminator, or the end of the text.
pub open spec fn next_pos(s: Seq<char>, p: int) -> int {
    if line_end(s, p) < s.len() {
        line_end(s, p) + 1
    } else {
        s.len() as int
    }
}

/// The line starting at `p`, without its terminator.
pub open spec fn line_at(s: Seq<char>, p: int) -> Seq<char> {
    s.subrange(p, line_end(s, p))
}

pub proof fn lemma_line_end_bounds(s: Seq<char>, p: int)
    requires
        0 <= p <= s.len(),
    ensures
        p <= line_end(s, p) <= s.len(),
    decreases s.len() - p,
{
    if p < s.len() && s[p] != '\n' {
        lemma_line_end_bounds(s, p + 1);
    }
}

pub proof fn lemma_next_pos(s: Seq<char>, p: int)
    requires
        0 <= p <= s.len(),
    ensures
        p <= next_pos(s, p) <= s.len(),
        p < s.len() ==> p < next_pos(s, p),
{
    lemma_line_end_bounds(s, p);
}

pub fn find_line_end(text: &Vec<char>, from: usize) -> (r: usize)
    requires
        from <= text@.len(),
    ensures
        r == line_end(text@, from as int),
        from <= r <= text@.len(),
{
    let mut i: usize = from;
    while i < text.len()
        invariant
            from <= i <= text@.len(),
            line_end(text@, from as int) == line_end(text@, i as int),
        decreases text@.len() - i,
    {
        if text[i] == '\n' {
            return i;
        }
        i = i + 1;
    }
    i
}

pub fn advance_line(text: &Vec<char>, from: usize) -> (r: usize)
    requires
        from <= text@.len(),
    ensures
        r == next_pos(text@, from as int),
        from <= r <= text@.len(),
        from < text@.len() ==> from < r,
{
    let e: usize = find_line_end(text, from);
    if e < text.len() {
        e + 1
    } else {
        e
    }
}

/// Copies the line starting at `from`, without its terminator.
pub fn line_chars(text: &Vec<char>, from: usize) -> (r: Vec<char>)
    requires
        from <= text@.len(),
    ensures
        r@ == line_at(text@, from as int),
{
    let e: usize = find_line_end(text, from);
    let mut r: Vec<char> = Vec::new();
    let mut i: usize = from;
    while i < e
        invariant
            from <= i <= e,
            e == line_end(text@, from as int),
            e <= text@.len(),
            r@ == text@.subrange(from as int, i as int),
        decreases e - i,
    {
        r.push(text[i]);
        proof {
            assert(text@.subrange(from as int, i + 1 as int) =~= text@.subrange(
                from as int,
                i as int,
            ).push(text@[i as int]));
        }
        i = i + 1;
    }
    r
}

pub fn line_is_blank(text: &Vec<char>, from: usize) -> (r: bool)
    requires
        from <= text@.len(),
    ensures
        r == spec_blank(line_at(text@, from as int)),
{
    let e: usize = find_line_end(text, from);
    let mut i: usize = from;
    while i < e
        invariant
            from <= i <= e,
            e == line_end(text@, from as int),
            e <= text@.len(),
            forall|j: int| from <= j < i ==> spec_is_space(#[trigger] text@[j]),
        decreases e - i,
    {
        if !is_space(text[i]) {
            proof {
                let l = line_at(text@, from as int);
                assert(l[i - from] == text@[i as int]);
            }
            return false;
        }
        i = i + 1;
    }
    proof {
        let l = line_at(text@, from as int);
        assert forall|k: int| 0 <= k < l.len() implies spec_is_space(#[trigger] l[k]) by {
            assert(l[k] == text@[from + k]);
        }
    }
    true
}

/// Whether `pre` is a prefix of `s`.
pub open spec fn seq_starts_with(s: Seq<char>, pre: Seq<char>) -> bool {
    pre.len() <= s.len() && s.subrange(0, pre.len() as int) == pre
}

/// Whether the line starting at `from` starts with `pre`.
pub fn line_starts_with(text: &Vec<char>, from: usize, pre: &Vec<char>) -> (r: bool)
    requires
        from <= text@.len(),
    ensures
        r == seq_starts_with(line_at(text@, from as int), pre@),
{
    let e: usize = find_line_end(text, from);
    if pre.len() > e - from {
        return false;
    }
    let ghost l = line_at(text@, from as int);
    let mut i: usize = 0;
    while i < pre.len()
        invariant
            0 <= i <= pre@.len(),
            pre@.len() <= e - from,
            from <= e <= text@.len(),
            e == line_end(text@, from as int),
            l == line_at(text@, from as int),
            forall|j: int| 0 <= j < i ==> #[trigger] l[j] == pre@[j],
        decreases pre@.len() - i,
    {
        if text[from + i] != pre[i] {
            proof {
                assert(l[i as int] == text@[from + i]);
                assert(l.subrange(0, pre@.len() as int)[i as int] == l[i as int]);
            }
            return false;
        }
        proof {
            assert(l[i as int] == text@[from + i]);
        }
        i = i + 1;
    }
    proof {
        assert(l.subrange(0, pre@.len() as int) =~= pre@);
    }
    true
}

/// Whether `suf` is a suffix of `s`.
pub open spec fn seq_ends_with(s: Seq<char>, suf: Seq<char>) -> bool {
    suf.len() <= s.len() && s.subrange(s.len() - suf.len(), s.len() as int) == suf
}

pub fn chars_end_with(v: &Vec<char>, suf: &Vec<char>) -> (r: bool)
    ensures
        r == seq_ends_with(v@, suf@),
{
    if suf.len() > v.len() {
        return false;
    }
    let base: usize = v.len() - suf.len();
    let hl: usize = v.len();
    let ghost tail = v@.subrange(v@.len() - suf@.len(), v@.len() as int);
    let mut i: usize = 0;
    while i < suf.len()
        invariant
            0 <= i <= suf@.len(),
            suf@.len() <= v@.len(),
            hl == v@.len(),
            base == v@.len() - suf@.len(),
            tail == v@.subrange(v@.len() - suf@.len(), v@.len() as int),
            forall|j: int| 0 <= j < i ==> #[trigger] v@[base + j] == suf@[j],
        decreases suf@.len() - i,
    {
        if v[base + i] != suf[i] {
            proof {
                assert(tail[i as int] == v@[base + i]);
            }
            return false;
        }
        i = i + 1;
    }
    proof {
        assert forall|k: int| 0 <= k < suf@.len() implies tail[k] == suf@[k] by {
            assert(v@[base + k] == suf@[k]);
            assert(tail[k] == v@[base + k]);
        }
        assert(tail =~= suf@);
    }
    true
}

/// Whether `nd` occurs in `hay` as a contiguous subsequence. The empty
/// sequence occurs in every sequence.
pub open spec fn contains_sub(hay: Seq<char>, nd: Seq<char>) -> bool {
    exists|i: int| 0 <= i <= hay.len() - nd.len() && #[trigger] hay.subrange(i, i + nd.len()) == nd
}

fn match_at(hay: &Vec<char>, nd: &Vec<char>, at: usize) -> (r: bool)
    requires
        at + nd@.len() <= hay@.len(),
    ensures
        r == (hay@.subrange(at as int, at + nd@.len()) == nd@),
{
    let hl: usize = hay.len();
    let mut j: usize = 0;
    while j < nd.len()
        invariant
            0 <= j <= nd@.len(),
            at + nd@.len() <= hay@.len(),
            hl == hay@.len(),
            forall|k: int| 0 <= k < j ==> #[trigger] hay@[at + k] == nd@[k],
        decreases nd@.len() - j,
    {
        if hay[at + j] != nd[j] {
            proof {
                assert(hay@.subrange(at as int, at + nd@.len())[j as int] == hay@[at + j]);
            }
            return false;
        }
        j = j + 1;
    }
    proof {
        assert forall|k: int| 0 <= k < nd@.len() implies hay@.subrange(at as int, at + nd@.len())[k]
            == nd@[k] by {
            assert(hay@[at + k] == nd@[k]);
        }
        assert(hay@.subrange(at as int, at + nd@.len()) =~= nd@);
    }
    true
}

pub fn chars_contain(hay: &Vec<char>, nd: &Vec<char>) -> (r: bool)
    ensures
        r == contains_sub(hay@, nd@),
{
    if nd.len() > hay.len() {
        return false;
    }
    if nd.len() == 0 {
        proof {
            assert(hay@.subrange(0, 0 + nd@.len() as int) =~= nd@);
        }
        return true;
    }
    let bound: usize = hay.len() - nd.len();
    let hl: usize = hay.len();
    let mut i: usize = 0;
    while i <= bound
        invariant
            0 <= i <= bound + 1,
            bound == hay@.len() - nd@.len(),
            hl == hay@.len(),
            nd@.len() >= 1,
            forall|k: int|
                0 <= k < i ==> #[trigger] hay@.subrange(k, k + nd@.len()) != nd@,
        decreases bound - i + 1,
    {
        if match_at(hay, nd, i) {
            return true;
        }
        i = i + 1;
    }
    false
}

/// Copies `v[lo..hi]`.
pub fn copy_range(v: &Vec<char>, lo: usize, hi: usize) -> (r: Vec<char>)
    requires
        lo <= hi <= v@.len(),
    ensures
        r@ == v@.subrange(lo as int, hi as int),
{
    let mut r: Vec<char> = Vec::new();
    let mut i: usize = lo;
    while i < hi
        invariant
            lo <= i <= hi <= v@.len(),
            r@ == v@.subrange(lo as int, i as int),
        decreases hi - i,
    {
        r.push(v[i]);
        proof {
            assert(v@.subrange(lo as int, i + 1 as int) =~= v@.subrange(lo as int, i as int).push(
                v@[i as int],
            ));
        }
        i = i + 1;
    }
    r
}

/// First index at or after `i` whose character is not whitespace, or the end.
pub open spec fn skip_spaces_from(s: Seq<char>, i: int) -> int
    decreases s.len() - i,
    when 0 <= i <= s.len()
{
    if i >= s.len() {
        i
    } else if spec_is_space(s[i]) {
        skip_spaces_from(s, i + 1)
    } else {
        i
    }
}

/// One past the last non-whitespace character strictly before `j`, or zero.
pub open spec fn rtrim_idx(s: Seq<char>, j: int) -> int
    decreases j,
    when 0 <= j <= s.len()
{
    if j <= 0 {
        0
    } else if spec_is_space(s[j - 1]) {
        rtrim_idx(s, j - 1)
    } else {
        j
    }
}

pub proof fn lemma_rtrim_bounds(s: Seq<char>, j: int)
    requires
        0 <= j <= s.len(),
    ensures
        0 <= rtrim_idx(s, j) <= j,
    decreases j,
{
    if j > 0 && spec_is_space(s[j - 1]) {
        lemma_rtrim_bounds(s, j - 1);
    }
}

/// The sequence with trailing whitespace removed.
pub open spec fn spec_trim_end(s: Seq<char>) -> Seq<char> {
    s.subrange(0, rtrim_idx(s, s.len() as int))
}

/// The sequence with leading and trailing whitespace removed.
pub open spec fn spec_trim(s: Seq<char>) -> Seq<char> {
    let lo = skip_spaces_from(s, 0);
    let hi = rtrim_idx(s, s.len() as int);
    if lo <= hi {
        s.subrange(lo, hi)
    } else {
        Seq::empty()
    }
}

pub fn trim_end_chars(v: &Vec<char>) -> (r: Vec<char>)
    ensures
        r@ == spec_trim_end(v@),
{
    let mut j: usize = v.len();
    while j > 0 && is_space(v[j - 1])
        invariant
            0 <= j <= v@.len(),
            rtrim_idx(v@, v@.len() as int) == rtrim_idx(v@, j as int),
        decreases j,
    {
        j = j - 1;
    }
    proof {
        lemma_rtrim_bounds(v@, j as int);
    }
    copy_range(v, 0, j)
}

pub fn trim_chars(v: &Vec<char>) -> (r: Vec<char>)
    ensures
        r@ == spec_trim(v@),
{
    let mut j: usize = v.len();
    while j > 0 && is_space(v[j - 1])
        invariant
            0 <= j <= v@.len(),
            rtrim_idx(v@, v@.len() as int) == rtrim_idx(v@, j as int),
        decreases j,
    {
        j = j - 1;
    }
    let mut i: usize = 0;
    while i < v.len() && is_space(v[i])
        invariant
            0 <= i <= v@.len(),
            skip_spaces_from(v@, 0) == skip_spaces_from(v@, i as int),
        decreases v@.len() - i,
    {
        i = i + 1;
    }
    proof {
        lemma_rtrim_bounds(v@, j as int);
    }
    if i <= j {
        copy_range(v, i, j)
    } else {
        Vec::new()
    }
}

/// The sequence with every whitespace character removed, from index `i` on.
pub open spec fn strip_spaces_from(s: Seq<char>, i: int) -> Seq<char>
    decreases s.len() - i,
    when 0 <= i <= s.len()
{
    if i >= s.len() {
        Seq::empty()
    } else if spec_is_space(s[i]) {
        strip_spaces_from(s, i + 1)
    } else {
        seq![s[i]] + strip_spaces_from(s, i + 1)
    }
}

pub fn strip_spaces(v: &Vec<char>) -> (r: Vec<char>)
    ensures
        r@ == strip_spaces_from(v@, 0),
{
    let mut r: Vec<char> = Vec::new();
    let mut i: usize = 0;
    while i < v.len()
        invariant
            0 <= i <= v@.len(),
            strip_spaces_from(v@, 0) == r@ + strip_spaces_from(v@, i as int),
        decreases v@.len() - i,
    {
        if !is_space(v[i]) {
            r.push(v[i]);
            proof {
                assert(r@ + strip_spaces_from(v@, i + 1) =~= r@.drop_last() + (seq![v@[i as int]]
                    + strip_spaces_from(v@, i + 1)));
            }
        }
        i = i + 1;
    }
    proof {
        assert(r@ + strip_spaces_from(v@, v@.len() as int) =~= r@);
    }
    r
}

/// ASCII-case-insensitive character equality, as `str::eq_ignore_ascii_case`
/// compares characters.
pub open spec fn spec_ieq_char(a: char, b: char) -> bool {
    a == b || (0x41 <= a as u32 && a as u32 <= 0x5a && b as u32 == a as u32 + 0x20) || (0x41
        <= b as u32 && b as u32 <= 0x5a && a as u32 == b as u32 + 0x20)
}

pub open spec fn spec_ieq(a: Seq<char>, b: Seq<char>) -> bool {
    a.len() == b.len() && forall|i: int| 0 <= i < a.len() ==> spec_ieq_char(#[trigger] a[i], b[i])
}

pub fn ieq_ascii(a: &Vec<char>, b: &Vec<char>) -> (r: bool)
    ensures
        r == spec_ieq(a@, b@),
{
    if a.len() != b.len() {
        return false;
    }
    let mut i: usize = 0;
    while i < a.len()
        invariant
            0 <= i <= a@.len(),
            a@.len() == b@.len(),
            forall|j: int| 0 <= j < i ==> spec_ieq_char(#[trigger] a@[j], b@[j]),
        decreases a@.len() - i,
    {
        let ca: char = a[i];
        let cb: char = b[i];
        let x: u32 = ca as u32;
        let y: u32 = cb as u32;
        let eq: bool = ca == cb || (0x41 <= x && x <= 0x5a && y == x + 0x20) || (0x41 <= y && y
            <= 0x5a && x == y + 0x20);
        if !eq {
            return false;
        }
        i = i + 1;
    }
    true
}

/// The text with every line ending normalized, from index `i` on: a
/// `"\r\n"` pair collapses to `'\n'`, and a bare `'\r'` becomes `'\n'`, so
/// a carriage return marks a line boundary either way and the result holds
/// no carriage return at all.
pub open spec fn normalize_from(s: Seq<char>, i: int) -> Seq<char>
    decreases s.len() - i,
    when 0 <= i <= s.len()
{
    if i >= s.len() {
        Seq::empty()
    } else if s[i] == '\r' && i + 1 < s.len() && s[i + 1] == '\n' {
        normalize_from(s, i + 1)
    } else if s[i] == '\r' {
        seq!['\n'] + normalize_from(s, i + 1)
    } else {
        seq![s[i]] + normalize_from(s, i + 1)
    }
}

pub fn normalize_newlines(v: &Vec<char>) -> (r: Vec<char>)
    ensures
        r@ == normalize_from(v@, 0),
{
    let mut r: Vec<char> = Vec::new();
    let mut i: usize = 0;
    while i < v.len()
        invariant
            0 <= i <= v@.len(),
            normalize_from(v@, 0) == r@ + normalize_from(v@, i as int),
        decreases v@.len() - i,
    {
        if v[i] == '\r' && i + 1 < v.len() && v[i + 1] == '\n' {
        } else if v[i] == '\r' {
            r.push('\n');
            proof {
                assert(r@ + normalize_from(v@, i + 1) =~= r@.drop_last() + (seq!['\n']
                    + normalize_from(v@, i + 1)));
            }
        } else {
            r.push(v[i]);
            proof {
                assert(r@ + normalize_from(v@, i + 1) =~= r@.drop_last() + (seq![v@[i as int]]
                    + normalize_from(v@, i + 1)));
            }
        }
        i = i + 1;
    }
    proof {
        assert(r@ + normalize_from(v@, v@.len() as int) =~= r@);
    }
    r
}

/// Relies on `String::push`: appends the character to the string.
#[verifier::external_body]
pub fn push_char(s: &mut String, c: char)
    ensures
        final(s)@ == old(s)@.push(c),
{
    s.push(c);
}

/// Builds the string holding exactly the given characters.
pub fn chars_string(v: &Vec<char>) -> (r: String)
    ensures
        r@ == v@,
{
    let mut r: String = String::new();
    let mut i: usize = 0;
    while i < v.len()
        invariant
            0 <= i <= v@.len(),
            r@ == v@.subrange(0, i as int),
        decreases v@.len() - i,
    {
        push_char(&mut r, v[i]);
        proof {
            assert(v@.subrange(0, i + 1 as int) =~= v@.subrange(0, i as int).push(v@[i as int]));
        }
        i = i + 1;
    }
    proof {
        assert(v@.subrange(0, v@.len() as int) =~= v@);
    }
    r
}

/// Collects the characters of a string slice, in order.
pub fn str_chars(s: &str) -> (r: Vec<char>)
    ensures
        r@ == s@,
{
    broadcast use vstd::string::axiom_spec_iter, vstd::string::next_postcondition;

    let mut it = s.chars();
    let mut r: Vec<char> = Vec::new();
    loop
        invariant
            it.obeys_prophetic_iter_laws(),
            it.decrease() is Some,
            r@ + it.remaining() == s@,
        ensures
            r@ == s@,
        decreases it.decrease()->0,
    {
        let ghost prev = it;
        match it.next() {
            Some(c) => {
                proof {
                    assert(r@.push(c) + it.remaining() =~= r@ + prev.remaining());
                }
                r.push(c);
            },
            None => {
                proof {
                    assert(r@ + it.remaining() =~= r@);
                }
                break ;
            },
        }
    }
    r
}

/// Name for the result of `str::to_lowercase`: the Unicode lowercase form of
/// a character sequence.
pub uninterp spec fn lower_of(s: Seq<char>) -> Seq<char>;

/// Relies on `str::to_lowercase`: the result depends on the characters alone,
/// and an empty string stays empty.
#[verifier::external_body]
pub fn to_lower(s: &str) -> (r: String)
    ensures
        r@ == lower_of(s@),
        s@.len() == 0 ==> r@.len() == 0,
{
    s.to_lowercase()
}

/// Lowercases the line starting at `from`, as a string.
pub fn lower_line(text: &Vec<char>, from: usize) -> (r: String)
    requires
        from <= text@.len(),
    ensures
        r@ == lower_of(line_at(text@, from as int)),
{
    let l: Vec<char> = line_chars(text, from);
    let s: String = chars_string(&l);
    to_lower(s.as_str())
}

/// The text from index `i` on, with every occurrence of `from` replaced by
/// `to`, scanning left to right without overlap.
pub open spec fn replace_from(s: Seq<char>, pat: Seq<char>, to: Seq<char>, i: int) -> Seq<char>
    decreases s.len() - i,
    when 0 <= i <= s.len() && pat.len() >= 1
{
    if i > s.len() - pat.len() {
        s.subrange(i, s.len() as int)
    } else if s.subrange(i, i + pat.len()) == pat {
        to + replace_from(s, pat, to, i + pat.len())
    } else {
        seq![s[i]] + replace_from(s, pat, to, i + 1)
    }
}

/// Every occurrence of `pat` replaced by `to`; with an empty pattern the
/// text is unchanged, as `str::replace` leaves it when the replacement is
/// empty.
pub open spec fn spec_replace(s: Seq<char>, pat: Seq<char>, to: Seq<char>) -> Seq<char> {
    if pat.len() == 0 {
        s
    } else {
        replace_from(s, pat, to, 0)
    }
}

/// Appends all of `add` to `r`.
pub fn extend_chars(r: &mut Vec<char>, add: &Vec<char>)
    ensures
        final(r)@ == old(r)@ + add@,
{
    let mut j: usize = 0;
    while j < add.len()
        invariant
            0 <= j <= add@.len(),
            r@ == old(r)@ + add@.subrange(0, j as int),
        decreases add@.len() - j,
    {
        r.push(add[j]);
        proof {
            assert(old(r)@ + add@.subrange(0, j + 1 as int) =~= (old(r)@ + add@.subrange(
                0,
                j as int,
            )).push(add@[j as int]));
        }
        j = j + 1;
    }
    proof {
        assert(old(r)@ + add@.subrange(0, add@.len() as int) =~= old(r)@ + add@);
    }
}

pub fn replace_chars(v: &Vec<char>, pat: &Vec<char>, to: &Vec<char>) -> (r: Vec<char>)
    ensures
        r@ == spec_replace(v@, pat@, to@),
{
    if pat.len() == 0 {
        return copy_range(v, 0, v.len());
    }
    let mut r: Vec<char> = Vec::new();
    let mut i: usize = 0;
    while i < v.len()
        invariant
            0 <= i <= v@.len(),
            pat@.len() >= 1,
            replace_from(v@, pat@, to@, 0) == r@ + replace_from(v@, pat@, to@, i as int),
        decreases v@.len() - i,
    {
        let can = pat.len() <= v.len() - i;
        if can && match_at(v, pat, i) {
            let ghost r0 = r@;
            extend_chars(&mut r, to);
            proof {
                assert(r0 + (to@ + replace_from(v@, pat@, to@, i + pat@.len())) =~= r@
                    + replace_from(v@, pat@, to@, i + pat@.len()));
            }
            i = i + pat.len();
        } else {
            r.push(v[i]);
            proof {
                assert(r@ + replace_from(v@, pat@, to@, i + 1) =~= r@.drop_last() + (seq![
                    v@[i as int],
                ] + replace_from(v@, pat@, to@, i + 1)));
            }
            i = i + 1;
        }
    }
    proof {
        assert(r@ + replace_from(v@, pat@, to@, v@.len() as int) =~= r@);
    }
    r
}


/// The line starting at `p` with a trailing carriage return removed, as
/// `str::lines` yields it.
pub open spec fn strip_cr(l: Seq<char>) -> Seq<char> {
    if l.len() > 0 && l[l.len() - 1] == '\r' {
        l.drop_last()
    } else {
        l
    }
}

/// The list of lines from position `p` on, each without its terminator and
/// without a trailing carriage return.
pub open spec fn spec_lines(s: Seq<char>, p: int) -> Seq<Seq<char>>
    decreases s.len() - p,
    when 0 <= p <= s.len()
    via spec_lines_dec
{
    if p >= s.len() {
        Seq::empty()
    } else {
        seq![strip_cr(line_at(s, p))] + spec_lines(s, next_pos(s, p))
    }
}

#[via_fn]
proof fn spec_lines_dec(s: Seq<char>, p: int) {
    if 0 <= p < s.len() {
        lemma_next_pos(s, p);
    }
}

/// Copies the line starting at `from`, dropping a trailing carriage return.
pub fn line_chars_stripped(text: &Vec<char>, from: usize) -> (r: Vec<char>)
    requires
        from <= text@.len(),
    ensures
        r@ == strip_cr(line_at(text@, from as int)),
{
    let mut l: Vec<char> = line_chars(text, from);
    if l.len() > 0 && l[l.len() - 1] == '\r' {
        let _last: Option<char> = l.pop();
    }
    l
}

/// Splits the whole text into lines, as `str::lines` does.
pub fn split_lines(v: &Vec<char>) -> (r: Vec<Vec<char>>)
    ensures
        r.deep_view() == spec_lines(v@, 0),
{
    let mut r: Vec<Vec<char>> = Vec::new();
    let mut p: usize = 0;
    while p < v.len()
        invariant
            0 <= p <= v@.len(),
            spec_lines(v@, 0) == r.deep_view() + spec_lines(v@, p as int),
        decreases v@.len() - p,
    {
        let l: Vec<char> = line_chars_stripped(v, p);
        let ghost r0 = r@;
        let ghost d0 = r.deep_view();
        let ghost lval = l;
        let ghost lv = l@;
        r.push(l);
        proof {
            assert(r@ == r0.push(lval));
            assert forall|k: int| 0 <= k < r.deep_view().len() implies r.deep_view()[k]
                == d0.push(lv)[k] by {
                if k < d0.len() {
                    assert(r@[k] == r0[k]);
                } else {
                    assert(r@[k] == lval);
                    assert(lval.deep_view() =~= lv);
                }
            }
            assert(r.deep_view() =~= d0.push(lv));
            assert(d0 + (seq![lv] + spec_lines(v@, next_pos(v@, p as int))) =~= d0.push(lv)
                + spec_lines(v@, next_pos(v@, p as int)));
        }
        p = advance_line(v, p);
    }
    proof {
        assert(r.deep_view() + spec_lines(v@, v@.len() as int) =~= r.deep_view());
    }
    r
}

/// Length of the longest sequence in the list, from index `i` on.
pub open spec fn max_len_from(ls: Seq<Seq<char>>, i: int) -> int
    decreases ls.len() - i,
    when 0 <= i <= ls.len()
{
    if i >= ls.len() {
        0
    } else {
        let rest = max_len_from(ls, i + 1);
        if ls[i].len() > rest {
            ls[i].len() as int
        } else {
            rest
        }
    }
}

/// The first `n` lines from position `p`, joined with a newline between
/// consecutive lines, as joining the lines with `"\n"` produces.
pub open spec fn take_lines(s: Seq<char>, n: int, p: int) -> Seq<char>
    decreases n,
    when 0 <= p <= s.len()
{
    if n <= 0 || p >= s.len() {
        Seq::empty()
    } else {
        let l = strip_cr(line_at(s, p));
        let q = next_pos(s, p);
        if n == 1 || q >= s.len() {
            l
        } else {
            l + seq!['\n'] + take_lines(s, n - 1, q)
        }
    }
}

/// The first `n` lines from position `p`, concatenated without separators.
pub open spec fn glue_lines(s: Seq<char>, n: int, p: int) -> Seq<char>
    decreases n,
    when 0 <= p <= s.len()
{
    if n <= 0 || p >= s.len() {
        Seq::empty()
    } else {
        strip_cr(line_at(s, p)) + glue_lines(s, n - 1, next_pos(s, p))
    }
}

pub fn take_lines_chars(text: &Vec<char>, n: usize, p: usize) -> (r: Vec<char>)
    requires
        p <= text@.len(),
    ensures
        r@ == take_lines(text@, n as int, p as int),
    decreases n,
{
    if n == 0 || p >= text.len() {
        return Vec::new();
    }
    let mut l: Vec<char> = line_chars_stripped(text, p);
    let q: usize = advance_line(text, p);
    if n == 1 || q >= text.len() {
        return l;
    }
    l.push('\n');
    let rest: Vec<char> = take_lines_chars(text, n - 1, q);
    extend_chars(&mut l, &rest);
    proof {
        assert(l@ =~= strip_cr(line_at(text@, p as int)) + seq!['\n'] + rest@);
    }
    l
}

pub fn glue_lines_chars(text: &Vec<char>, n: usize, p: usize) -> (r: Vec<char>)
    requires
        p <= text@.len(),
    ensures
        r@ == glue_lines(text@, n as int, p as int),
    decreases n,
{
    if n == 0 || p >= text.len() {
        return Vec::new();
    }
    let mut l: Vec<char> = line_chars_stripped(text, p);
    let q: usize = advance_line(text, p);
    let rest: Vec<char> = glue_lines_chars(text, n - 1, q);
    extend_chars(&mut l, &rest);
    l
}

} // verus!
