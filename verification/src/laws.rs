//! Engine-wide laws.
//!
//! Each public proof function here states one guarantee of the engine over
//! the functional scan and render model, so the guarantees are checked
//! rather than asserted in prose.

use vstd::prelude::*;

use crate::matcher::frame_line;
use crate::matcher::render_line;
use crate::matcher::render_lines_from;
use crate::matcher::spec_render;
use crate::scan::scan_begin;
use crate::scan::skip_blank_from;
use crate::scan::skip_to_match;
use crate::scan::skip_while_match;
use crate::scan::sp_detected;
use crate::scan::sp_end;
use crate::scan::sp_end_pos;
use crate::scan::sp_final;
use crate::scan::lemma_sp_final_bounds;
use crate::scan::sp_probe;
use crate::scan::keywords_ok;
use crate::style::HeaderDef;
use crate::text::contains_sub;
use crate::text::line_at;
use crate::text::line_end;
use crate::text::next_pos;
use crate::text::normalize_from;
use crate::text::lemma_next_pos;
use crate::text::seq_starts_with;
use crate::text::spec_blank;
use crate::text::spec_trim_end;
use crate::text::strip_cr;
use crate::text::take_lines;

verus! {

/// Where a line's terminator lies when the characters up to `k` are known:
/// with no newline in `[p, k)` and a newline at `k`, the line starting at
/// `p` ends exactly at `k`.
pub proof fn lemma_line_end_at(s: Seq<char>, p: int, k: int)
    requires
        0 <= p <= k < s.len(),
        forall|i: int| p <= i < k ==> s[i] != '\n',
        s[k] == '\n',
    ensures
        line_end(s, p) == k,
        next_pos(s, p) == k + 1,
    decreases k - p,
{
    if p < k {
        lemma_line_end_at(s, p + 1, k);
    }
}

/// Keyword gating: when any required keyword is missing from the probe,
/// no header is detected, however strongly the comment block resembles
/// one. Both sides are compared lowercased.
pub proof fn law_keyword_gating(s: Seq<char>, def: HeaderDef, kws: Seq<Seq<char>>, k: Seq<char>)
    requires
        kws.contains(k),
        !contains_sub(sp_probe(s, def), crate::text::lower_of(k)),
    ensures
        sp_end(s, def, kws) is None,
{
    let i = choose|i: int| 0 <= i < kws.len() && kws[i] == k;
    assert(!keywords_ok(sp_probe(s, def), kws));
}

/// Removal is idempotent: removing the span of a scanned header and
/// scanning the result again, a second removal changes nothing, because
/// the new scan detects no header and removal without a detected header is
/// the identity.
///
/// The second scan must be run, not assumed: a text can hold two headers
/// in a row, and there the new scan detects the second one.
pub proof fn law_removal_idempotent(s: Seq<char>, def: HeaderDef, kws: Seq<Seq<char>>)
    requires
        sp_end(s, def, kws) matches Some(e),
        sp_end(
            s.subrange(0, scan_begin(s, def)) + s.subrange(
                sp_end_pos(s, def),
                s.len() as int,
            ),
            def,
            kws,
        ) is None,
    ensures
        ({
            let once = s.subrange(0, scan_begin(s, def)) + s.subrange(
                sp_end_pos(s, def),
                s.len() as int,
            );
            spec_remove_step(once, def, kws) == once
        }),
{
}

/// One removal step: the detected span is deleted; with no detected
/// header the text is unchanged.
pub open spec fn spec_remove_step(s: Seq<char>, def: HeaderDef, kws: Seq<Seq<char>>) -> Seq<char> {
    match sp_end(s, def, kws) {
        Some(e) => s.subrange(0, scan_begin(s, def)) + s.subrange(e, s.len() as int),
        None => s,
    }
}

/// Skip-prologue preservation: in a text whose first line matches the
/// skip pattern and whose second line does not, the begin offset falls
/// directly after the first line, so an inserted header lands below the
/// prologue, never above it.
pub proof fn law_skip_prologue(s: Seq<char>, def: HeaderDef, first: Seq<char>)
    requires
        def.skip_line_pattern is Some,
        first.len() < s.len(),
        s.subrange(0, first.len() as int) == first,
        forall|i: int| 0 <= i < first.len() ==> first[i] != '\n',
        s[first.len() as int] == '\n',
        first.len() as int + 1 < s.len(),
        def.spec_is_skip(first),
        !def.spec_is_skip(line_at(s, first.len() as int + 1)),
    ensures
        scan_begin(s, def) == first.len() as int + 1,
{
    let k = first.len() as int;
    assert forall|i: int| 0 <= i < k implies s[i] != '\n' by {
        assert(first[i] == s.subrange(0, k)[i]);
    }
    lemma_line_end_at(s, 0, k);
    assert(line_at(s, 0) =~= first);
    assert(skip_to_match(s, def, 0) == 0);
    assert(skip_while_match(s, def, k + 1) == k + 1);
    assert(skip_while_match(s, def, 0) == k + 1);
}

/// Block-style boundary: when the detection phase stops at a blank line
/// below a header that sits at the top of the text, and the line after the
/// blank one is not blank (or the text ends), exactly that one blank line
/// is absorbed into the span.
pub proof fn law_blank_absorption(s: Seq<char>, def: HeaderDef, kws: Seq<Seq<char>>)
    requires
        sp_detected(s, def, kws),
        scan_begin(s, def) == 0,
        sp_final(s, def) < s.len(),
        spec_blank(line_at(s, sp_final(s, def))),
        next_pos(s, sp_final(s, def)) >= s.len() || !spec_blank(
            line_at(s, next_pos(s, sp_final(s, def))),
        ),
    ensures
        sp_end_pos(s, def) == next_pos(s, sp_final(s, def)),
{
    lemma_sp_final_bounds(s, def);
    let e0 = sp_final(s, def);
    lemma_next_pos(s, e0);
    assert(skip_blank_from(s, e0) == skip_blank_from(s, next_pos(s, e0)));
}

/// A normalized text holds no carriage return at all: every `"\r\n"` pair
/// collapsed and every bare `'\r'` replaced by `'\n'`. In particular the
/// round-trip laws' `no_cr` condition holds of every document text, which
/// is normalized this way when it is decoded.
pub proof fn lemma_normalize_no_cr(s: Seq<char>, i: int)
    requires
        0 <= i <= s.len(),
    ensures
        forall|k: int|
            0 <= k < normalize_from(s, i).len() ==> #[trigger] normalize_from(s, i)[k] != '\r',
        no_cr(normalize_from(s, i)),
    decreases s.len() - i,
{
    if i < s.len() {
        lemma_normalize_no_cr(s, i + 1);
        let rest = normalize_from(s, i + 1);
        if s[i] == '\r' && i + 1 < s.len() && s[i + 1] == '\n' {
        } else if s[i] == '\r' {
            assert forall|k: int|
                0 <= k < normalize_from(s, i).len() implies #[trigger] normalize_from(s, i)[k]
                != '\r' by {
                if k > 0 {
                    assert(normalize_from(s, i)[k] == rest[k - 1]);
                }
            }
        } else {
            assert forall|k: int|
                0 <= k < normalize_from(s, i).len() implies #[trigger] normalize_from(s, i)[k]
                != '\r' by {
                if k > 0 {
                    assert(normalize_from(s, i)[k] == rest[k - 1]);
                }
            }
        }
    }
}

/// The number of newlines in a sequence, which is the number of terminated
/// lines it holds.
pub open spec fn count_nl(x: Seq<char>) -> int
    decreases x.len(),
{
    if x.len() == 0 {
        0
    } else {
        (if x[0] == '\n' {
            1int
        } else {
            0int
        }) + count_nl(x.skip(1))
    }
}

/// A sequence free of newlines and carriage returns, as delimiters and
/// content lines of a sane style are.
pub open spec fn clean_text(x: Seq<char>) -> bool {
    forall|i: int| 0 <= i < x.len() ==> #[trigger] x[i] != '\n' && x[i] != '\r'
}

/// No carriage return stands directly before a newline.
pub open spec fn no_cr(x: Seq<char>) -> bool {
    forall|i: int| 0 <= i < x.len() - 1 ==> !(#[trigger] x[i] == '\r' && x[i + 1] == '\n')
}

/// A sane style: delimiters hold no line breaks, except that a framing
/// line may be exactly the line terminator.
pub open spec fn style_sane(def: HeaderDef) -> bool {
    &&& clean_text(def.first_line@) || def.first_line@ == seq!['\n']
    &&& clean_text(def.end_line@) || def.end_line@ == seq!['\n']
    &&& clean_text(def.before_each_line@)
    &&& clean_text(def.after_each_line@)
}

proof fn lemma_count_nl_concat(a: Seq<char>, b: Seq<char>)
    ensures
        count_nl(a + b) == count_nl(a) + count_nl(b),
    decreases a.len(),
{
    if a.len() == 0 {
        assert(a + b =~= b);
    } else {
        assert((a + b).skip(1) =~= a.skip(1) + b);
        lemma_count_nl_concat(a.skip(1), b);
    }
}

proof fn lemma_count_nl_free(x: Seq<char>)
    requires
        forall|i: int| 0 <= i < x.len() ==> #[trigger] x[i] != '\n',
    ensures
        count_nl(x) == 0,
    decreases x.len(),
{
    if x.len() > 0 {
        lemma_count_nl_free(x.skip(1));
    }
}

proof fn lemma_count_nl_single()
    ensures
        count_nl(seq!['\n']) == 1,
{
    assert(count_nl(Seq::<char>::empty()) == 0);
    assert(seq!['\n'].skip(1) =~= Seq::<char>::empty());
    assert(seq!['\n'][0] == '\n');
}

/// A nonempty sequence that ends with a newline holds at least one.
proof fn lemma_count_nl_pos(x: Seq<char>)
    requires
        x.len() >= 1,
        x[x.len() - 1] == '\n',
    ensures
        count_nl(x) >= 1,
    decreases x.len(),
{
    if x.len() > 1 {
        lemma_count_nl_pos(x.skip(1));
    } else {
        assert(count_nl(Seq::<char>::empty()) == 0);
        assert(x.skip(1) =~= Seq::<char>::empty());
        assert(x[0] == '\n');
    }
}

proof fn lemma_no_cr_concat(a: Seq<char>, b: Seq<char>)
    requires
        no_cr(a),
        no_cr(b),
        a.len() > 0 && b.len() > 0 ==> !(a[a.len() - 1] == '\r' && b[0] == '\n'),
    ensures
        no_cr(a + b),
{
    let c = a + b;
    assert forall|i: int| 0 <= i < c.len() - 1 implies !(#[trigger] c[i] == '\r' && c[i + 1]
        == '\n') by {
        if i < a.len() - 1 {
            assert(c[i] == a[i] && c[i + 1] == a[i + 1]);
        } else if i == a.len() - 1 {
            assert(c[i] == a[a.len() - 1] && c[i + 1] == b[0]);
        } else {
            assert(c[i] == b[i - a.len()] && c[i + 1] == b[i + 1 - a.len()]);
        }
    }
}

/// The characters of a line, up to its terminator, are not newlines.
pub proof fn lemma_line_range(s: Seq<char>, p: int)
    requires
        0 <= p <= s.len(),
    ensures
        forall|j: int| p <= j < line_end(s, p) ==> s[j] != '\n',
        line_end(s, p) < s.len() ==> s[line_end(s, p)] == '\n',
    decreases s.len() - p,
{
    crate::text::lemma_line_end_bounds(s, p);
    if p < s.len() && s[p] != '\n' {
        lemma_line_range(s, p + 1);
    }
}

proof fn lemma_starts_with_append(a: Seq<char>, b: Seq<char>, h: Seq<char>)
    requires
        seq_starts_with(b, h),
    ensures
        seq_starts_with(a + b, a + h),
{
    assert((a + b).subrange(0, (a + h).len() as int) =~= a + h) by {
        assert(b.subrange(0, h.len() as int) == h);
        assert forall|i: int| 0 <= i < (a + h).len() implies (a + b).subrange(
            0,
            (a + h).len() as int,
        )[i] == (a + h)[i] by {
            if i >= a.len() {
                assert(b.subrange(0, h.len() as int)[i - a.len()] == b[i - a.len()]);
            }
        }
    }
}

proof fn lemma_contains_at(t: Seq<char>, h: Seq<char>, i: int)
    requires
        0 <= i,
        i + h.len() <= t.len(),
        t.subrange(i, i + h.len()) == h,
    ensures
        contains_sub(t, h),
{
}

/// The joined first lines of a text start with any block of terminated
/// lines that sits at position `p` of the text and fits in the line
/// window; the appended blank-line sentinel covers the final terminator.
proof fn lemma_take_lines_prefix(x: Seq<char>, n: int, p: int, h: Seq<char>)
    requires
        0 <= p,
        p + h.len() <= x.len(),
        h == x.subrange(p, p + h.len()),
        h.len() >= 1,
        h[h.len() - 1] == '\n',
        no_cr(h),
        n >= count_nl(h),
    ensures
        seq_starts_with(take_lines(x, n, p) + seq!['\n', '\n'], h),
    decreases h.len(),
{
    let k = line_end(h, 0);
    lemma_line_range(h, 0);
    crate::text::lemma_line_end_bounds(h, 0);
    assert(k < h.len()) by {
        if k == h.len() {
            assert(h[h.len() - 1] != '\n');
        }
    }
    assert(h[k] == '\n');
    lemma_count_nl_pos(h);
    assert forall|i: int| p <= i < p + k implies x[i] != '\n' by {
        assert(h[i - p] == x[i]);
    }
    assert(x[p + k] == h[k]);
    lemma_line_end_at(x, p, p + k);
    let l1 = line_at(x, p);
    assert(l1 =~= h.subrange(0, k));
    assert(strip_cr(l1) == l1) by {
        if l1.len() > 0 && l1[l1.len() - 1] == '\r' {
            assert(h[k - 1] == '\r' && h[k] == '\n');
        }
    }
    let q = p + k + 1;
    let head = h.subrange(0, k + 1);
    assert(head =~= l1 + seq!['\n']);
    lemma_count_nl_free(l1);
    lemma_count_nl_single();
    lemma_count_nl_concat(l1, seq!['\n']);
    assert(count_nl(head) == 1);
    if h.len() == k + 1 {
        assert(h =~= head);
        if n == 1 || q >= x.len() {
            let t = strip_cr(l1) + seq!['\n', '\n'];
            assert(take_lines(x, n, p) == strip_cr(l1));
            assert(t.subrange(0, h.len() as int) =~= h);
        } else {
            let rest = take_lines(x, n - 1, q);
            let t = (l1 + seq!['\n'] + rest) + seq!['\n', '\n'];
            assert(take_lines(x, n, p) == l1 + seq!['\n'] + rest);
            assert(t.subrange(0, h.len() as int) =~= h);
        }
    } else {
        let h2 = h.subrange(k + 1, h.len() as int);
        assert(h =~= head + h2);
        lemma_count_nl_concat(head, h2);
        assert(h2 == x.subrange(q, q + h2.len())) by {
            assert forall|i: int| 0 <= i < h2.len() implies h2[i] == x.subrange(
                q,
                q + h2.len(),
            )[i] by {
                assert(h2[i] == h[k + 1 + i]);
                assert(h[k + 1 + i] == x[p + k + 1 + i]);
            }
            assert(h2 =~= x.subrange(q, q + h2.len()));
        }
        assert(h2[h2.len() - 1] == h[h.len() - 1]);
        assert(no_cr(h2)) by {
            assert forall|i: int| 0 <= i < h2.len() - 1 implies !(#[trigger] h2[i] == '\r' && h2[i
                + 1] == '\n') by {
                assert(h2[i] == h[k + 1 + i] && h2[i + 1] == h[k + 2 + i]);
            }
        }
        lemma_count_nl_pos(h2);
        lemma_take_lines_prefix(x, n - 1, q, h2);
        let rest = take_lines(x, n - 1, q);
        assert(q < x.len());
        assert(take_lines(x, n, p) == l1 + seq!['\n'] + rest);
        let b2 = rest + seq!['\n', '\n'];
        lemma_starts_with_append(l1 + seq!['\n'], b2, h2);
        assert((l1 + seq!['\n']) + b2 =~= take_lines(x, n, p) + seq!['\n', '\n']);
        assert((l1 + seq!['\n']) + h2 =~= h);
    }
}

/// Joining lines from the top of the text walks through any block of
/// terminated lines before `b` verbatim, spending one counted line per
/// terminator.
proof fn lemma_take_lines_walk(x: Seq<char>, n: int, p: int, b: int)
    requires
        0 <= p <= b < x.len(),
        p == b || x[b - 1] == '\n',
        no_cr(x.subrange(p, b)),
        n > count_nl(x.subrange(p, b)),
    ensures
        take_lines(x, n, p) == x.subrange(p, b) + take_lines(
            x,
            n - count_nl(x.subrange(p, b)),
            b,
        ),
    decreases b - p,
{
    let pre = x.subrange(p, b);
    if p == b {
        assert(pre =~= Seq::<char>::empty());
        assert(count_nl(pre) == 0);
        assert(pre + take_lines(x, n, b) =~= take_lines(x, n, b));
    } else {
        assert(pre[b - 1 - p] == '\n');
        lemma_count_nl_pos(pre);
        let k = line_end(x, p);
        lemma_line_range(x, p);
        crate::text::lemma_line_end_bounds(x, p);
        assert(k < b) by {
            if k >= b {
                assert(x[b - 1] != '\n');
            }
        }
        let l1 = line_at(x, p);
        assert(strip_cr(l1) == l1) by {
            if l1.len() > 0 && l1[l1.len() - 1] == '\r' {
                assert(pre[k - 1 - p] == '\r' && pre[k - p] == '\n');
            }
        }
        let q = k + 1;
        let head = x.subrange(p, q);
        assert(head =~= l1 + seq!['\n']);
        lemma_count_nl_free(l1);
        lemma_count_nl_single();
        lemma_count_nl_concat(l1, seq!['\n']);
        assert(pre =~= head + x.subrange(q, b));
        lemma_count_nl_concat(head, x.subrange(q, b));
        assert(no_cr(x.subrange(q, b))) by {
            assert forall|i: int| 0 <= i < b - q - 1 implies !(#[trigger] x.subrange(q, b)[i]
                == '\r' && x.subrange(q, b)[i + 1] == '\n') by {
                assert(x.subrange(q, b)[i] == pre[q - p + i]);
                assert(x.subrange(q, b)[i + 1] == pre[q - p + i + 1]);
            }
        }
        lemma_take_lines_walk(x, n - 1, q, b);
        let cnt2 = count_nl(x.subrange(q, b));
        assert(take_lines(x, n, p) == l1 + seq!['\n'] + take_lines(x, n - 1, q)) by {
            assert(p < x.len());
            assert(q < x.len());
        }
        assert(l1 + seq!['\n'] + (x.subrange(q, b) + take_lines(x, n - 1 - cnt2, b)) =~= pre
            + take_lines(x, n - 1 - cnt2, b));
        assert(l1 + seq!['\n'] + (x.subrange(q, b) + take_lines(x, n - 1 - cnt2, b)) =~= (l1
            + seq!['\n']) + x.subrange(q, b) + take_lines(x, n - 1 - cnt2, b));
    }
}

proof fn lemma_clean_subrange(x: Seq<char>, lo: int, hi: int)
    requires
        clean_text(x),
        0 <= lo <= hi <= x.len(),
    ensures
        clean_text(x.subrange(lo, hi)),
{
    assert forall|i: int| 0 <= i < hi - lo implies #[trigger] x.subrange(lo, hi)[i] != '\n'
        && x.subrange(lo, hi)[i] != '\r' by {
        assert(x.subrange(lo, hi)[i] == x[lo + i]);
    }
}

proof fn lemma_render_line_shape(
    l: Seq<char>,
    before: Seq<char>,
    after: Seq<char>,
    pad: bool,
    maxw: int,
)
    requires
        clean_text(l),
        clean_text(before),
        clean_text(after),
    ensures
        ({
            let rl = render_line(l, before, after, pad, maxw);
            &&& rl.len() >= 1
            &&& rl[rl.len() - 1] == '\n'
            &&& no_cr(rl)
            &&& count_nl(rl) == 1
        }),
{
    let padded = if pad && l.len() < maxw {
        l + Seq::new((maxw - l.len()) as nat, |i: int| ' ')
    } else {
        l
    };
    assert(clean_text(padded));
    let joined = before + padded + after;
    assert(clean_text(joined));
    let trimmed = spec_trim_end(joined);
    crate::text::lemma_rtrim_bounds(joined, joined.len() as int);
    lemma_clean_subrange(joined, 0, crate::text::rtrim_idx(joined, joined.len() as int));
    let rl = render_line(l, before, after, pad, maxw);
    assert(rl == trimmed + seq!['\n']);
    lemma_count_nl_free(trimmed);
    lemma_count_nl_single();
    lemma_count_nl_concat(trimmed, seq!['\n']);
    assert(rl[rl.len() - 1] == seq!['\n'][0]);
    assert forall|i: int| 0 <= i < rl.len() - 1 implies !(#[trigger] rl[i] == '\r' && rl[i + 1]
        == '\n') by {
        assert(rl[i] == trimmed[i]);
    }
}

proof fn lemma_render_lines_shape(
    ls: Seq<Seq<char>>,
    before: Seq<char>,
    after: Seq<char>,
    pad: bool,
    maxw: int,
    i: int,
)
    requires
        0 <= i <= ls.len(),
        clean_text(before),
        clean_text(after),
        forall|j: int| 0 <= j < ls.len() ==> clean_text(#[trigger] ls[j]),
    ensures
        ({
            let body = render_lines_from(ls, before, after, pad, maxw, i);
            &&& no_cr(body)
            &&& count_nl(body) == ls.len() - i
            &&& body.len() > 0 ==> body[body.len() - 1] == '\n'
        }),
    decreases ls.len() - i,
{
    if i < ls.len() {
        let rl = render_line(ls[i], before, after, pad, maxw);
        let rest = render_lines_from(ls, before, after, pad, maxw, i + 1);
        lemma_render_line_shape(ls[i], before, after, pad, maxw);
        lemma_render_lines_shape(ls, before, after, pad, maxw, i + 1);
        lemma_no_cr_concat(rl, rest);
        lemma_count_nl_concat(rl, rest);
        let body = rl + rest;
        assert(body.len() > 0);
        if rest.len() > 0 {
            assert(body[body.len() - 1] == rest[rest.len() - 1]);
        } else {
            assert(body[body.len() - 1] == rl[rl.len() - 1]);
        }
    } else {
        assert(count_nl(Seq::<char>::empty()) == 0);
    }
}

proof fn lemma_frame_shape(x: Seq<char>)
    requires
        clean_text(x) || x == seq!['\n'],
    ensures
        ({
            let fr = frame_line(x);
            &&& no_cr(fr)
            &&& 0 <= count_nl(fr) <= 1
            &&& fr.len() > 0 ==> fr[fr.len() - 1] == '\n'
        }),
{
    let fr = frame_line(x);
    if x.len() == 0 {
        assert(count_nl(Seq::<char>::empty()) == 0);
    } else if x == seq!['\n'] {
        lemma_count_nl_single();
        assert(fr[fr.len() - 1] == seq!['\n'][0]);
    } else {
        assert(clean_text(x));
        lemma_count_nl_free(x);
        lemma_count_nl_single();
        lemma_count_nl_concat(x, seq!['\n']);
        assert(fr == x + seq!['\n']);
        assert(fr[fr.len() - 1] == seq!['\n'][0]);
        assert forall|i: int| 0 <= i < fr.len() - 1 implies !(#[trigger] fr[i] == '\r' && fr[i + 1]
            == '\n') by {
            assert(fr[i] == x[i]);
        }
    }
}

/// Shape of a rendered header followed by its separating blank line: it is
/// nonempty, ends with a newline, holds no carriage return before a
/// newline, and its line count stays within the matching window's slack.
proof fn lemma_render_shape(def: HeaderDef, ls: Seq<Seq<char>>, maxw: int)
    requires
        style_sane(def),
        forall|j: int| 0 <= j < ls.len() ==> clean_text(#[trigger] ls[j]),
    ensures
        ({
            let hdr = spec_render(def, ls, maxw) + seq!['\n'];
            &&& hdr.len() >= 1
            &&& hdr[hdr.len() - 1] == '\n'
            &&& no_cr(hdr)
            &&& count_nl(hdr) <= ls.len() + 3
        }),
{
    let f1 = frame_line(def.first_line@);
    let body = render_lines_from(
        ls,
        def.before_each_line@,
        def.after_each_line@,
        def.pad_lines,
        maxw,
        0,
    );
    let f2 = frame_line(def.end_line@);
    lemma_frame_shape(def.first_line@);
    lemma_frame_shape(def.end_line@);
    lemma_render_lines_shape(
        ls,
        def.before_each_line@,
        def.after_each_line@,
        def.pad_lines,
        maxw,
        0,
    );
    lemma_no_cr_concat(f1, body);
    lemma_count_nl_concat(f1, body);
    let fb = f1 + body;
    assert(fb.len() > 0 ==> fb[fb.len() - 1] == '\n') by {
        if body.len() > 0 {
            assert(fb[fb.len() - 1] == body[body.len() - 1]);
        } else if f1.len() > 0 {
            assert(fb[fb.len() - 1] == f1[f1.len() - 1]);
        }
    }
    lemma_no_cr_concat(fb, f2);
    lemma_count_nl_concat(fb, f2);
    let render = fb + f2;
    assert(render == spec_render(def, ls, maxw));
    assert(render.len() > 0 ==> render[render.len() - 1] == '\n') by {
        if f2.len() > 0 {
            assert(render[render.len() - 1] == f2[f2.len() - 1]);
        } else if fb.len() > 0 {
            assert(render[render.len() - 1] == fb[fb.len() - 1]);
        }
    }
    lemma_no_cr_concat(render, seq!['\n']);
    lemma_count_nl_single();
    lemma_count_nl_concat(render, seq!['\n']);
    let hdr = render + seq!['\n'];
    assert(hdr[hdr.len() - 1] == seq!['\n'][0]);
}

/// A line start or the very end of the text.
pub open spec fn line_start_or_eof(s: Seq<char>, p: int) -> bool {
    p == 0 || p == s.len() || s[p - 1] == '\n'
}

proof fn lemma_skip_to_match_line_start(s: Seq<char>, def: HeaderDef, t: int)
    requires
        0 <= t <= s.len(),
        line_start_or_eof(s, t),
    ensures
        line_start_or_eof(s, skip_to_match(s, def, t)),
    decreases s.len() - t,
{
    if t < s.len() && !def.spec_is_skip(line_at(s, t)) {
        lemma_line_range(s, t);
        lemma_next_pos(s, t);
        lemma_skip_to_match_line_start(s, def, next_pos(s, t));
    }
}

proof fn lemma_skip_while_match_line_start(s: Seq<char>, def: HeaderDef, t: int)
    requires
        0 <= t <= s.len(),
        line_start_or_eof(s, t),
    ensures
        line_start_or_eof(s, skip_while_match(s, def, t)),
    decreases s.len() - t,
{
    if t < s.len() && def.spec_is_skip(line_at(s, t)) {
        lemma_line_range(s, t);
        lemma_next_pos(s, t);
        lemma_skip_while_match_line_start(s, def, next_pos(s, t));
    }
}

/// The begin offset always falls on a line start: the top of the text or
/// directly after a terminator.
pub proof fn lemma_scan_begin_line_start(s: Seq<char>, def: HeaderDef)
    ensures
        scan_begin(s, def) == 0 || (0 < scan_begin(s, def) && s[scan_begin(s, def) - 1] == '\n'),
{
    if !(def.skip_line_pattern is None) {
        crate::scan::lemma_skip_to_match_bounds(s, def, 0);
        lemma_skip_to_match_line_start(s, def, 0);
        let m = skip_to_match(s, def, 0);
        crate::scan::lemma_skip_while_match_bounds(s, def, m);
        lemma_skip_while_match_line_start(s, def, m);
        crate::scan::lemma_scan_begin_bounds(s, def);
    }
}

/// Replace round-trip: removing a detected header span and inserting the
/// freshly rendered header at the begin offset yields a text whose first
/// lines match strictly, and whose length differs from the original
/// exactly by the length of the removed span against the inserted header.
///
/// The skipped prologue must fit in the matching window's slack of ten
/// lines, and style delimiters and license lines must not themselves hold
/// line breaks.
pub proof fn law_replace_round_trip(
    s: Seq<char>,
    def: HeaderDef,
    kws: Seq<Seq<char>>,
    ls: Seq<Seq<char>>,
    maxw: int,
)
    requires
        no_cr(s),
        style_sane(def),
        forall|j: int| 0 <= j < ls.len() ==> clean_text(#[trigger] ls[j]),
        sp_end(s, def, kws) is Some,
        count_nl(s.subrange(0, scan_begin(s, def))) <= 7,
    ensures
        ({
            let b = scan_begin(s, def);
            let e = sp_end_pos(s, def);
            let hdr = spec_render(def, ls, maxw) + seq!['\n'];
            let replaced = s.subrange(0, b) + hdr + s.subrange(e, s.len() as int);
            &&& crate::document::spec_matched_strict(replaced, def, ls, maxw)
            &&& replaced.len() == s.len() - (e - b) + hdr.len()
        }),
{
    crate::scan::lemma_span_bounds(s, def, kws);
    let b = scan_begin(s, def);
    let e = sp_end_pos(s, def);
    let hdr = spec_render(def, ls, maxw) + seq!['\n'];
    lemma_render_shape(def, ls, maxw);
    let pre = s.subrange(0, b);
    let replaced = pre + hdr + s.subrange(e, s.len() as int);
    let n = ls.len() as int + 10;
    assert(hdr == replaced.subrange(b, b + hdr.len())) by {
        assert forall|i: int| 0 <= i < hdr.len() implies hdr[i] == replaced.subrange(
            b,
            b + hdr.len(),
        )[i] by {
            assert(replaced[b + i] == (pre + hdr)[b + i]);
        }
        assert(hdr =~= replaced.subrange(b, b + hdr.len()));
    }
    lemma_count_nl_pos(hdr);
    let t0 = take_lines(replaced, n, 0) + seq!['\n', '\n'];
    if b == 0 {
        assert(pre =~= Seq::<char>::empty());
        lemma_take_lines_prefix(replaced, n, 0, hdr);
        assert(t0.subrange(0, hdr.len() as int) == hdr);
        lemma_contains_at(t0, hdr, 0);
    } else {
        lemma_scan_begin_line_start(s, def);
        assert(replaced[b - 1] == (pre + hdr)[b - 1]);
        assert(replaced[b - 1] == s[b - 1]);
        assert(no_cr(replaced.subrange(0, b))) by {
            assert forall|i: int| 0 <= i < b - 1 implies !(#[trigger] replaced.subrange(0, b)[i]
                == '\r' && replaced.subrange(0, b)[i + 1] == '\n') by {
                assert(replaced.subrange(0, b)[i] == (pre + hdr)[i]);
                assert(replaced.subrange(0, b)[i + 1] == (pre + hdr)[i + 1]);
                assert(pre[i] == s[i] && pre[i + 1] == s[i + 1]);
            }
        }
        assert(replaced.subrange(0, b) =~= pre);
        assert(count_nl(replaced.subrange(0, b)) <= 7);
        assert(b < replaced.len());
        lemma_take_lines_walk(replaced, n, 0, b);
        let cnt = count_nl(pre);
        lemma_take_lines_prefix(replaced, n - cnt, b, hdr);
        let inner = take_lines(replaced, n - cnt, b) + seq!['\n', '\n'];
        assert(t0 =~= pre + inner);
        assert(t0.subrange(b, b + hdr.len()) == hdr) by {
            assert(inner.subrange(0, hdr.len() as int) == hdr);
            assert forall|i: int| 0 <= i < hdr.len() implies t0.subrange(b, b + hdr.len())[i]
                == hdr[i] by {
                assert(t0[b + i] == inner[i]);
                assert(inner.subrange(0, hdr.len() as int)[i] == inner[i]);
            }
            assert(t0.subrange(b, b + hdr.len()) =~= hdr);
        }
        lemma_contains_at(t0, hdr, b);
    }
}

/// Idempotent formatting: when the detected span already holds exactly the
/// rendered header, removing it and inserting the rendered header again
/// reproduces the text character for character, and that text matches
/// strictly; nothing is duplicated.
pub proof fn law_format_idempotent(
    s: Seq<char>,
    def: HeaderDef,
    kws: Seq<Seq<char>>,
    ls: Seq<Seq<char>>,
    maxw: int,
)
    requires
        no_cr(s),
        style_sane(def),
        forall|j: int| 0 <= j < ls.len() ==> clean_text(#[trigger] ls[j]),
        sp_end(s, def, kws) is Some,
        count_nl(s.subrange(0, scan_begin(s, def))) <= 7,
        s.subrange(scan_begin(s, def), sp_end_pos(s, def)) == spec_render(def, ls, maxw)
            + seq!['\n'],
    ensures
        ({
            let b = scan_begin(s, def);
            let e = sp_end_pos(s, def);
            let hdr = spec_render(def, ls, maxw) + seq!['\n'];
            &&& s.subrange(0, b) + hdr + s.subrange(e, s.len() as int) == s
            &&& crate::document::spec_matched_strict(s, def, ls, maxw)
        }),
{
    crate::scan::lemma_span_bounds(s, def, kws);
    law_replace_round_trip(s, def, kws, ls, maxw);
    let b = scan_begin(s, def);
    let e = sp_end_pos(s, def);
    let hdr = spec_render(def, ls, maxw) + seq!['\n'];
    assert(s.subrange(0, b) + hdr + s.subrange(e, s.len() as int) =~= s);
}

} // verus!
