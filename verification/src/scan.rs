//! Functional model of the header scan.
//!
//! The scan works in three phases over the text. Phase one locates the
//! offset where a header may begin: with no skip pattern it is the start of
//! the text; otherwise lines are consumed up to and through a run of
//! prologue lines, and the offset falls back to the start when the whole
//! text was consumed. Phase two decides whether an existing header is
//! present: after blank lines, a line must satisfy the first-line pattern,
//! and the following lines are accumulated, lowercased, into a probe that
//! must contain every required keyword. Phase three turns the cursor
//! position left by phase two into the exact end offset of the header span,
//! absorbing trailing blank lines when the header sits at the very top of
//! the text.
//!
//! Every function here is a pure function of the text, the style
//! definition and the keywords; the executable scanner in `parser` is
//! proved to return exactly these values.

use vstd::prelude::*;

use crate::style::HeaderDef;
use crate::text::advance_line;
use crate::text::chars_contain;
use crate::text::chars_string;
use crate::text::contains_sub;
use crate::text::copy_range;
use crate::text::line_at;
use crate::text::line_chars;
use crate::text::line_is_blank;
use crate::text::line_starts_with;
use crate::text::lower_line;
use crate::text::lower_of;
use crate::text::next_pos;
use crate::text::lemma_next_pos;
use crate::text::seq_starts_with;
use crate::text::spec_blank;
use crate::text::spec_trim_end;
use crate::text::str_chars;
use crate::text::to_lower;
use crate::text::trim_end_chars;

verus! {

/// Start of the first line at or after `t` that matches the skip pattern,
/// or the end of the text.
pub open spec fn skip_to_match(s: Seq<char>, def: HeaderDef, t: int) -> int
    decreases s.len() - t,
    when 0 <= t <= s.len()
    via skip_to_match_dec
{
    if t >= s.len() {
        t
    } else if !def.spec_is_skip(line_at(s, t)) {
        skip_to_match(s, def, next_pos(s, t))
    } else {
        t
    }
}

#[via_fn]
proof fn skip_to_match_dec(s: Seq<char>, def: HeaderDef, t: int) {
    if 0 <= t < s.len() {
        lemma_next_pos(s, t);
    }
}

/// Start of the first line at or after `t` that does not match the skip
/// pattern, or the end of the text.
pub open spec fn skip_while_match(s: Seq<char>, def: HeaderDef, t: int) -> int
    decreases s.len() - t,
    when 0 <= t <= s.len()
    via skip_while_match_dec
{
    if t >= s.len() {
        t
    } else if def.spec_is_skip(line_at(s, t)) {
        skip_while_match(s, def, next_pos(s, t))
    } else {
        t
    }
}

#[via_fn]
proof fn skip_while_match_dec(s: Seq<char>, def: HeaderDef, t: int) {
    if 0 <= t < s.len() {
        lemma_next_pos(s, t);
    }
}

/// Start of the first non-blank line at or after `t`, or the end of the
/// text.
pub open spec fn skip_blank_from(s: Seq<char>, t: int) -> int
    decreases s.len() - t,
    when 0 <= t <= s.len()
    via skip_blank_from_dec
{
    if t >= s.len() {
        t
    } else if spec_blank(line_at(s, t)) {
        skip_blank_from(s, next_pos(s, t))
    } else {
        t
    }
}

#[via_fn]
proof fn skip_blank_from_dec(s: Seq<char>, t: int) {
    if 0 <= t < s.len() {
        lemma_next_pos(s, t);
    }
}

pub proof fn lemma_skip_to_match_bounds(s: Seq<char>, def: HeaderDef, t: int)
    requires
        0 <= t <= s.len(),
    ensures
        t <= skip_to_match(s, def, t) <= s.len(),
    decreases s.len() - t,
{
    if t < s.len() && !def.spec_is_skip(line_at(s, t)) {
        lemma_next_pos(s, t);
        lemma_skip_to_match_bounds(s, def, next_pos(s, t));
    }
}

pub proof fn lemma_skip_while_match_bounds(s: Seq<char>, def: HeaderDef, t: int)
    requires
        0 <= t <= s.len(),
    ensures
        t <= skip_while_match(s, def, t) <= s.len(),
    decreases s.len() - t,
{
    if t < s.len() && def.spec_is_skip(line_at(s, t)) {
        lemma_next_pos(s, t);
        lemma_skip_while_match_bounds(s, def, next_pos(s, t));
    }
}

pub proof fn lemma_skip_blank_bounds(s: Seq<char>, t: int)
    requires
        0 <= t <= s.len(),
    ensures
        t <= skip_blank_from(s, t) <= s.len(),
    decreases s.len() - t,
{
    if t < s.len() && spec_blank(line_at(s, t)) {
        lemma_next_pos(s, t);
        lemma_skip_blank_bounds(s, next_pos(s, t));
    }
}

/// The offset where a header may begin: after any skippable prologue, or
/// zero when there is no skip pattern or the whole text was consumed
/// looking for one.
pub open spec fn scan_begin(s: Seq<char>, def: HeaderDef) -> int {
    if def.skip_line_pattern is None {
        0
    } else {
        let b = skip_while_match(s, def, skip_to_match(s, def, 0));
        if b >= s.len() {
            0
        } else {
            b
        }
    }
}

pub proof fn lemma_scan_begin_bounds(s: Seq<char>, def: HeaderDef)
    ensures
        0 <= scan_begin(s, def) <= s.len(),
{
    if !(def.skip_line_pattern is None) {
        lemma_skip_to_match_bounds(s, def, 0);
        lemma_skip_while_match_bounds(s, def, skip_to_match(s, def, 0));
    }
}

/// The line prefix required of header body lines: the per-line marker with
/// trailing whitespace removed, except that a marker which is all
/// whitespace is kept as is for single-line styles, so that bare lines do
/// not match by accident.
pub open spec fn before_marker(def: HeaderDef) -> Seq<char> {
    let t = spec_trim_end(def.before_each_line@);
    if t.len() == 0 && !def.multiple_lines {
        def.before_each_line@
    } else {
        t
    }
}

/// How the body scan stopped: at a closing delimiter line, at a line
/// without the required prefix, or at the end of the text.
pub enum BodyOutcome {
    LastLine,
    NoPrefix,
    FileEnd,
}

/// Scans header body lines from `u` on: lines carrying the required prefix
/// are accumulated, lowercased; for multi-line styles a line matching the
/// last-line pattern closes the body. Returns the offset of the line the
/// scan stopped at (or the end of the text), the way it stopped, and the
/// accumulated probe text.
pub open spec fn body_scan(s: Seq<char>, def: HeaderDef, before: Seq<char>, u: int) -> (
    int,
    BodyOutcome,
    Seq<char>,
)
    decreases s.len() - u,
    when 0 <= u <= s.len()
    via body_scan_dec
{
    if u >= s.len() {
        (s.len() as int, BodyOutcome::FileEnd, Seq::empty())
    } else {
        let l = line_at(s, u);
        if !seq_starts_with(l, before) {
            (u, BodyOutcome::NoPrefix, Seq::empty())
        } else if def.multiple_lines && def.spec_is_last(l) {
            (u, BodyOutcome::LastLine, lower_of(l))
        } else {
            let r = body_scan(s, def, before, next_pos(s, u));
            (r.0, r.1, lower_of(l) + r.2)
        }
    }
}

#[via_fn]
proof fn body_scan_dec(s: Seq<char>, def: HeaderDef, before: Seq<char>, u: int) {
    if 0 <= u < s.len() {
        lemma_next_pos(s, u);
    }
}

pub proof fn lemma_body_scan_bounds(s: Seq<char>, def: HeaderDef, before: Seq<char>, u: int)
    requires
        0 <= u <= s.len(),
    ensures
        u <= body_scan(s, def, before, u).0 <= s.len(),
    decreases s.len() - u,
{
    if u < s.len() {
        let l = line_at(s, u);
        if seq_starts_with(l, before) && !(def.multiple_lines && def.spec_is_last(l)) {
            lemma_next_pos(s, u);
            lemma_body_scan_bounds(s, def, before, next_pos(s, u));
        }
    }
}

/// After the body, one further line matching the last-line pattern is
/// absorbed into the span; any other line is left where it is.
pub open spec fn last_line_hop(s: Seq<char>, def: HeaderDef, p: int) -> int {
    if p < s.len() && def.spec_is_last(line_at(s, p)) {
        next_pos(s, p)
    } else {
        p
    }
}

pub proof fn lemma_last_line_hop_bounds(s: Seq<char>, def: HeaderDef, p: int)
    requires
        0 <= p <= s.len(),
    ensures
        p <= last_line_hop(s, def, p) <= s.len(),
{
    if p < s.len() {
        lemma_next_pos(s, p);
    }
}

/// For an unterminated multi-line body that tolerates blank lines: blank
/// lines from `p` on are read past; at the first non-blank line the scan
/// settles there (absorbing it when it matches the last-line pattern), and
/// when only blank lines remain it settles at the start of the last one
/// read, `prev`.
pub open spec fn blank_run(s: Seq<char>, def: HeaderDef, p: int, prev: int) -> int
    decreases s.len() - p,
    when 0 <= p <= s.len()
    via blank_run_dec
{
    if p >= s.len() {
        prev
    } else if spec_blank(line_at(s, p)) {
        blank_run(s, def, next_pos(s, p), p)
    } else {
        last_line_hop(s, def, p)
    }
}

#[via_fn]
proof fn blank_run_dec(s: Seq<char>, def: HeaderDef, p: int, prev: int) {
    if 0 <= p < s.len() {
        lemma_next_pos(s, p);
    }
}

pub proof fn lemma_blank_run_bounds(s: Seq<char>, def: HeaderDef, p: int, prev: int)
    requires
        0 <= prev <= p <= s.len(),
    ensures
        prev <= blank_run(s, def, p, prev) <= s.len(),
    decreases s.len() - p,
{
    if p < s.len() {
        if spec_blank(line_at(s, p)) {
            lemma_next_pos(s, p);
            lemma_blank_run_bounds(s, def, next_pos(s, p), p);
        } else {
            lemma_last_line_hop_bounds(s, def, p);
        }
    }
}

/// Start of the first non-blank line at or after the begin offset: the
/// candidate first header line.
pub open spec fn sp_first_line(s: Seq<char>, def: HeaderDef) -> int {
    skip_blank_from(s, scan_begin(s, def))
}

/// Whether a candidate first header line exists and satisfies the
/// first-line pattern.
pub open spec fn sp_has_first(s: Seq<char>, def: HeaderDef) -> bool {
    sp_first_line(s, def) < s.len() && def.spec_is_first(line_at(s, sp_first_line(s, def)))
}

/// Start of the line following the first header line, past any blank lines
/// when the style allows them inside the header.
pub open spec fn sp_body_start(s: Seq<char>, def: HeaderDef) -> int {
    let g0 = next_pos(s, sp_first_line(s, def));
    if def.allow_blank_lines {
        skip_blank_from(s, g0)
    } else {
        g0
    }
}

/// Whether the header candidate has both its first line and a line after
/// it; without a second line no header is recognised.
pub open spec fn sp_has_body(s: Seq<char>, def: HeaderDef) -> bool {
    sp_has_first(s, def) && sp_body_start(s, def) < s.len()
}

/// Whether the second header line already closes the header: a closing
/// delimiter line of a multi-line style, or a blank line.
pub open spec fn early_end(def: HeaderDef, l2: Seq<char>) -> bool {
    (def.multiple_lines && def.spec_is_last(l2)) || spec_blank(l2)
}

/// The probe: the lowercased accumulation of the candidate header lines,
/// in which every required keyword must occur.
pub open spec fn sp_probe(s: Seq<char>, def: HeaderDef) -> Seq<char> {
    let f = sp_first_line(s, def);
    let h = sp_body_start(s, def);
    let l2 = line_at(s, h);
    let base = lower_of(line_at(s, f)) + lower_of(l2);
    if early_end(def, l2) {
        base
    } else {
        base + body_scan(s, def, before_marker(def), next_pos(s, h)).2
    }
}

/// The cursor position after the header-detection phase: the offset from
/// which the end of the span is measured.
pub open spec fn sp_final(s: Seq<char>, def: HeaderDef) -> int {
    let h = sp_body_start(s, def);
    let l2 = line_at(s, h);
    if early_end(def, l2) {
        if def.multiple_lines {
            last_line_hop(s, def, next_pos(s, h))
        } else {
            next_pos(s, h)
        }
    } else {
        let bs = body_scan(s, def, before_marker(def), next_pos(s, h));
        match bs.1 {
            BodyOutcome::FileEnd => s.len() as int,
            BodyOutcome::LastLine => last_line_hop(s, def, next_pos(s, bs.0)),
            BodyOutcome::NoPrefix => {
                if def.multiple_lines {
                    if spec_blank(line_at(s, bs.0)) {
                        last_line_hop(s, def, next_pos(s, bs.0))
                    } else if def.allow_blank_lines {
                        blank_run(s, def, next_pos(s, bs.0), bs.0)
                    } else {
                        last_line_hop(s, def, next_pos(s, bs.0))
                    }
                } else {
                    if spec_blank(line_at(s, bs.0)) {
                        next_pos(s, bs.0)
                    } else {
                        bs.0
                    }
                }
            },
        }
    }
}

/// Whether every required keyword occurs in the probe; keywords are
/// compared case-insensitively, so each is lowercased like the probe
/// itself.
pub open spec fn keywords_ok(probe: Seq<char>, kws: Seq<Seq<char>>) -> bool {
    forall|i: int| 0 <= i < kws.len() ==> contains_sub(probe, lower_of(#[trigger] kws[i]))
}

/// Whether an existing header is detected: a first line matching the
/// first-line pattern, a line after it, and every keyword in the probe.
pub open spec fn sp_detected(s: Seq<char>, def: HeaderDef, kws: Seq<Seq<char>>) -> bool {
    sp_has_body(s, def) && keywords_ok(sp_probe(s, def), kws)
}

/// Whether the sequence ends with a newline.
pub open spec fn ends_with_nl(x: Seq<char>) -> bool {
    x.len() > 0 && x[x.len() - 1] == '\n'
}

/// The end offset of a detected header: the cursor after detection, plus
/// all trailing blank lines when the header sits at the top of the text,
/// plus one blank line when the style's closing delimiter is itself a
/// newline.
pub open spec fn sp_end_pos(s: Seq<char>, def: HeaderDef) -> int {
    let e0 = sp_final(s, def);
    if scan_begin(s, def) == 0 {
        skip_blank_from(s, e0)
    } else if ends_with_nl(def.end_line@) && e0 < s.len() && spec_blank(line_at(s, e0)) {
        next_pos(s, e0)
    } else {
        e0
    }
}

/// The detected header span end: `Some` exactly when a header is
/// detected.
pub open spec fn sp_end(s: Seq<char>, def: HeaderDef, kws: Seq<Seq<char>>) -> Option<int> {
    if sp_detected(s, def, kws) {
        Some(sp_end_pos(s, def))
    } else {
        None
    }
}

pub proof fn lemma_sp_final_bounds(s: Seq<char>, def: HeaderDef)
    requires
        sp_has_body(s, def),
    ensures
        0 <= sp_body_start(s, def) < sp_final(s, def) <= s.len(),
{
    lemma_scan_begin_bounds(s, def);
    lemma_skip_blank_bounds(s, scan_begin(s, def));
    let f = sp_first_line(s, def);
    lemma_next_pos(s, f);
    lemma_skip_blank_bounds(s, next_pos(s, f));
    let h = sp_body_start(s, def);
    let l2 = line_at(s, h);
    lemma_next_pos(s, h);
    let q = next_pos(s, h);
    if early_end(def, l2) {
        lemma_last_line_hop_bounds(s, def, q);
    } else {
        let bs = body_scan(s, def, before_marker(def), q);
        lemma_body_scan_bounds(s, def, before_marker(def), q);
        match bs.1 {
            BodyOutcome::FileEnd => {},
            BodyOutcome::LastLine => {
                lemma_next_pos(s, bs.0);
                lemma_last_line_hop_bounds(s, def, next_pos(s, bs.0));
            },
            BodyOutcome::NoPrefix => {
                if bs.0 < s.len() {
                    lemma_next_pos(s, bs.0);
                    lemma_last_line_hop_bounds(s, def, next_pos(s, bs.0));
                    lemma_blank_run_bounds(s, def, next_pos(s, bs.0), bs.0);
                } else {
                    lemma_last_line_hop_bounds(s, def, bs.0);
                }
            },
        }
    }
}

/// A body scan that stopped at a line really stopped inside the text.
pub proof fn lemma_body_scan_stop_line(s: Seq<char>, def: HeaderDef, before: Seq<char>, u: int)
    requires
        0 <= u <= s.len(),
        !(body_scan(s, def, before, u).1 is FileEnd),
    ensures
        body_scan(s, def, before, u).0 < s.len(),
    decreases s.len() - u,
{
    if u < s.len() {
        let l = line_at(s, u);
        if seq_starts_with(l, before) && !(def.multiple_lines && def.spec_is_last(l)) {
            lemma_next_pos(s, u);
            lemma_body_scan_stop_line(s, def, before, next_pos(s, u));
        }
    }
}

/// A detected header span lies between the begin offset and the end of the
/// text.
pub proof fn lemma_span_bounds(s: Seq<char>, def: HeaderDef, kws: Seq<Seq<char>>)
    requires
        sp_detected(s, def, kws),
    ensures
        0 <= scan_begin(s, def) <= sp_end_pos(s, def) <= s.len(),
{
    lemma_scan_begin_bounds(s, def);
    let b = scan_begin(s, def);
    lemma_skip_blank_bounds(s, b);
    let f = sp_first_line(s, def);
    lemma_next_pos(s, f);
    lemma_skip_blank_bounds(s, next_pos(s, f));
    lemma_sp_final_bounds(s, def);
    let e0 = sp_final(s, def);
    if b == 0 {
        lemma_skip_blank_bounds(s, e0);
    } else if ends_with_nl(def.end_line@) && e0 < s.len() && spec_blank(line_at(s, e0)) {
        lemma_next_pos(s, e0);
    }
}

fn skip_at(text: &Vec<char>, def: &HeaderDef, t: usize) -> (r: bool)
    requires
        t <= text@.len(),
    ensures
        r == def.spec_is_skip(line_at(text@, t as int)),
{
    let l: Vec<char> = line_chars(text, t);
    let s: String = chars_string(&l);
    def.is_skip_line(s.as_str())
}

fn first_at(text: &Vec<char>, def: &HeaderDef, t: usize) -> (r: bool)
    requires
        t <= text@.len(),
    ensures
        r == def.spec_is_first(line_at(text@, t as int)),
{
    let l: Vec<char> = line_chars(text, t);
    let s: String = chars_string(&l);
    def.is_first_header_line(s.as_str())
}

fn last_at(text: &Vec<char>, def: &HeaderDef, t: usize) -> (r: bool)
    requires
        t <= text@.len(),
    ensures
        r == def.spec_is_last(line_at(text@, t as int)),
{
    let l: Vec<char> = line_chars(text, t);
    let s: String = chars_string(&l);
    def.is_last_header_line(s.as_str())
}

/// Computes the begin offset of phase one.
pub fn scan_begin_exec(text: &Vec<char>, def: &HeaderDef) -> (b: usize)
    ensures
        b as int == scan_begin(text@, *def),
        b <= text@.len(),
{
    if def.skip_line_pattern.is_none() {
        return 0;
    }
    let mut t: usize = 0;
    loop
        invariant_except_break
            0 <= t <= text@.len(),
            !(def.skip_line_pattern is None),
            skip_to_match(text@, *def, 0) == skip_to_match(text@, *def, t as int),
        ensures
            0 <= t <= text@.len(),
            t as int == skip_to_match(text@, *def, 0),
        decreases text@.len() - t,
    {
        if t >= text.len() {
            break ;
        }
        if skip_at(text, def, t) {
            break ;
        }
        t = advance_line(text, t);
    }
    let ghost m = t as int;
    loop
        invariant_except_break
            0 <= t <= text@.len(),
            !(def.skip_line_pattern is None),
            m == skip_to_match(text@, *def, 0),
            skip_while_match(text@, *def, m) == skip_while_match(text@, *def, t as int),
        ensures
            0 <= t <= text@.len(),
            m == skip_to_match(text@, *def, 0),
            t as int == skip_while_match(text@, *def, m),
        decreases text@.len() - t,
    {
        if t >= text.len() {
            break ;
        }
        if !skip_at(text, def, t) {
            break ;
        }
        t = advance_line(text, t);
    }
    if t >= text.len() {
        0
    } else {
        t
    }
}

/// Advances to the first non-blank line at or after `from`.
pub fn find_nonblank(text: &Vec<char>, from: usize) -> (r: usize)
    requires
        from <= text@.len(),
    ensures
        r as int == skip_blank_from(text@, from as int),
        from <= r <= text@.len(),
{
    let mut t: usize = from;
    loop
        invariant_except_break
            from <= t <= text@.len(),
            skip_blank_from(text@, from as int) == skip_blank_from(text@, t as int),
        ensures
            from <= t <= text@.len(),
            t as int == skip_blank_from(text@, from as int),
        decreases text@.len() - t,
    {
        if t >= text.len() {
            break ;
        }
        if !line_is_blank(text, t) {
            break ;
        }
        t = advance_line(text, t);
    }
    t
}

fn hop_exec(text: &Vec<char>, def: &HeaderDef, p: usize) -> (r: usize)
    requires
        p <= text@.len(),
    ensures
        r as int == last_line_hop(text@, *def, p as int),
        p <= r <= text@.len(),
{
    if p < text.len() && last_at(text, def, p) {
        advance_line(text, p)
    } else {
        p
    }
}

fn blank_run_exec(text: &Vec<char>, def: &HeaderDef, stop: usize) -> (r: usize)
    requires
        stop < text@.len(),
    ensures
        r as int == blank_run(text@, *def, next_pos(text@, stop as int), stop as int),
        r <= text@.len(),
{
    let mut prev: usize = stop;
    let mut p: usize = advance_line(text, stop);
    loop
        invariant_except_break
            0 <= prev <= p <= text@.len(),
            blank_run(text@, *def, next_pos(text@, stop as int), stop as int) == blank_run(
                text@,
                *def,
                p as int,
                prev as int,
            ),
        ensures
            0 <= prev <= p <= text@.len(),
            blank_run(text@, *def, next_pos(text@, stop as int), stop as int) == blank_run(
                text@,
                *def,
                p as int,
                prev as int,
            ),
            p >= text@.len() || !spec_blank(line_at(text@, p as int)),
        decreases text@.len() - p,
    {
        if p >= text.len() {
            break ;
        }
        if !line_is_blank(text, p) {
            break ;
        }
        prev = p;
        p = advance_line(text, p);
    }
    if p >= text.len() {
        prev
    } else {
        hop_exec(text, def, p)
    }
}

fn before_marker_exec(def: &HeaderDef) -> (r: Vec<char>)
    ensures
        r@ == before_marker(*def),
{
    let t: Vec<char> = trim_end_chars(&def.before_each_line);
    if t.len() == 0 && !def.multiple_lines {
        let full: Vec<char> = copy_range(&def.before_each_line, 0, def.before_each_line.len());
        proof {
            assert(def.before_each_line@.subrange(0, def.before_each_line@.len() as int)
                =~= def.before_each_line@);
        }
        full
    } else {
        t
    }
}

/// Scans header body lines from `u` on, appending their lowercased text to
/// the probe.
fn scan_body_exec(
    text: &Vec<char>,
    def: &HeaderDef,
    before: &Vec<char>,
    u: usize,
    probe: &mut String,
) -> (r: (usize, BodyOutcome))
    requires
        u <= text@.len(),
    ensures
        ({
            let bs = body_scan(text@, *def, before@, u as int);
            &&& r.0 as int == bs.0
            &&& r.1 == bs.1
            &&& final(probe)@ == old(probe)@ + bs.2
            &&& r.0 <= text@.len()
        }),
{
    let ghost probe0 = probe@;
    let ghost bs = body_scan(text@, *def, before@, u as int);
    let mut t: usize = u;
    let mut stop: usize = 0;
    let mut out: BodyOutcome = BodyOutcome::FileEnd;
    loop
        invariant_except_break
            u <= t <= text@.len(),
            bs == body_scan(text@, *def, before@, u as int),
            body_scan(text@, *def, before@, t as int).0 == bs.0,
            body_scan(text@, *def, before@, t as int).1 == bs.1,
            probe@ + body_scan(text@, *def, before@, t as int).2 == probe0 + bs.2,
        ensures
            stop as int == bs.0,
            out == bs.1,
            probe@ == probe0 + bs.2,
            stop <= text@.len(),
        decreases text@.len() - t,
    {
        if t >= text.len() {
            proof {
                assert(probe@ + Seq::<char>::empty() =~= probe@);
            }
            stop = text.len();
            out = BodyOutcome::FileEnd;
            break ;
        }
        if !line_starts_with(text, t, before) {
            proof {
                assert(probe@ + Seq::<char>::empty() =~= probe@);
            }
            stop = t;
            out = BodyOutcome::NoPrefix;
            break ;
        }
        let ghost probe_entry = probe@;
        let low: String = lower_line(text, t);
        probe.append(low.as_str());
        if def.multiple_lines && last_at(text, def, t) {
            stop = t;
            out = BodyOutcome::LastLine;
            break ;
        }
        proof {
            lemma_next_pos(text@, t as int);
            let l = line_at(text@, t as int);
            let rest = body_scan(text@, *def, before@, next_pos(text@, t as int));
            assert(body_scan(text@, *def, before@, t as int).2 == lower_of(l) + rest.2);
            assert(probe@ + rest.2 =~= probe_entry + (lower_of(l) + rest.2));
        }
        t = advance_line(text, t);
    }
    (stop, out)
}

/// The view of an optional offset.
pub open spec fn opt_usize_view(o: Option<usize>) -> Option<int> {
    match o {
        Some(e) => Some(e as int),
        None => None,
    }
}

/// Runs the whole scan: returns the begin offset and, when an existing
/// header is detected, the end offset of its span.
pub fn scan_spans(text: &Vec<char>, def: &HeaderDef, keywords: &Vec<String>) -> (r: (
    usize,
    Option<usize>,
))
    requires
        def.wf(),
    ensures
        r.0 as int == scan_begin(text@, *def),
        opt_usize_view(r.1) == sp_end(text@, *def, keywords.deep_view()),
        r.0 <= text@.len(),
        r.1 matches Some(e) ==> r.0 <= e <= text@.len(),
{
    let ghost s = text@;
    let ghost kws = keywords.deep_view();
    let b: usize = scan_begin_exec(text, def);
    let f: usize = find_nonblank(text, b);
    if f >= text.len() {
        return (b, None);
    }
    if !first_at(text, def, f) {
        return (b, None);
    }
    let g0: usize = advance_line(text, f);
    let h: usize = if def.allow_blank_lines {
        find_nonblank(text, g0)
    } else {
        g0
    };
    if h >= text.len() {
        return (b, None);
    }
    let mut probe: String = lower_line(text, f);
    let l2low: String = lower_line(text, h);
    probe.append(l2low.as_str());
    let before: Vec<char> = before_marker_exec(def);
    let early: bool = (def.multiple_lines && last_at(text, def, h)) || line_is_blank(text, h);
    let fin: usize;
    if early {
        if def.multiple_lines {
            fin = hop_exec(text, def, advance_line(text, h));
        } else {
            fin = advance_line(text, h);
        }
    } else {
        let body: (usize, BodyOutcome) = scan_body_exec(
            text,
            def,
            &before,
            advance_line(text, h),
            &mut probe,
        );
        let stop: usize = body.0;
        proof {
            if !(body.1 is FileEnd) {
                lemma_body_scan_stop_line(
                    s,
                    *def,
                    before@,
                    next_pos(s, h as int),
                );
            }
        }
        match body.1 {
            BodyOutcome::FileEnd => {
                fin = text.len();
            },
            BodyOutcome::LastLine => {
                fin = hop_exec(text, def, advance_line(text, stop));
            },
            BodyOutcome::NoPrefix => {
                if def.multiple_lines {
                    if line_is_blank(text, stop) {
                        fin = hop_exec(text, def, advance_line(text, stop));
                    } else if def.allow_blank_lines {
                        fin = blank_run_exec(text, def, stop);
                    } else {
                        fin = hop_exec(text, def, advance_line(text, stop));
                    }
                } else {
                    if line_is_blank(text, stop) {
                        fin = advance_line(text, stop);
                    } else {
                        fin = stop;
                    }
                }
            },
        }
    }
    proof {
        assert(probe@ == sp_probe(s, *def)) by {
            if !early {
                let base = lower_of(line_at(s, f as int)) + lower_of(line_at(s, h as int));
                let bs = body_scan(s, *def, before_marker(*def), next_pos(s, h as int));
                assert(base + bs.2 =~= lower_of(line_at(s, f as int)) + lower_of(
                    line_at(s, h as int),
                ) + bs.2);
            }
        }
        assert(fin as int == sp_final(s, *def));
    }
    let probe_chars: Vec<char> = str_chars(probe.as_str());
    let mut ok: bool = true;
    let mut i: usize = 0;
    while i < keywords.len()
        invariant
            0 <= i <= keywords@.len(),
            kws == keywords.deep_view(),
            probe_chars@ == sp_probe(s, *def),
            ok == (forall|j: int|
                0 <= j < i ==> contains_sub(probe_chars@, lower_of(#[trigger] kws[j]))),
        decreases keywords@.len() - i,
    {
        let low_kw: String = to_lower(keywords[i].as_str());
        let kw: Vec<char> = str_chars(low_kw.as_str());
        proof {
            assert(kws[i as int] == keywords@[i as int]@);
        }
        let c: bool = chars_contain(&probe_chars, &kw);
        ok = ok && c;
        i = i + 1;
    }
    if !ok {
        return (b, None);
    }
    let e0: usize = fin;
    proof {
        lemma_sp_final_bounds(s, *def);
    }
    let e: usize;
    if b == 0 {
        e = find_nonblank(text, e0);
    } else {
        let enl: bool = def.end_line.len() > 0 && def.end_line[def.end_line.len() - 1] == '\n';
        if enl && e0 < text.len() && line_is_blank(text, e0) {
            e = advance_line(text, e0);
        } else {
            e = e0;
        }
    }
    proof {
        lemma_span_bounds(s, *def, kws);
    }
    (b, Some(e))
}

} // verus!
