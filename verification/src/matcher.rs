//! Rendering of the canonical license text into a comment style.
//!
//! A `HeaderMatcher` holds the canonical license text, split into lines and
//! flattened to a whitespace-free form, and renders it into the delimited
//! shape a style prescribes: an optional framing first line, every content
//! line wrapped in the per-line markers (padded to the longest line when
//! the style asks for it) and right-trimmed, and an optional framing end
//! line.

use vstd::prelude::*;

use crate::style::HeaderDef;
use crate::text::chars_string;
use crate::text::extend_chars;
use crate::text::max_len_from;
use crate::text::spec_lines;
use crate::text::spec_trim_end;
use crate::text::split_lines;
use crate::text::str_chars;
use crate::text::strip_spaces;
use crate::text::strip_spaces_from;
use crate::text::trim_end_chars;

verus! {

/// A framing line as it appears in the rendered header: nothing when it is
/// empty, the line itself when it already is the line terminator, and the
/// line with a terminator appended otherwise.
pub open spec fn frame_line(x: Seq<char>) -> Seq<char> {
    if x.len() == 0 {
        Seq::empty()
    } else if x == seq!['\n'] {
        x
    } else {
        x + seq!['\n']
    }
}

/// One rendered content line: the line, right-padded with spaces to
/// `maxw` when `pad` is set, wrapped in the per-line markers, right-trimmed
/// and terminated.
pub open spec fn render_line(
    l: Seq<char>,
    before: Seq<char>,
    after: Seq<char>,
    pad: bool,
    maxw: int,
) -> Seq<char> {
    let padded = if pad && l.len() < maxw {
        l + Seq::new((maxw - l.len()) as nat, |i: int| ' ')
    } else {
        l
    };
    spec_trim_end(before + padded + after) + seq!['\n']
}

/// The rendered content lines from index `i` on, concatenated.
pub open spec fn render_lines_from(
    ls: Seq<Seq<char>>,
    before: Seq<char>,
    after: Seq<char>,
    pad: bool,
    maxw: int,
    i: int,
) -> Seq<char>
    decreases ls.len() - i,
    when 0 <= i <= ls.len()
{
    if i >= ls.len() {
        Seq::empty()
    } else {
        render_line(ls[i], before, after, pad, maxw) + render_lines_from(
            ls,
            before,
            after,
            pad,
            maxw,
            i + 1,
        )
    }
}

/// The canonical license text rendered into a style: framing first line,
/// rendered content lines, framing end line.
pub open spec fn spec_render(def: HeaderDef, ls: Seq<Seq<char>>, maxw: int) -> Seq<char> {
    frame_line(def.first_line@) + render_lines_from(
        ls,
        def.before_each_line@,
        def.after_each_line@,
        def.pad_lines,
        maxw,
        0,
    ) + frame_line(def.end_line@)
}

/// The canonical license text, prepared for rendering and matching.
pub struct HeaderMatcher {
    header_content: String,
    header_content_one_line: String,
    header_content_lines: Vec<Vec<char>>,
    max_length: usize,
}

impl HeaderMatcher {
    /// The canonical license text.
    pub closed spec fn content_view(&self) -> Seq<char> {
        self.header_content@
    }

    /// The license text as lines.
    pub closed spec fn lines_view(&self) -> Seq<Seq<char>> {
        self.header_content_lines.deep_view()
    }

    /// The license text with all whitespace removed.
    pub closed spec fn one_line_view(&self) -> Seq<char> {
        self.header_content_one_line@
    }

    /// The length of the longest license text line.
    pub closed spec fn max_view(&self) -> int {
        self.max_length as int
    }

    /// Prepares the canonical license text: its lines, its
    /// whitespace-free form, and the longest line's width.
    pub fn new(header_content: String) -> (r: HeaderMatcher)
        ensures
            r.content_view() == header_content@,
            r.lines_view() == spec_lines(header_content@, 0),
            r.one_line_view() == strip_spaces_from(header_content@, 0),
            r.max_view() == max_len_from(r.lines_view(), 0),
    {
        let raw: Vec<char> = str_chars(header_content.as_str());
        let one: Vec<char> = strip_spaces(&raw);
        let lines: Vec<Vec<char>> = split_lines(&raw);
        let ghost ls = lines.deep_view();
        let mut mx: usize = 0;
        let mut i: usize = 0;
        while i < lines.len()
            invariant
                0 <= i <= lines@.len(),
                ls == lines.deep_view(),
                ls.len() == lines@.len(),
                ({
                    let rest = max_len_from(ls, i as int);
                    max_len_from(ls, 0) == if mx as int >= rest {
                        mx as int
                    } else {
                        rest
                    }
                }),
            decreases lines@.len() - i,
        {
            proof {
                assert(ls[i as int] == lines@[i as int].deep_view());
                assert(lines@[i as int].deep_view() =~= lines@[i as int]@);
            }
            let cur: usize = lines[i].len();
            if cur > mx {
                mx = cur;
            }
            i = i + 1;
        }
        HeaderMatcher {
            header_content,
            header_content_one_line: chars_string(&one),
            header_content_lines: lines,
            max_length: mx,
        }
    }

    /// Renders the license text into the given style.
    pub fn build_for_definition(&self, def: &HeaderDef) -> (r: String)
        ensures
            r@ == spec_render(*def, self.lines_view(), self.max_view()),
    {
        let ghost ls = self.lines_view();
        let ghost before = def.before_each_line@;
        let ghost after = def.after_each_line@;
        let mut out: Vec<char> = Vec::new();
        if def.first_line.len() > 0 {
            extend_chars(&mut out, &def.first_line);
            if !(def.first_line.len() == 1 && def.first_line[0] == '\n') {
                out.push('\n');
            }
        }
        proof {
            if def.first_line@.len() == 1 && def.first_line@[0] == '\n' {
                assert(def.first_line@ =~= seq!['\n']);
            }
            assert(out@ =~= frame_line(def.first_line@));
        }
        let ghost head = out@;
        let mut i: usize = 0;
        while i < self.header_content_lines.len()
            invariant
                0 <= i <= self.header_content_lines@.len(),
                ls == self.lines_view(),
                ls.len() == self.header_content_lines@.len(),
                before == def.before_each_line@,
                after == def.after_each_line@,
                head == frame_line(def.first_line@),
                out@ + render_lines_from(ls, before, after, def.pad_lines, self.max_length as int, i as int)
                    == head + render_lines_from(ls, before, after, def.pad_lines, self.max_length as int, 0),
            decreases self.header_content_lines@.len() - i,
        {
            let ghost out_entry = out@;
            let l: &Vec<char> = &self.header_content_lines[i];
            proof {
                assert(ls[i as int] == self.header_content_lines@[i as int].deep_view());
                assert(self.header_content_lines@[i as int].deep_view() =~= l@);
            }
            let mut tmp: Vec<char> = Vec::new();
            extend_chars(&mut tmp, &def.before_each_line);
            extend_chars(&mut tmp, l);
            if def.pad_lines && l.len() < self.max_length {
                let goal: usize = self.max_length - l.len();
                let mut k: usize = 0;
                while k < goal
                    invariant
                        0 <= k <= goal,
                        tmp@ == before + l@ + Seq::new(k as nat, |j: int| ' '),
                    decreases goal - k,
                {
                    tmp.push(' ');
                    proof {
                        assert(before + l@ + Seq::new((k + 1) as nat, |j: int| ' ') =~= (before
                            + l@ + Seq::new(k as nat, |j: int| ' ')).push(' '));
                    }
                    k = k + 1;
                }
            } else {
                proof {
                    assert(tmp@ =~= before + l@);
                }
            }
            extend_chars(&mut tmp, &def.after_each_line);
            let trimmed: Vec<char> = trim_end_chars(&tmp);
            extend_chars(&mut out, &trimmed);
            out.push('\n');
            proof {
                let padded = if def.pad_lines && l@.len() < self.max_length as int {
                    l@ + Seq::new((self.max_length as int - l@.len()) as nat, |j: int| ' ')
                } else {
                    l@
                };
                assert(tmp@ =~= before + padded + after);
                assert(out@ =~= out_entry + render_line(
                    ls[i as int],
                    before,
                    after,
                    def.pad_lines,
                    self.max_length as int,
                ));
                assert(out@ + render_lines_from(
                    ls,
                    before,
                    after,
                    def.pad_lines,
                    self.max_length as int,
                    i + 1,
                ) =~= out_entry + (render_line(
                    ls[i as int],
                    before,
                    after,
                    def.pad_lines,
                    self.max_length as int,
                ) + render_lines_from(
                    ls,
                    before,
                    after,
                    def.pad_lines,
                    self.max_length as int,
                    i + 1,
                )));
            }
            i = i + 1;
        }
        proof {
            assert(out@ + render_lines_from(
                ls,
                before,
                after,
                def.pad_lines,
                self.max_length as int,
                ls.len() as int,
            ) =~= out@);
        }
        let ghost mid = out@;
        if def.end_line.len() > 0 {
            extend_chars(&mut out, &def.end_line);
            if !(def.end_line.len() == 1 && def.end_line[0] == '\n') {
                out.push('\n');
            }
        }
        proof {
            if def.end_line@.len() == 1 && def.end_line@[0] == '\n' {
                assert(def.end_line@ =~= seq!['\n']);
            }
            assert(out@ =~= mid + frame_line(def.end_line@));
            assert(out@ =~= spec_render(*def, ls, self.max_length as int));
        }
        chars_string(&out)
    }

    /// The number of lines in the canonical license text.
    pub fn header_content_lines_count(&self) -> (r: usize)
        ensures
            r as int == self.lines_view().len(),
    {
        self.header_content_lines.len()
    }

    /// The canonical license text with all whitespace removed.
    pub fn header_content_one_line(&self) -> (r: &str)
        ensures
            r@ == self.one_line_view(),
    {
        self.header_content_one_line.as_str()
    }
}

} // verus!
