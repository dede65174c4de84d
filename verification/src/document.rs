//! The document façade.
//!
//! A `Document` composes a file path, a style definition and a scanned
//! text buffer, and exposes the mutation API: detect, match, update,
//! remove. A document performs at most one remove and one insert per scan,
//! in that order; a removed span is forgotten, so removing again changes
//! nothing.

use vstd::prelude::*;

use crate::matcher::HeaderMatcher;
use crate::matcher::spec_render;
use crate::parser::FileContent;
use crate::parser::HeaderParser;
use crate::parser::parse_header;
use crate::scan::opt_usize_view;
use crate::scan::scan_begin;
use crate::scan::sp_end;
use crate::style::HeaderDef;
use crate::text::chars_contain;
use crate::text::contains_sub;
use crate::text::glue_lines;
use crate::text::glue_lines_chars;
use crate::text::ieq_ascii;
use crate::text::normalize_from;
use crate::text::replace_chars;
use crate::text::spec_ieq;
use crate::text::spec_replace;
use crate::text::spec_trim;
use crate::text::str_chars;
use crate::text::strip_spaces;
use crate::text::strip_spaces_from;
use crate::text::take_lines;
use crate::text::take_lines_chars;
use crate::text::trim_chars;

verus! {

/// Whether the text's first lines contain the rendered header: the first
/// `count + 10` lines are joined with newlines, a blank-line sentinel is
/// appended, and the rendered header followed by its separating blank line
/// must occur in that text as a substring.
pub open spec fn spec_matched_strict(
    content: Seq<char>,
    def: HeaderDef,
    ls: Seq<Seq<char>>,
    maxw: int,
) -> bool {
    let expected = spec_render(def, ls, maxw) + seq!['\n'];
    let file_header = take_lines(content, ls.len() as int + 10, 0) + seq!['\n', '\n'];
    contains_sub(file_header, expected)
}

/// Whether the text's first lines contain the license text when both sides
/// are flattened: the lines are concatenated, trimmed, stripped of the
/// style's delimiters, and collapsed to a whitespace-free form which must
/// contain the license text's whitespace-free form.
pub open spec fn spec_matched_loose(
    content: Seq<char>,
    def: HeaderDef,
    one_line: Seq<char>,
    count: int,
) -> bool {
    let joined = spec_trim(glue_lines(content, count + 10, 0));
    let t1 = spec_replace(joined, spec_trim(def.first_line@), Seq::empty());
    let t2 = spec_replace(t1, spec_trim(def.end_line@), Seq::empty());
    let t3 = spec_replace(t2, spec_trim(def.before_each_line@), Seq::empty());
    let t4 = spec_replace(t3, spec_trim(def.after_each_line@), Seq::empty());
    contains_sub(strip_spaces_from(t4, 0), one_line)
}

/// The outcome of checking one file: its style is unknown, its header
/// matches the expectation, or a header is absent or different.
pub enum CheckOutcome {
    Unsupported,
    Matched,
    NotMatched,
}

/// A file under processing: its path, its comment style, and its scanned
/// text.
pub struct Document {
    /// The path the text was read from, reported back to callers.
    pub filepath: String,
    header_def: HeaderDef,
    parser: HeaderParser,
}

impl Document {
    /// The path the document was opened under.
    pub closed spec fn path_view(&self) -> Seq<char> {
        self.filepath@
    }

    /// The document's full text.
    pub closed spec fn text(&self) -> Seq<char> {
        self.parser.file_content.text()
    }

    /// The style the document is checked against.
    pub closed spec fn style(&self) -> HeaderDef {
        self.header_def
    }

    /// The offset where a header begins or would be inserted.
    pub closed spec fn begin(&self) -> int {
        self.parser.begin_pos as int
    }

    /// The end offset of the detected header span, if one was detected.
    pub closed spec fn end_opt(&self) -> Option<int> {
        opt_usize_view(self.parser.end_pos)
    }

    /// Validity: the recorded span lies inside the text and the style is
    /// well-formed.
    pub open spec fn wf(&self) -> bool {
        &&& 0 <= self.begin() <= self.text().len()
        &&& match self.end_opt() {
            Some(e) => self.begin() <= e <= self.text().len(),
            None => true,
        }
        &&& self.style().wf()
    }

    /// Opens a document over already-decoded text: line endings are
    /// normalized and the text is scanned once for an existing header.
    pub fn new(
        filepath: String,
        header_def: HeaderDef,
        keywords: &Vec<String>,
        content: &str,
    ) -> (r: Document)
        requires
            header_def.wf(),
        ensures
            r.wf(),
            r.path_view() == filepath@,
            r.style() == header_def,
            r.text() == normalize_from(content@, 0),
            r.begin() == scan_begin(r.text(), header_def),
            r.end_opt() == sp_end(r.text(), header_def, keywords.deep_view()),
    {
        let file_content: FileContent = FileContent::new(content);
        let parser: HeaderParser = parse_header(file_content, &header_def, keywords);
        Document { filepath, header_def, parser }
    }

    /// True exactly when the resolved style's name is `"unknown"`,
    /// compared without regard to ASCII case.
    pub fn is_unsupported(&self) -> (r: bool)
        ensures
            r == spec_ieq(self.style().name@, "unknown"@),
    {
        let a: Vec<char> = str_chars(self.header_def.name.as_str());
        let b: Vec<char> = str_chars("unknown");
        ieq_ascii(&a, &b)
    }

    /// Whether the scan detected an existing header, valid or not.
    pub fn header_detected(&self) -> (r: bool)
        ensures
            r == (self.end_opt() is Some),
    {
        self.parser.end_pos.is_some()
    }

    /// Whether the text's first lines carry the expected header, strictly
    /// (line for line) or loosely (whitespace-collapsed).
    pub fn header_matched(&self, header: &HeaderMatcher, strict_check: bool) -> (r: bool)
        requires
            header.lines_view().len() + 10 <= usize::MAX,
        ensures
            strict_check ==> r == spec_matched_strict(
                self.text(),
                self.style(),
                header.lines_view(),
                header.max_view(),
            ),
            !strict_check ==> r == spec_matched_loose(
                self.text(),
                self.style(),
                header.one_line_view(),
                header.lines_view().len() as int,
            ),
    {
        let n: usize = header.header_content_lines_count() + 10;
        if strict_check {
            let mut file_header: Vec<char> = take_lines_chars(self.parser.file_content.chars(), n, 0);
            file_header.push('\n');
            file_header.push('\n');
            let rendered: String = header.build_for_definition(&self.header_def);
            let mut expected: Vec<char> = str_chars(rendered.as_str());
            expected.push('\n');
            proof {
                assert(file_header@ =~= take_lines(self.text(), header.lines_view().len() as int + 10, 0)
                    + seq!['\n', '\n']);
                assert(expected@ =~= spec_render(
                    self.style(),
                    header.lines_view(),
                    header.max_view(),
                ) + seq!['\n']);
            }
            chars_contain(&file_header, &expected)
        } else {
            let joined: Vec<char> = glue_lines_chars(self.parser.file_content.chars(), n, 0);
            let trimmed: Vec<char> = trim_chars(&joined);
            let empty: Vec<char> = Vec::new();
            let p1: Vec<char> = trim_chars(&self.header_def.first_line);
            let t1: Vec<char> = replace_chars(&trimmed, &p1, &empty);
            let p2: Vec<char> = trim_chars(&self.header_def.end_line);
            let t2: Vec<char> = replace_chars(&t1, &p2, &empty);
            let p3: Vec<char> = trim_chars(&self.header_def.before_each_line);
            let t3: Vec<char> = replace_chars(&t2, &p3, &empty);
            let p4: Vec<char> = trim_chars(&self.header_def.after_each_line);
            let t4: Vec<char> = replace_chars(&t3, &p4, &empty);
            let flat: Vec<char> = strip_spaces(&t4);
            let needle: Vec<char> = str_chars(header.header_content_one_line());
            chars_contain(&flat, &needle)
        }
    }

    /// Renders the header for this document's style and splices it in at
    /// the begin offset, followed by one separating blank line. An existing
    /// header is not removed first: replacing is remove followed by update.
    pub fn update_header(&mut self, header: &HeaderMatcher)
        requires
            old(self).wf(),
        ensures
            final(self).wf(),
            final(self).text() == old(self).text().subrange(0, old(self).begin()) + spec_render(
                old(self).style(),
                header.lines_view(),
                header.max_view(),
            ) + seq!['\n'] + old(self).text().subrange(
                old(self).begin(),
                old(self).text().len() as int,
            ),
            final(self).begin() == old(self).begin(),
            final(self).end_opt() == old(self).end_opt(),
            final(self).style() == old(self).style(),
            final(self).path_view() == old(self).path_view(),
    {
        let mut rendered: String = header.build_for_definition(&self.header_def);
        rendered.append("\n");
        proof {
            reveal_strlit("\n");
            assert("\n"@ =~= seq!['\n']);
        }
        let begin_pos: usize = self.parser.begin_pos;
        self.parser.file_content.insert(begin_pos, rendered.as_str());
        proof {
            assert(self.text() =~= old(self).text().subrange(0, old(self).begin()) + spec_render(
                old(self).style(),
                header.lines_view(),
                header.max_view(),
            ) + seq!['\n'] + old(self).text().subrange(
                old(self).begin(),
                old(self).text().len() as int,
            ));
        }
    }

    /// Deletes the detected header span and forgets it; with no detected
    /// span the document is unchanged, so a second removal is a no-op.
    pub fn remove_header(&mut self)
        requires
            old(self).wf(),
        ensures
            final(self).wf(),
            old(self).end_opt() is None ==> final(self).text() == old(self).text(),
            old(self).end_opt() matches Some(e) ==> final(self).text() == old(
                self,
            ).text().subrange(0, old(self).begin()) + old(self).text().subrange(
                e,
                old(self).text().len() as int,
            ),
            final(self).end_opt() is None,
            final(self).begin() == old(self).begin(),
            final(self).style() == old(self).style(),
            final(self).path_view() == old(self).path_view(),
    {
        let begin_pos: usize = self.parser.begin_pos;
        match self.parser.end_pos {
            Some(end_pos) => {
                self.parser.file_content.delete(begin_pos, end_pos);
                self.parser.end_pos = None;
            },
            None => {},
        }
    }

    /// The document's full current text, for persisting.
    pub fn content(&self) -> (r: String)
        ensures
            r@ == self.text(),
    {
        self.parser.file_content.content()
    }
}

/// Classifies one document: unsupported when its style is unresolved,
/// matched when the expected header is present, not matched otherwise.
pub fn check_document(doc: &Document, header: &HeaderMatcher, strict_check: bool) -> (r:
    CheckOutcome)
    requires
        header.lines_view().len() + 10 <= usize::MAX,
    ensures
        spec_ieq(doc.style().name@, "unknown"@) ==> r is Unsupported,
        !spec_ieq(doc.style().name@, "unknown"@) ==> {
            let matched = if strict_check {
                spec_matched_strict(doc.text(), doc.style(), header.lines_view(), header.max_view())
            } else {
                spec_matched_loose(
                    doc.text(),
                    doc.style(),
                    header.one_line_view(),
                    header.lines_view().len() as int,
                )
            };
            r == (if matched {
                CheckOutcome::Matched
            } else {
                CheckOutcome::NotMatched
            })
        },
{
    if doc.is_unsupported() {
        CheckOutcome::Unsupported
    } else if doc.header_matched(header, strict_check) {
        CheckOutcome::Matched
    } else {
        CheckOutcome::NotMatched
    }
}

} // verus!
