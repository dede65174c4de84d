//! The text buffer and the public scan entry point.
//!
//! `FileContent` owns a file's full decoded text together with a cursor for
//! sequential line reading and two splice primitives addressed by absolute
//! character offset. `parse_header` runs the scan of `scan` over a buffer
//! and returns the resulting header span.

use vstd::prelude::*;

use crate::scan::opt_usize_view;
use crate::scan::scan_begin;
use crate::scan::scan_spans;
use crate::scan::sp_end;
use crate::style::HeaderDef;
use crate::text::advance_line;
use crate::text::chars_string;
use crate::text::copy_range;
use crate::text::extend_chars;
use crate::text::line_at;
use crate::text::line_chars;
use crate::text::next_pos;
use crate::text::normalize_from;
use crate::text::normalize_newlines;
use crate::text::str_chars;

verus! {

/// A file's full decoded text with a line cursor.
///
/// `pos` is the offset the next line is read from; `old_pos` remembers the
/// offset before the last read, so a single read can be undone. The text is
/// held as characters, so all offsets count characters.
pub struct FileContent {
    content: Vec<char>,
    pos: usize,
    old_pos: usize,
}

impl FileContent {
    /// The text held by the buffer.
    pub closed spec fn text(&self) -> Seq<char> {
        self.content@
    }

    /// The cursor: the offset the next line is read from.
    pub closed spec fn cursor(&self) -> int {
        self.pos as int
    }

    /// The remembered offset of the line read last.
    pub closed spec fn mark(&self) -> int {
        self.old_pos as int
    }

    /// Decodes a buffer from text, normalizing line endings: a `"\r\n"`
    /// pair collapses to `'\n'` and a bare `'\r'` becomes `'\n'`, so a
    /// carriage return marks a line boundary either way. The cursor starts
    /// at the top.
    pub fn new(text: &str) -> (r: FileContent)
        ensures
            r.text() == normalize_from(text@, 0),
            r.cursor() == 0,
            r.mark() == 0,
    {
        let raw: Vec<char> = str_chars(text);
        FileContent { content: normalize_newlines(&raw), pos: 0, old_pos: 0 }
    }

    /// Repositions the cursor absolutely; the remembered offset moves with
    /// it.
    pub fn reset_to(&mut self, pos: usize)
        ensures
            final(self).text() == old(self).text(),
            final(self).cursor() == pos as int,
            final(self).mark() == pos as int,
    {
        self.old_pos = pos;
        self.pos = pos;
    }

    /// Repositions the cursor to the top of the text.
    pub fn reset(&mut self)
        ensures
            final(self).text() == old(self).text(),
            final(self).cursor() == 0,
            final(self).mark() == 0,
    {
        self.reset_to(0);
    }

    /// Undoes the last line read: the cursor moves back to the remembered
    /// offset.
    pub fn rewind(&mut self)
        ensures
            final(self).text() == old(self).text(),
            final(self).cursor() == old(self).mark(),
            final(self).mark() == old(self).mark(),
    {
        self.pos = self.old_pos;
    }

    /// Whether the cursor is at or past the end of the text.
    pub fn end_reached(&self) -> (r: bool)
        ensures
            r == (self.cursor() >= self.text().len()),
    {
        self.pos >= self.content.len()
    }

    /// Reads the line at the cursor, without its terminator, and advances
    /// the cursor past the terminator; at the end of the text it returns
    /// `None` and moves nothing, so repeated calls keep returning `None`.
    pub fn next_line(&mut self) -> (r: Option<String>)
        ensures
            old(self).cursor() >= old(self).text().len() ==> {
                &&& r is None
                &&& *final(self) == *old(self)
            },
            old(self).cursor() < old(self).text().len() ==> {
                &&& r matches Some(l) && l@ == line_at(old(self).text(), old(self).cursor())
                &&& final(self).cursor() == next_pos(old(self).text(), old(self).cursor())
                &&& final(self).mark() == old(self).cursor()
                &&& final(self).text() == old(self).text()
            },
    {
        if self.pos >= self.content.len() {
            return None;
        }
        let l: Vec<char> = line_chars(&self.content, self.pos);
        let next: usize = advance_line(&self.content, self.pos);
        self.old_pos = self.pos;
        self.pos = next;
        Some(chars_string(&l))
    }

    /// The full current text.
    pub fn content(&self) -> (r: String)
        ensures
            r@ == self.text(),
    {
        chars_string(&self.content)
    }

    /// Splices `s` into the text at `index`; offsets at or after `index`
    /// shift right by the length of `s`. The cursor does not move.
    pub fn insert(&mut self, index: usize, s: &str)
        requires
            index <= old(self).text().len(),
        ensures
            final(self).text() == old(self).text().subrange(0, index as int) + s@ + old(
                self,
            ).text().subrange(index as int, old(self).text().len() as int),
            final(self).cursor() == old(self).cursor(),
            final(self).mark() == old(self).mark(),
    {
        let mut r: Vec<char> = copy_range(&self.content, 0, index);
        let mid: Vec<char> = str_chars(s);
        extend_chars(&mut r, &mid);
        let tail: Vec<char> = copy_range(&self.content, index, self.content.len());
        extend_chars(&mut r, &tail);
        self.content = r;
    }

    /// Deletes the text in `[start, end)`; offsets at or after `end` shift
    /// left. The cursor does not move.
    pub fn delete(&mut self, start: usize, end: usize)
        requires
            start <= end <= old(self).text().len(),
        ensures
            final(self).text() == old(self).text().subrange(0, start as int) + old(
                self,
            ).text().subrange(end as int, old(self).text().len() as int),
            final(self).cursor() == old(self).cursor(),
            final(self).mark() == old(self).mark(),
    {
        let mut r: Vec<char> = copy_range(&self.content, 0, start);
        let tail: Vec<char> = copy_range(&self.content, end, self.content.len());
        extend_chars(&mut r, &tail);
        self.content = r;
    }

    /// Grants the scanner read access to the characters.
    pub(crate) fn chars(&self) -> (r: &Vec<char>)
        ensures
            r@ == self.text(),
    {
        &self.content
    }
}

/// The result of scanning one buffer: the offset where a header should
/// start and, when an existing header was detected, the offset just past
/// its span.
pub struct HeaderParser {
    /// Offset where a header begins or would be inserted, after any
    /// skippable prologue.
    pub begin_pos: usize,
    /// `Some` exactly when an existing header was detected; the span is
    /// `[begin_pos, end_pos)`.
    pub end_pos: Option<usize>,
    /// The scanned buffer, cursor back at the top.
    pub file_content: FileContent,
}

/// Scans a buffer for an existing license header framed by `header_def`,
/// confirmed only when every keyword occurs, case-insensitively, in the
/// accumulated header text.
pub fn parse_header(
    file_content: FileContent,
    header_def: &HeaderDef,
    keywords: &Vec<String>,
) -> (r: HeaderParser)
    requires
        header_def.wf(),
    ensures
        r.file_content.text() == file_content.text(),
        r.file_content.cursor() == 0,
        r.file_content.mark() == 0,
        r.begin_pos as int == scan_begin(file_content.text(), *header_def),
        opt_usize_view(r.end_pos) == sp_end(
            file_content.text(),
            *header_def,
            keywords.deep_view(),
        ),
        r.begin_pos <= r.file_content.text().len(),
        r.end_pos matches Some(e) ==> r.begin_pos <= e <= r.file_content.text().len(),
{
    let mut file_content = file_content;
    let spans: (usize, Option<usize>) = scan_spans(file_content.chars(), header_def, keywords);
    file_content.reset();
    HeaderParser { begin_pos: spans.0, end_pos: spans.1, file_content }
}

} // verus!
