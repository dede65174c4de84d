//! Comment-style definitions.
//!
//! A `HeaderStyle` is the plain, declarative description of one comment
//! style as it appears in configuration. A `HeaderDef` is the checked form
//! the engine works with: delimiters as character vectors, detection
//! patterns compiled, and the blank-line invariant established.

use vstd::prelude::*;

use crate::pattern::Pattern;
use crate::pattern::regex_match;
use crate::pattern::regex_ok;
use crate::text::lower_of;
use crate::text::str_chars;
use crate::text::to_lower;

verus! {

/// Configuration-level description of one comment style.
pub struct HeaderStyle {
    /// The first fixed line of this header; empty means no framing line.
    pub first_line: String,
    /// The last fixed line of this header; empty means no framing line.
    pub end_line: String,
    /// Characters prepended to every content line.
    pub before_each_line: String,
    /// Characters appended to every content line.
    pub after_each_line: String,
    /// Only for multi-line styles: whether blank lines may occur inside the
    /// header.
    pub allow_blank_lines: bool,
    /// Whether one open and close delimiter frames the whole header, as
    /// opposed to a marker repeated on every line.
    pub multiple_lines: bool,
    /// Whether content lines are right-padded to the longest line's width
    /// before the trailing characters.
    pub pad_lines: bool,
    /// Pattern for prologue lines to skip and keep above the header.
    pub skip_line_pattern: Option<String>,
    /// Pattern recognising the first line of an existing header.
    pub first_line_detection_pattern: Option<String>,
    /// Pattern recognising the last line of an existing header.
    pub last_line_detection_pattern: Option<String>,
}

impl Default for HeaderStyle {
    /// The default style: no delimiters, no patterns, a multi-line style
    /// without blank lines or padding.
    fn default() -> (r: Self)
        ensures
            r.first_line@ == Seq::<char>::empty(),
            r.end_line@ == Seq::<char>::empty(),
            r.before_each_line@ == Seq::<char>::empty(),
            r.after_each_line@ == Seq::<char>::empty(),
            !r.allow_blank_lines,
            r.multiple_lines,
            !r.pad_lines,
            r.skip_line_pattern is None,
            r.first_line_detection_pattern is None,
            r.last_line_detection_pattern is None,
    {
        HeaderStyle {
            first_line: String::new(),
            end_line: String::new(),
            before_each_line: String::new(),
            after_each_line: String::new(),
            allow_blank_lines: false,
            multiple_lines: true,
            pad_lines: false,
            skip_line_pattern: None,
            first_line_detection_pattern: None,
            last_line_detection_pattern: None,
        }
    }
}

/// Errors the engine reports at configuration-load time.
#[derive(Debug)]
pub enum Error {
    /// A style broke a structural rule of the configuration.
    InvalidConfig { message: String },
    /// A detection pattern did not compile.
    MalformedRegex { pattern: String },
}

impl Error {
    /// A short description of the error.
    pub fn message(&self) -> String {
        match self {
            Error::InvalidConfig { message } => message.clone(),
            Error::MalformedRegex { pattern } => pattern.clone(),
        }
    }
}

/// The source text of an optional compiled pattern.
pub open spec fn pat_src(p: Option<Pattern>) -> Option<Seq<char>> {
    match p {
        Some(q) => Some(q.src()),
        None => None,
    }
}

/// The view of an optional pattern text.
pub open spec fn opt_str_view(o: Option<String>) -> Option<Seq<char>> {
    match o {
        Some(s) => Some(s@),
        None => None,
    }
}

/// Whether an optional pattern text compiles; an absent pattern raises no
/// objection.
pub open spec fn opt_pattern_ok(o: Option<String>) -> bool {
    match o {
        Some(s) => regex_ok(s@),
        None => true,
    }
}

/// Whether every pattern a style names compiles and the blank-line
/// invariant holds: exactly the styles that load.
pub open spec fn style_loads(style: HeaderStyle) -> bool {
    &&& !(style.allow_blank_lines && !style.multiple_lines)
    &&& opt_pattern_ok(style.skip_line_pattern)
    &&& opt_pattern_ok(style.first_line_detection_pattern)
    &&& opt_pattern_ok(style.last_line_detection_pattern)
}

/// Checked definition of one comment style, ready for scanning and
/// rendering.
pub struct HeaderDef {
    /// Style name, stored lowercased; the name `"unknown"` marks a file
    /// with no applicable style.
    pub name: String,
    /// The first fixed line; empty means no framing line.
    pub first_line: Vec<char>,
    /// The last fixed line; empty means no framing line.
    pub end_line: Vec<char>,
    /// Characters prepended to every content line.
    pub before_each_line: Vec<char>,
    /// Characters appended to every content line.
    pub after_each_line: Vec<char>,
    /// Only for multi-line styles: whether blank lines may occur inside the
    /// header.
    pub allow_blank_lines: bool,
    /// Whether one open and close delimiter frames the whole header.
    pub multiple_lines: bool,
    /// Whether content lines are right-padded to the longest line's width.
    pub pad_lines: bool,
    /// Pattern for prologue lines to skip.
    pub skip_line_pattern: Option<Pattern>,
    /// Pattern recognising the first line of an existing header.
    pub first_line_detection_pattern: Option<Pattern>,
    /// Pattern recognising the last line of an existing header.
    pub last_line_detection_pattern: Option<Pattern>,
}

impl HeaderDef {
    /// Structural invariant: blank lines inside a header only make sense
    /// when one delimiter pair frames the whole header.
    pub open spec fn wf(&self) -> bool {
        self.allow_blank_lines ==> self.multiple_lines
    }

    /// Whether `l` is a prologue line to skip.
    pub open spec fn spec_is_skip(&self, l: Seq<char>) -> bool {
        match self.skip_line_pattern {
            Some(p) => regex_match(p.src(), l),
            None => false,
        }
    }

    /// Whether `l` looks like the first line of an existing header.
    pub open spec fn spec_is_first(&self, l: Seq<char>) -> bool {
        match self.first_line_detection_pattern {
            Some(p) => regex_match(p.src(), l),
            None => false,
        }
    }

    /// Whether `l` looks like the last line of an existing header.
    pub open spec fn spec_is_last(&self, l: Seq<char>) -> bool {
        match self.last_line_detection_pattern {
            Some(p) => regex_match(p.src(), l),
            None => false,
        }
    }

    /// Tells if the given content line must be skipped according to this
    /// definition; the header is output after any such line.
    pub fn is_skip_line(&self, line: &str) -> (r: bool)
        ensures
            r == self.spec_is_skip(line@),
    {
        match &self.skip_line_pattern {
            Some(p) => p.is_match(line),
            None => false,
        }
    }

    /// Tells if the given content line is the first line of a possible
    /// header of this definition kind.
    pub fn is_first_header_line(&self, line: &str) -> (r: bool)
        ensures
            r == self.spec_is_first(line@),
    {
        match &self.first_line_detection_pattern {
            Some(p) => p.is_match(line),
            None => false,
        }
    }

    /// Tells if the given content line is the last line of a possible
    /// header of this definition kind.
    pub fn is_last_header_line(&self, line: &str) -> (r: bool)
        ensures
            r == self.spec_is_last(line@),
    {
        match &self.last_line_detection_pattern {
            Some(p) => p.is_match(line),
            None => false,
        }
    }

    /// Checks and compiles a configuration-level style under the given
    /// name. Loading succeeds exactly when the blank-line invariant holds
    /// and every named pattern compiles; a style allowing blank lines
    /// without being multi-line is rejected, as is any detection pattern
    /// that does not compile.
    pub fn from_style(name: &str, style: &HeaderStyle) -> (r: Result<HeaderDef, Error>)
        ensures
            (r is Ok) == style_loads(*style),
            r matches Err(e) ==> (e matches Error::MalformedRegex { pattern } ==> {
                &&& !regex_ok(pattern@)
                &&& (opt_str_view(style.skip_line_pattern) == Some(pattern@) || opt_str_view(
                    style.first_line_detection_pattern,
                ) == Some(pattern@) || opt_str_view(style.last_line_detection_pattern) == Some(
                    pattern@,
                ))
            }),
            r matches Ok(def) ==> {
                &&& def.name@ == lower_of(name@)
                &&& def.first_line@ == style.first_line@
                &&& def.end_line@ == style.end_line@
                &&& def.before_each_line@ == style.before_each_line@
                &&& def.after_each_line@ == style.after_each_line@
                &&& def.allow_blank_lines == style.allow_blank_lines
                &&& def.multiple_lines == style.multiple_lines
                &&& def.pad_lines == style.pad_lines
                &&& pat_src(def.skip_line_pattern) == opt_str_view(style.skip_line_pattern)
                &&& pat_src(def.first_line_detection_pattern) == opt_str_view(
                    style.first_line_detection_pattern,
                )
                &&& pat_src(def.last_line_detection_pattern) == opt_str_view(
                    style.last_line_detection_pattern,
                )
                &&& def.wf()
            },
            (style.allow_blank_lines && !style.multiple_lines) <==> (r matches Err(e)
                && e is InvalidConfig),
    {
        if style.allow_blank_lines && !style.multiple_lines {
            return Err(
                Error::InvalidConfig {
                    message: String::from_str(
                        "a style allowing blank lines must be a multi-line style",
                    ),
                },
            );
        }
        let skip_line_pattern: Option<Pattern> = match &style.skip_line_pattern {
            Some(s) => match Pattern::compile(s.as_str()) {
                Some(p) => Some(p),
                None => {
                    return Err(Error::MalformedRegex { pattern: s.clone() });
                },
            },
            None => None,
        };
        let first_line_detection_pattern: Option<Pattern> = match &style
            .first_line_detection_pattern {
            Some(s) => match Pattern::compile(s.as_str()) {
                Some(p) => Some(p),
                None => {
                    return Err(Error::MalformedRegex { pattern: s.clone() });
                },
            },
            None => None,
        };
        let last_line_detection_pattern: Option<Pattern> = match &style
            .last_line_detection_pattern {
            Some(s) => match Pattern::compile(s.as_str()) {
                Some(p) => Some(p),
                None => {
                    return Err(Error::MalformedRegex { pattern: s.clone() });
                },
            },
            None => None,
        };
        Ok(
            HeaderDef {
                name: to_lower(name),
                first_line: str_chars(style.first_line.as_str()),
                end_line: str_chars(style.end_line.as_str()),
                before_each_line: str_chars(style.before_each_line.as_str()),
                after_each_line: str_chars(style.after_each_line.as_str()),
                allow_blank_lines: style.allow_blank_lines,
                multiple_lines: style.multiple_lines,
                pad_lines: style.pad_lines,
                skip_line_pattern,
                first_line_detection_pattern,
                last_line_detection_pattern,
            },
        )
    }
}

} // verus!
