//! Structured, position-annotated diagnostics, rendered against the
//! original source for display. A diagnostic carries a machine-readable
//! code, a message, and zero or more annotated spans; no consumer ever
//! recovers a position by scraping message text.

use vstd::prelude::*;

use crate::span::Span;
use crate::text::{chars_to_string, i64_to_chars, str_chars};

verus! {

/// One annotated source range.
#[derive(Debug)]
pub struct Annotation {
    pub span: Span,
    pub label: String,
}

impl Annotation {
    /// The primary annotation of a diagnostic.
    pub fn primary(span: Span, label: String) -> (r: Annotation)
        ensures
            r.span == span,
            r.label == label,
    {
        Annotation { span, label }
    }
}

/// A structured description of a parse, semantic or runtime failure.
#[derive(Debug)]
pub struct Diagnostic {
    pub code: String,
    pub message: String,
    pub annotations: Vec<Annotation>,
}

impl Diagnostic {
    /// An error diagnostic with no code and no annotations yet.
    pub fn error(message: String) -> (r: Diagnostic)
        ensures
            r.message == message,
            r.code@.len() == 0,
            r.annotations@.len() == 0,
    {
        Diagnostic { code: String::new(), message, annotations: Vec::new() }
    }

    /// The same diagnostic with a machine-readable code.
    pub fn with_code(self, code: String) -> (r: Diagnostic)
        ensures
            r.message == self.message,
            r.code == code,
            r.annotations == self.annotations,
    {
        Diagnostic { code, message: self.message, annotations: self.annotations }
    }

    /// The same diagnostic with one more annotated span.
    pub fn with_annotation(self, a: Annotation) -> (r: Diagnostic)
        ensures
            r.message == self.message,
            r.code == self.code,
            r.annotations@ == self.annotations@.push(a),
    {
        let mut annotations = self.annotations;
        annotations.push(a);
        Diagnostic { code: self.code, message: self.message, annotations }
    }

    /// Render the diagnostic as a human-readable report naming the file,
    /// the message, and each annotated position as structured
    /// line-and-column numbers.
    pub fn render(&self, file_path: &str, source: &str) -> (r: String)
        ensures
            r@.len() >= self.message@.len(),
            r@.subrange(0, self.message@.len() as int) == self.message@,
            self.annotations@.len() > 0 ==> exists|j: int|
                0 <= j && j + file_path@.len() <= r@.len() && #[trigger] r@.subrange(
                    j,
                    j + file_path@.len(),
                ) == file_path@,
    {
        let mut out: Vec<char> = Vec::new();
        let mut msg = str_chars(self.message.as_str());
        out.append(&mut msg);
        proof {
            assert(out@.subrange(0, self.message@.len() as int) =~= self.message@);
        }
        let n = self.annotations.len();
        let mut i: usize = 0;
        while i < n
            invariant
                n == self.annotations@.len(),
                i <= n,
                out@.len() >= self.message@.len(),
                out@.subrange(0, self.message@.len() as int) == self.message@,
                i >= 1 && n > 0 ==> exists|j: int|
                    0 <= j && j + file_path@.len() <= out@.len() && #[trigger] out@.subrange(
                        j,
                        j + file_path@.len(),
                    ) == file_path@,
            decreases n - i,
        {
            let ghost out0 = out@;
            out.push('\n');
            out.push(' ');
            out.push(' ');
            let ghost at_path = out@.len() as int;
            let mut path = str_chars(file_path);
            out.append(&mut path);
            proof {
                assert(out@.subrange(at_path, at_path + file_path@.len()) =~= file_path@);
            }
            out.push(':');
            let line = self.annotations[i].span.start.line;
            let col = self.annotations[i].span.start.col;
            let mut line_chars = i64_to_chars(clamp_i64(line));
            out.append(&mut line_chars);
            out.push(':');
            let mut col_chars = i64_to_chars(clamp_i64(col));
            out.append(&mut col_chars);
            out.push(' ');
            let mut label = str_chars(self.annotations[i].label.as_str());
            out.append(&mut label);
            proof {
                assert forall|k: int| 0 <= k < out0.len() implies out@[k] == out0[k] by {}
                assert(out@.subrange(0, self.message@.len() as int) =~= self.message@);
                assert(out@.subrange(at_path, at_path + file_path@.len()) =~= file_path@);
            }
            i += 1;
        }
        let r = chars_to_string(&out);
        proof {
            if self.annotations@.len() > 0 {
                let j = choose|j: int|
                    0 <= j && j + file_path@.len() <= out@.len() && #[trigger] out@.subrange(
                        j,
                        j + file_path@.len(),
                    ) == file_path@;
                assert(r@.subrange(j, j + file_path@.len()) == file_path@);
            }
        }
        r
    }
}

/// A non-negative machine integer as a signed 64-bit number, clamped.
fn clamp_i64(v: usize) -> (r: i64)
    ensures
        v <= i64::MAX ==> r == v,
{
    if v as u64 <= i64::MAX as u64 {
        v as i64
    } else {
        i64::MAX
    }
}

} // verus!
