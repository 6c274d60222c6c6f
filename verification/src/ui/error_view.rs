//! An error shown to the user with its fix-it hint.

use vstd::prelude::*;

use crate::error::{forward_error_hint, forward_error_text, LocalForwardError};
use crate::text::concat3;

verus! {

#[derive(Debug, Clone)]
pub struct ErrorView<'a> {
    pub title: &'a str,
    pub detail: &'a str,
    pub error: &'a LocalForwardError,
}

impl<'a> ErrorView<'a> {
    pub fn new(title: &'a str, detail: &'a str, error: &'a LocalForwardError) -> (v: Self)
        ensures
            v.title == title,
            v.detail == detail,
            v.error == error,
    {
        ErrorView { title, detail, error }
    }
}

/// The view as printed: the title after a cross, the detail when there is
/// one, the error's message, and the hint after an arrow.
pub open spec fn error_view_text(v: ErrorView) -> Seq<char> {
    "✗ "@ + v.title@ + "\n"@ + (if v.detail@.len() > 0 {
        "  "@ + v.detail@ + "\n"@
    } else {
        Seq::empty()
    }) + "    "@ + forward_error_text(*v.error) + "\n"@ + "    → "@ + forward_error_hint(*v.error)
        + "\n"@
}

impl<'a> ErrorView<'a> {
    pub fn render(&self) -> (s: String)
        ensures
            s@ == error_view_text(*self),
    {
        let error = self.error.message();
        let mut s = concat3("✗ ", self.title, "\n");
        let ghost head = s@;
        if !self.detail.is_empty() {
            s.append("  ");
            s.append(self.detail);
            s.append("\n");
        }
        assert(s@ =~= head + (if self.detail@.len() > 0 {
            "  "@ + self.detail@ + "\n"@
        } else {
            Seq::empty()
        }));
        s.append("    ");
        s.append(error.as_str());
        s.append("\n");
        match self.error.actionable_hint() {
            Some(hint) => {
                s.append("    → ");
                s.append(hint.as_str());
                s.append("\n");
            },
            None => {},
        }
        assert(s@ =~= error_view_text(*self));
        s
    }
}

} // verus!
