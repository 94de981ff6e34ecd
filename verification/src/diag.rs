use vstd::prelude::*;

verus! {

/// The severity of a diagnostic, as the external analyzer reports it.
#[derive(Clone, Copy, Debug, PartialEq, Eq, Structural)]
pub enum Level {
    Ice,
    Error,
    Warning,
    FailureNote,
    Note,
    Help,
}

/// One fragment of raw source text covering a span's line(s), with the
/// sub-range relevant to the span marked by 1-based character offsets.
pub struct TextFragment {
    /// The raw source text, verbatim including indentation.
    pub text: String,
    /// 1-based offset of the first highlighted character.
    pub highlight_start: usize,
    /// 1-based offset one past the last highlighted character.
    pub highlight_end: usize,
}

impl TextFragment {
    /// The highlight offsets address a sub-range of the text.
    pub open spec fn wf(self) -> bool {
        1 <= self.highlight_start <= self.highlight_end <= self.text@.len()
    }

    /// The highlighted sub-range of the text.
    pub open spec fn highlighted(self) -> Seq<char> {
        self.text@.subrange(self.highlight_start - 1, self.highlight_end - 1)
    }
}

/// A diagnostic's reference to one source location, with the analyzer's
/// explanatory label and the covered source text.
pub struct Span {
    /// 1-based source line on which the span starts.
    pub line_start: usize,
    /// Free-text annotation produced by the analyzer, used as a matching key.
    pub label: Option<String>,
    /// The covered source text; normally one fragment.
    pub text: Vec<TextFragment>,
}

impl Span {
    /// A span carries at least one fragment, each with offsets in range.
    pub open spec fn wf(self) -> bool {
        &&& self.text@.len() >= 1
        &&& forall|i: int| 0 <= i < self.text@.len() ==> (#[trigger] self.text@[i]).wf()
    }

    /// Whether this span carries exactly the given label.
    pub open spec fn has_label(self, l: Seq<char>) -> bool {
        match self.label {
            Some(s) => s@ == l,
            None => false,
        }
    }

    /// Whether this span's label starts with the given prefix.
    pub open spec fn has_label_prefix(self, l: Seq<char>) -> bool {
        match self.label {
            Some(s) => s@.len() >= l.len() && s@.subrange(0, l.len() as int) == l,
            None => false,
        }
    }
}

/// One structured record emitted by the external static analyzer: severity,
/// optional error-code identifier, and an ordered list of spans.
/// Constructed once from the analyzer's output stream, consumed read-only.
pub struct Diagnostic {
    pub level: Level,
    /// Short error-code identifier, e.g. a classifier such as "E0502".
    pub code: Option<String>,
    pub spans: Vec<Span>,
}

impl Diagnostic {
    pub open spec fn wf(self) -> bool {
        forall|i: int| 0 <= i < self.spans@.len() ==> (#[trigger] self.spans@[i]).wf()
    }
}

} // verus!
