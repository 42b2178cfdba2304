//! Failures of the bridge, and the one message that the host sees for each.
//!
//! Inside the library a failure keeps the kind of thing that went wrong and
//! the detail that came with it. At the host boundary the two are joined into
//! one string; the laws at the end of this module show that nothing is lost
//! by that.

use vstd::prelude::*;
use vstd::string::StringExecFns;

verus! {

/// What opens the message of a decode failure.
pub const DECODE_LABEL: &'static str = "JSON parse error: ";

/// What opens the message of an adaptation failure.
pub const ADAPTATION_LABEL: &'static str = "Failed to create IR source: ";

/// What opens the message of a compilation failure.
pub const COMPILATION_LABEL: &'static str = "Compilation failed: ";

/// The whole message of a call to an entry point that is no longer served.
pub const UNSUPPORTED_LABEL: &'static str = "Please use compile_babelfont() instead.";

/// The kind of thing that went wrong.
#[derive(Clone, Copy, Debug, PartialEq, Eq, Structural)]
pub enum FailureKind {
    /// The text is not JSON, or does not fit the document schema.
    Decode,
    /// The document was decoded but cannot serve as a compilation source:
    /// one of its glyphs cannot be built from the glyphs it refers to.
    Adaptation,
    /// The engine rejected the source, or met a fault of its own.
    Compilation,
    /// The entry point that was called is kept for old callers only.
    Unsupported,
}

/// The text with which every message of the given kind begins.
pub open spec fn label_text(kind: FailureKind) -> Seq<char> {
    match kind {
        FailureKind::Decode => DECODE_LABEL@,
        FailureKind::Adaptation => ADAPTATION_LABEL@,
        FailureKind::Compilation => COMPILATION_LABEL@,
        FailureKind::Unsupported => UNSUPPORTED_LABEL@,
    }
}

/// The message for a failure: the label of its kind, then the detail as it is.
pub open spec fn message_text(kind: FailureKind, detail: Seq<char>) -> Seq<char> {
    label_text(kind) + detail
}

/// Whether `message` reads as a failure of the given kind.
pub open spec fn is_message_of(kind: FailureKind, message: Seq<char>) -> bool {
    label_text(kind).is_prefix_of(message)
}

impl FailureKind {
    /// The text with which every message of this kind begins.
    pub fn label(self) -> (label: &'static str)
        ensures
            label@ == label_text(self),
    {
        match self {
            FailureKind::Decode => DECODE_LABEL,
            FailureKind::Adaptation => ADAPTATION_LABEL,
            FailureKind::Compilation => COMPILATION_LABEL,
            FailureKind::Unsupported => UNSUPPORTED_LABEL,
        }
    }
}

/// A failure of the bridge.
#[derive(Clone, Debug, PartialEq, Eq)]
pub struct BuildError {
    /// The kind of thing that went wrong.
    pub kind: FailureKind,
    /// What the failing stage had to say, word for word.
    pub detail: String,
}

impl View for BuildError {
    type V = (FailureKind, Seq<char>);

    /// A failure as plain values: its kind and its detail.
    open spec fn view(&self) -> (FailureKind, Seq<char>) {
        (self.kind, self.detail@)
    }
}

impl BuildError {
    /// The message that the host is given for this failure.
    pub open spec fn text(&self) -> Seq<char> {
        message_text(self.kind, self.detail@)
    }

    /// A failure of the given kind with the given detail.
    pub fn new(kind: FailureKind, detail: String) -> (e: BuildError)
        ensures
            e@ == (kind, detail@),
    {
        BuildError { kind, detail }
    }

    /// The message that the host is given for this failure.
    pub fn message(&self) -> (m: String)
        ensures
            m@ == self.text(),
    {
        String::from_str(self.kind.label()).concat(self.detail.as_str())
    }
}

/// The first character of each label, and that no label is empty.
proof fn lemma_label_heads()
    ensures
        label_text(FailureKind::Decode).len() > 0,
        label_text(FailureKind::Adaptation).len() > 0,
        label_text(FailureKind::Compilation).len() > 0,
        label_text(FailureKind::Unsupported).len() > 0,
        label_text(FailureKind::Decode)[0] == 'J',
        label_text(FailureKind::Adaptation)[0] == 'F',
        label_text(FailureKind::Compilation)[0] == 'C',
        label_text(FailureKind::Unsupported)[0] == 'P',
{
    reveal_strlit("JSON parse error: ");
    reveal_strlit("Failed to create IR source: ");
    reveal_strlit("Compilation failed: ");
    reveal_strlit("Please use compile_babelfont() instead.");
}

/// Every message is non-empty and opens with the label of its kind, whatever
/// the detail.
pub proof fn lemma_message_opens_with_label(kind: FailureKind, detail: Seq<char>)
    ensures
        message_text(kind, detail).len() > 0,
        is_message_of(kind, message_text(kind, detail)),
{
    lemma_label_heads();
    let label = label_text(kind);
    let message = message_text(kind, detail);
    assert(message.subrange(0, label.len() as int) =~= label);
}

/// A message reads as a failure of one kind only: the host can tell from the
/// message alone which kind of failure it was given.
pub proof fn lemma_message_tells_kind(kind: FailureKind, other: FailureKind, detail: Seq<char>)
    ensures
        is_message_of(other, message_text(kind, detail)) <==> other == kind,
{
    lemma_label_heads();
    lemma_message_opens_with_label(kind, detail);
    let message = message_text(kind, detail);
    assert(message[0] == label_text(kind)[0]);
    if is_message_of(other, message) {
        let head = label_text(other);
        assert(message.subrange(0, head.len() as int)[0] == head[0]);
    }
}

/// Joining kind and detail into one message loses nothing: two failures with
/// the same message are of the same kind and carry the same detail.
pub proof fn lemma_message_keeps_failure(
    kind: FailureKind,
    detail: Seq<char>,
    other_kind: FailureKind,
    other_detail: Seq<char>,
)
    requires
        message_text(kind, detail) == message_text(other_kind, other_detail),
    ensures
        kind == other_kind,
        detail == other_detail,
{
    lemma_message_opens_with_label(other_kind, other_detail);
    lemma_message_tells_kind(kind, other_kind, detail);
    let label = label_text(kind);
    let message = message_text(kind, detail);
    assert(detail =~= message.subrange(label.len() as int, message.len() as int));
    assert(other_detail =~= message.subrange(label.len() as int, message.len() as int));
}

} // verus!
