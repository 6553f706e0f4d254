//! Which of the accepted input formats a form spec is written in: an AG-UI
//! event stream that carries the spec in a tool call, Google A2UI JSONL, or
//! the a2native format.
use vstd::prelude::*;
use crate::a2ui::is_a2ui;
use crate::agui::is_agui;
use crate::text::contains_seq;

verus! {

/// The format of a form spec itself.
#[derive(Debug, Clone, Copy, PartialEq, Eq, Structural)]
pub enum SpecFormat {
    /// Google A2UI JSONL.
    A2ui,
    /// The a2native format.
    A2native,
}

/// The format of an input text.
#[derive(Debug, Clone, Copy, PartialEq, Eq, Structural)]
pub enum InputFormat {
    /// An AG-UI event stream; the form spec is the tool call's arguments.
    Agui,
    /// A form spec given directly.
    Spec(SpecFormat),
}

/// The format of a form spec: A2UI where it holds `"surfaceUpdate"` or
/// `"beginRendering"` (quotes included), a2native otherwise.
pub open spec fn spec_format_of(t: Seq<char>) -> SpecFormat {
    if contains_seq(t, "\"surfaceUpdate\""@) || contains_seq(t, "\"beginRendering\""@) {
        SpecFormat::A2ui
    } else {
        SpecFormat::A2native
    }
}

/// The format of an input text: AG-UI where it holds `"TOOL_CALL_START"`
/// (quotes included), checked first; otherwise the format of the spec.
pub open spec fn format_of(t: Seq<char>) -> InputFormat {
    if contains_seq(t, "\"TOOL_CALL_START\""@) {
        InputFormat::Agui
    } else {
        InputFormat::Spec(spec_format_of(t))
    }
}

/// The format of a form spec (such as the arguments of an AG-UI tool call).
pub fn spec_format(text: &str) -> (r: SpecFormat)
    ensures
        r == spec_format_of(text@),
{
    if is_a2ui(text) {
        SpecFormat::A2ui
    } else {
        SpecFormat::A2native
    }
}

/// The format of an input text.
pub fn detect_format(text: &str) -> (r: InputFormat)
    ensures
        r == format_of(text@),
{
    if is_agui(text) {
        InputFormat::Agui
    } else {
        InputFormat::Spec(spec_format(text))
    }
}

} // verus!
