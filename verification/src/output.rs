//! Output-format resolution and the options handed to the formatting layer.

use vstd::prelude::*;

use crate::level::{eq_ignore_case, str_eq_ignore_case};

verus! {

/// The rendering of emitted records: compact single-line text, or one JSON
/// object per record.
#[derive(Clone, Copy, Debug, PartialEq, Eq, Structural)]
pub enum OutputFormat {
    Compact,
    Json,
}

/// The format a raw configuration value selects: JSON exactly when the value
/// equals `json` up to ASCII case, compact otherwise or when unset.
pub open spec fn resolve_format_model(raw: Option<Seq<char>>) -> OutputFormat {
    match raw {
        Some(s) => if eq_ignore_case(s, "json"@) {
            OutputFormat::Json
        } else {
            OutputFormat::Compact
        },
        None => OutputFormat::Compact,
    }
}

/// Executable format resolution.
pub fn resolve_format(raw: Option<&str>) -> (r: OutputFormat)
    ensures
        r == resolve_format_model(
            match raw {
                Some(s) => Some(s@),
                None => None,
            },
        ),
{
    match raw {
        Some(s) => if str_eq_ignore_case(s, "json") {
            OutputFormat::Json
        } else {
            OutputFormat::Compact
        },
        None => OutputFormat::Compact,
    }
}

/// The name a format is reported under in the confirmation record.
pub fn format_name(f: OutputFormat) -> (r: &'static str)
    ensures
        f == OutputFormat::Json ==> r@ == "json"@,
        f == OutputFormat::Compact ==> r@ == "compact"@,
{
    match f {
        OutputFormat::Json => "json",
        OutputFormat::Compact => "compact",
    }
}

/// The options of the formatting layer.
#[derive(Clone, Copy, Debug, PartialEq, Eq, Structural)]
pub struct FmtOptions {
    /// Include the originating module in each record.
    pub show_target: bool,
    /// Include the identifier of the emitting thread in each record.
    pub thread_ids: bool,
    /// Include the name of the emitting thread, where it has one.
    pub thread_names: bool,
    /// Emit one summary record when a span closes.
    pub span_close_events: bool,
    /// Include the full span hierarchy and its fields in each record.
    pub span_context: bool,
}

/// The options a format selects: target, thread tagging and span-close
/// events always; the span hierarchy only in JSON records.
pub open spec fn spec_fmt_options(f: OutputFormat) -> FmtOptions {
    FmtOptions {
        show_target: true,
        thread_ids: true,
        thread_names: true,
        span_close_events: true,
        span_context: f == OutputFormat::Json,
    }
}

/// Executable option selection.
pub fn fmt_options(f: OutputFormat) -> (r: FmtOptions)
    ensures
        r == spec_fmt_options(f),
        r.show_target && r.thread_ids && r.thread_names && r.span_close_events,
        r.span_context == (f == OutputFormat::Json),
{
    FmtOptions {
        show_target: true,
        thread_ids: true,
        thread_names: true,
        span_close_events: true,
        span_context: match f {
            OutputFormat::Json => true,
            OutputFormat::Compact => false,
        },
    }
}

/// Every emitted record is tagged with the emitting thread, and every span
/// close is reported, whatever format is chosen.
pub proof fn lemma_tagging_holds_for_every_format(f: OutputFormat)
    ensures
        spec_fmt_options(f).thread_ids,
        spec_fmt_options(f).thread_names,
        spec_fmt_options(f).span_close_events,
        spec_fmt_options(f).show_target,
{
}

} // verus!
