//! Resolution of the configuration snapshot and installation of the global
//! pipeline.

use vstd::prelude::*;
use vstd::string::StringExecFns;

use tracing_subscriber::layer::SubscriberExt;
use tracing_subscriber::util::SubscriberInitExt;

use crate::filter::{parse_directives, parse_filter, resolve_filter_model, FilterSpec};
use crate::output::{fmt_options, resolve_format, resolve_format_model, spec_fmt_options,
    FmtOptions, OutputFormat};

verus! {

/// The view of an optional raw configuration value.
pub open spec fn raw_view(raw: Option<&str>) -> Option<Seq<char>> {
    match raw {
        Some(s) => Some(s@),
        None => None,
    }
}

/// The directive string handed to the installed filter: the raw value when it
/// lies inside the grammar, the default otherwise.
pub open spec fn directive_model(raw: Option<Seq<char>>) -> Seq<char> {
    match raw {
        Some(s) => if parse_directives(s) is Some {
            s
        } else {
            "info"@
        },
        None => "info"@,
    }
}

/// The directive handed to the installed filter always lies inside the
/// grammar and means exactly the resolved filter model.
pub proof fn lemma_directive_means_resolved_filter(raw: Option<Seq<char>>)
    ensures
        parse_directives(directive_model(raw)) == Some(resolve_filter_model(raw)),
{
    match raw {
        None => crate::filter::lemma_info_directive_means_default(),
        Some(s) => {
            if parse_directives(s) is None {
                crate::filter::lemma_info_directive_means_default();
            }
        },
    }
}

/// The configuration snapshot used to build the pipeline.
pub struct ResolvedConfig {
    /// The resolved verbosity filter.
    pub filter: FilterSpec,
    /// The directive string the installed filter is built from.
    pub directive: String,
    /// The chosen output format.
    pub format: OutputFormat,
    /// The options of the formatting layer.
    pub options: FmtOptions,
}

/// Resolve the configuration snapshot from the two raw values.
pub fn resolve_config(filter_raw: Option<&str>, format_raw: Option<&str>) -> (r: ResolvedConfig)
    ensures
        r.filter.model() == resolve_filter_model(raw_view(filter_raw)),
        r.directive@ == directive_model(raw_view(filter_raw)),
        r.format == resolve_format_model(raw_view(format_raw)),
        r.options == spec_fmt_options(r.format),
        parse_directives(r.directive@) == Some(r.filter.model()),
{
    proof {
        lemma_directive_means_resolved_filter(raw_view(filter_raw));
    }
    let format = resolve_format(format_raw);
    let (filter, directive): (FilterSpec, String) = match filter_raw {
        None => (FilterSpec::info_default(), String::from_str("info")),
        Some(s) => match parse_filter(s) {
            Some(f) => (f, String::from_str(s)),
            None => (FilterSpec::info_default(), String::from_str("info")),
        },
    };
    ResolvedConfig { filter, directive, format, options: fmt_options(format) }
}

/// Relies on tracing_subscriber's `Registry`, `EnvFilter::new`,
/// `SubscriberExt::with`, `fmt::layer` and `SubscriberInitExt::try_init`, and
/// on tracing_error's `ErrorLayer`: assembles filter, error-context layer and
/// compact stdout layer and registers them as the global subscriber; a
/// registration conflict is discarded.
#[verifier::external_body]
fn install_compact_pipeline(directive: &str, options: &FmtOptions)
    requires
        options.show_target,
        options.thread_ids,
        options.thread_names,
        options.span_close_events,
        !options.span_context,
{
    let _ = tracing_subscriber::registry::Registry::default()
        .with(tracing_subscriber::filter::EnvFilter::new(directive))
        .with(tracing_error::ErrorLayer::default())
        .with(
            tracing_subscriber::fmt::layer()
                .compact()
                .with_target(options.show_target)
                .with_thread_ids(options.thread_ids)
                .with_thread_names(options.thread_names)
                .with_span_events(tracing_subscriber::fmt::format::FmtSpan::CLOSE),
        )
        .try_init();
}

/// Relies on the same items as `install_compact_pipeline`, with the JSON
/// stdout layer and its span-context options instead of the compact one.
#[verifier::external_body]
fn install_json_pipeline(directive: &str, options: &FmtOptions)
    requires
        options.show_target,
        options.thread_ids,
        options.thread_names,
        options.span_close_events,
        options.span_context,
{
    let _ = tracing_subscriber::registry::Registry::default()
        .with(tracing_subscriber::filter::EnvFilter::new(directive))
        .with(tracing_error::ErrorLayer::default())
        .with(
            tracing_subscriber::fmt::layer()
                .json()
                .with_target(options.show_target)
                .with_thread_ids(options.thread_ids)
                .with_thread_names(options.thread_names)
                .with_current_span(options.span_context)
                .with_span_list(options.span_context)
                .with_span_events(tracing_subscriber::fmt::format::FmtSpan::CLOSE),
        )
        .try_init();
}

/// Resolve the configuration and install the global pipeline. Meant to run
/// inside the caller's one-shot guard; the returned snapshot says what was
/// installed.
pub fn initialize(filter_raw: Option<&str>, format_raw: Option<&str>) -> (r: ResolvedConfig)
    ensures
        r.filter.model() == resolve_filter_model(raw_view(filter_raw)),
        r.directive@ == directive_model(raw_view(filter_raw)),
        r.format == resolve_format_model(raw_view(format_raw)),
        r.options == spec_fmt_options(r.format),
        parse_directives(r.directive@) == Some(r.filter.model()),
{
    let cfg = resolve_config(filter_raw, format_raw);
    match cfg.format {
        OutputFormat::Json => install_json_pipeline(cfg.directive.as_str(), &cfg.options),
        OutputFormat::Compact => install_compact_pipeline(cfg.directive.as_str(), &cfg.options),
    }
    cfg
}

} // verus!
