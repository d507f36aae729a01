//! `iii trigger <fn> --help`: reading the engine's answer about a function
//! and the sections printed for it, and the docs-only parts of the CLI
//! reference page.

use vstd::prelude::*;
use crate::http_trace::str_contains;
use crate::json::{as_str, get, json_as_str, json_get, JsonValue};
use crate::terminal::{parameters_md, parameters_table, sanitize_terminal, sanitized_terminal};
use crate::text::{ascii_lower_seq, contains_seq, push_str, to_ascii_lowercase};

verus! {

/// What a failed lookup of a function's metadata means.
#[derive(Debug, Clone, Copy, PartialEq, Eq, Structural)]
pub enum LookupFailure {
    /// The engine predates the introspection function: show the static
    /// help.
    EngineWithoutInfo,
    /// The function is not registered: report it as not found.
    FunctionNotFound,
    /// Any other failure: show the static help with a warning.
    Other,
}

/// The error reads as a not-found error (ignoring ASCII case).
pub open spec fn looks_not_found(lower: Seq<char>) -> bool {
    contains_seq(lower, "not_found"@) || contains_seq(lower, "not found"@) || contains_seq(
        lower,
        "not registered"@,
    )
}

pub open spec fn lookup_failure_of(message: Seq<char>) -> LookupFailure {
    let lower = ascii_lower_seq(message);
    if looks_not_found(lower) && contains_seq(lower, "engine::functions::info"@) {
        LookupFailure::EngineWithoutInfo
    } else if looks_not_found(lower) {
        LookupFailure::FunctionNotFound
    } else {
        LookupFailure::Other
    }
}

/// Classifies the error of the `engine::functions::info` call: a not-found
/// error that names the introspection function itself means the engine
/// lacks it; any other not-found error means the target function is not
/// registered.
pub fn classify_lookup_error(message: &str) -> (r: LookupFailure)
    ensures
        r == lookup_failure_of(message@),
{
    let lower = to_ascii_lowercase(message);
    let l = lower.as_str();
    let not_found = str_contains(l, "not_found") || str_contains(l, "not found") || str_contains(
        l,
        "not registered",
    );
    if not_found && str_contains(l, "engine::functions::info") {
        LookupFailure::EngineWithoutInfo
    } else if not_found {
        LookupFailure::FunctionNotFound
    } else {
        LookupFailure::Other
    }
}

/// The description printed for a function: its `description` string,
/// sanitized for the terminal (empty when absent).
pub open spec fn help_description_of(meta: JsonValue) -> Seq<char> {
    sanitized_terminal(
        match json_get(meta, "description"@) {
            Some(d) => match json_as_str(d) {
                Some(s) => s,
                None => Seq::empty(),
            },
            None => Seq::empty(),
        },
    )
}

pub fn fn_help_description(meta: &JsonValue) -> (s: String)
    ensures
        s@ == help_description_of(*meta),
{
    let d = match get(meta, "description") {
        Some(v) => match as_str(v) {
            Some(s) => s.as_str(),
            None => "",
        },
        None => "",
    };
    proof {
        reveal_strlit("");
    }
    sanitize_terminal(d)
}

/// Title of a function's help: `iii trigger {fn_path}`.
pub fn fn_help_name(fn_path: &str) -> (s: String)
    ensures
        s@ == "iii trigger "@ + fn_path@,
{
    let mut s = String::new();
    push_str(&mut s, "iii trigger ");
    push_str(&mut s, fn_path);
    proof {
        assert(Seq::<char>::empty() + "iii trigger "@ =~= "iii trigger "@);
    }
    s
}

/// The parameters section: the table built from the request schema, or a
/// note that the function published none.
pub fn fn_help_parameters(meta: &JsonValue) -> (s: String)
    ensures
        s@ == match parameters_table(*meta) {
            Some(t) => t,
            None => "\n**Parameters:**\n\n  *(no request schema published)*\n"@,
        },
{
    match parameters_md(meta) {
        Some(t) => t,
        None => "\n**Parameters:**\n\n  *(no request schema published)*\n".to_owned(),
    }
}

/// A subcommand documented on another section of the reference page.
#[derive(Debug, Clone)]
pub struct Delegation {
    pub link: Option<String>,
    pub note: String,
}

/// The subcommands dispatched to other binaries, by name in ascending
/// order, with the section they link to and their note.
pub fn delegated() -> (entries: Vec<(String, Delegation)>)
    ensures
        entries@.len() == 3,
        entries@[0].0@ == "cloud"@,
        entries@[0].1.link is None,
        entries@[0].1.note@ == "Manage iii Cloud deployments. Dispatches to the external `iii-cloud` binary, which is temporarily maintained outside this repository; run `iii cloud --help` for its current surface."@,
        entries@[1].0@ == "console"@,
        entries@[1].1.link matches Some(l) && l@ == "#iii-console"@,
        entries@[1].1.note@ == "Launch the iii web console."@,
        entries@[2].0@ == "worker"@,
        entries@[2].1.link matches Some(l) && l@ == "#iii-worker"@,
        entries@[2].1.note@ == "Manage workers (add, remove, list, info)."@,
{
    let mut entries: Vec<(String, Delegation)> = Vec::new();
    entries.push(
        (
            "cloud".to_owned(),
            Delegation {
                link: None,
                note: "Manage iii Cloud deployments. Dispatches to the external `iii-cloud` binary, which is temporarily maintained outside this repository; run `iii cloud --help` for its current surface.".to_owned(),
            },
        ),
    );
    entries.push(
        (
            "console".to_owned(),
            Delegation {
                link: Some("#iii-console".to_owned()),
                note: "Launch the iii web console.".to_owned(),
            },
        ),
    );
    entries.push(
        (
            "worker".to_owned(),
            Delegation {
                link: Some("#iii-worker".to_owned()),
                note: "Manage workers (add, remove, list, info).".to_owned(),
            },
        ),
    );
    entries
}

/// Callouts added only to the page, keyed by command path.
pub fn mdx_only_notes() -> (notes: Vec<(String, String)>)
    ensures
        notes@.len() == 1,
        notes@[0].0@ == "iii trigger"@,
        notes@[0].1@ == "<Note>\n  `iii trigger <function> --help` additionally queries a running engine for the function's description and request schema. That output depends on which workers are registered and is not part of this page; see [Creating Workers / Functions](../creating-workers/functions#attach-request-and-response-schemas).\n</Note>"@,
{
    let mut notes: Vec<(String, String)> = Vec::new();
    notes.push(
        (
            "iii trigger".to_owned(),
            "<Note>\n  `iii trigger <function> --help` additionally queries a running engine for the function's description and request schema. That output depends on which workers are registered and is not part of this page; see [Creating Workers / Functions](../creating-workers/functions#attach-request-and-response-schemas).\n</Note>".to_owned(),
        ),
    );
    notes
}

} // verus!
