use iii_core::cli_help::{
    classify_lookup_error, delegated, fn_help_description, fn_help_name, fn_help_parameters,
    mdx_only_notes, LookupFailure,
};
use iii_core::json::JsonValue;
use iii_core::terminal::{is_unsafe_terminal_char, parameters_md, sanitize_cell, sanitize_terminal, schema_type};

fn s(x: &str) -> JsonValue {
    JsonValue::String(x.to_string())
}

fn obj(members: Vec<(&str, JsonValue)>) -> JsonValue {
    JsonValue::Object(members.into_iter().map(|(k, v)| (k.to_string(), v)).collect())
}

#[test]
fn sanitize_terminal_strips_controls_but_keeps_newlines_and_multibyte() {
    assert_eq!(sanitize_terminal("a\u{1b}[31mb\u{7f}c"), "a[31mbc");
    assert_eq!(sanitize_terminal("line1\nline2"), "line1\nline2");
    assert_eq!(sanitize_terminal("\u{1b}\u{0007}"), "");
    assert_eq!(sanitize_terminal(""), "");
    assert_eq!(sanitize_terminal("caf\u{e9} \u{1f600}"), "caf\u{e9} \u{1f600}");
    assert_eq!(sanitize_terminal("a\u{202e}b\u{2066}c"), "abc");
}

#[test]
fn sanitize_cell_collapses_newlines_and_strips_controls() {
    assert_eq!(sanitize_cell("a\nb\tc"), "a b c");
    assert_eq!(sanitize_cell("x\u{1b}]8;;evil\u{7}y"), "x]8;;evily");
    assert_eq!(sanitize_cell("\u{7f}\u{0007}"), "");
    assert_eq!(sanitize_cell("a\u{202e}b"), "ab");
    assert_eq!(sanitize_cell("plain"), "plain");
}

#[test]
fn parameters_md_sanitizes_worker_controlled_name_and_type() {
    let meta = obj(vec![(
        "request_schema",
        obj(vec![(
            "properties",
            obj(vec![(
                "ev\u{1b}[31mil",
                obj(vec![("type", s("str\u{7f}ing")), ("description", s("d"))]),
            )]),
        )]),
    )]);
    let md = parameters_md(&meta).unwrap();
    assert!(!md.contains('\u{1b}'), "ESC must not reach the table: {md}");
    assert!(!md.contains('\u{7f}'), "DEL must not reach the table: {md}");
}

#[test]
fn parameters_md_prefers_request_schema_then_falls_back_to_request_format() {
    let with_new = obj(vec![(
        "request_schema",
        obj(vec![("properties", obj(vec![("name", obj(vec![("type", s("string"))]))]))]),
    )]);
    assert!(parameters_md(&with_new).is_some());

    let with_legacy = obj(vec![(
        "request_format",
        obj(vec![("properties", obj(vec![("name", obj(vec![("type", s("string"))]))]))]),
    )]);
    assert!(parameters_md(&with_legacy).is_some());
}

#[test]
fn parameters_md_none_when_empty_null_or_missing() {
    assert!(parameters_md(&obj(vec![("request_schema", obj(vec![("properties", obj(vec![]))]))])).is_none());
    assert!(parameters_md(&obj(vec![("request_schema", JsonValue::Null)])).is_none());
    assert!(parameters_md(&obj(vec![])).is_none());
}

#[test]
fn parameters_md_marks_required_fields_and_escapes_pipes() {
    let meta = obj(vec![(
        "request_schema",
        obj(vec![
            (
                "properties",
                obj(vec![
                    ("source", obj(vec![("description", s("where from")), ("type", s("object"))])),
                    ("wait", obj(vec![("type", JsonValue::Array(vec![s("boolean"), s("null")]))])),
                ]),
            ),
            ("required", JsonValue::Array(vec![s("source")])),
        ]),
    )]);
    let md = parameters_md(&meta).unwrap();
    assert!(md.contains("source"));
    assert!(md.contains("yes"), "required column marks `source` as yes");
    assert!(
        !md.contains("boolean|null"),
        "multi-type values must escape `|` so the markdown table doesn't split"
    );
}

#[test]
fn unsafe_terminal_chars_cover_controls_bidi_and_separators() {
    for c in ['\u{1b}', '\u{7f}', '\u{85}', '\u{202a}', '\u{202e}', '\u{2066}', '\u{2069}', '\u{2028}', '\u{2029}', '\n'] {
        assert!(is_unsafe_terminal_char(c), "{c:?}");
    }
    for c in ['a', ' ', '\u{e9}', '\u{202f}', '\u{2065}', '\u{1f600}'] {
        assert!(!is_unsafe_terminal_char(c), "{c:?}");
    }
}

#[test]
fn sanitizing_twice_changes_nothing() {
    let raw = "x\u{1b}[1m\ty\u{202e}\nz";
    let once = sanitize_terminal(raw);
    assert_eq!(sanitize_terminal(&once), once);
    let cell = sanitize_cell(raw);
    assert_eq!(sanitize_cell(&cell), cell);
    assert_eq!(cell, "x[1m y z");
}

#[test]
fn schema_type_joins_type_lists() {
    assert_eq!(schema_type(&obj(vec![("type", s("string"))])), "string");
    assert_eq!(
        schema_type(&obj(vec![("type", JsonValue::Array(vec![s("boolean"), s("null")]))])),
        "boolean|null"
    );
}

#[test]
fn lookup_error_classification() {
    assert_eq!(
        classify_lookup_error("Function NOT_FOUND: engine::functions::info"),
        LookupFailure::EngineWithoutInfo
    );
    assert_eq!(classify_lookup_error("function my::fn Not Found"), LookupFailure::FunctionNotFound);
    assert_eq!(classify_lookup_error("handler not registered"), LookupFailure::FunctionNotFound);
    assert_eq!(classify_lookup_error("connection refused"), LookupFailure::Other);
    assert_eq!(classify_lookup_error("engine::functions::info timed out"), LookupFailure::Other);
}

#[test]
fn function_help_sections() {
    let meta = obj(vec![("description", s("Adds\u{1b}[2J two numbers"))]);
    assert_eq!(fn_help_description(&meta), "Adds[2J two numbers");
    assert_eq!(fn_help_description(&obj(vec![])), "");
    assert_eq!(fn_help_description(&obj(vec![("description", JsonValue::Bool(true))])), "");
    assert_eq!(fn_help_name("math::add"), "iii trigger math::add");
    assert_eq!(
        fn_help_parameters(&obj(vec![])),
        "\n**Parameters:**\n\n  *(no request schema published)*\n"
    );
}

#[test]
fn docs_page_delegations_and_notes() {
    let d = delegated();
    let names: Vec<&str> = d.iter().map(|(k, _)| k.as_str()).collect();
    assert_eq!(names, vec!["cloud", "console", "worker"]);
    assert!(d[0].1.link.is_none());
    assert_eq!(d[1].1.link.as_deref(), Some("#iii-console"));
    assert_eq!(d[2].1.note, "Manage workers (add, remove, list, info).");
    let notes = mdx_only_notes();
    assert_eq!(notes.len(), 1);
    assert_eq!(notes[0].0, "iii trigger");
    assert!(notes[0].1.starts_with("<Note>\n"));
    assert!(notes[0].1.ends_with("\n</Note>"));
}
