//! Rendering worker-supplied text for the terminal: `iii trigger <fn>
//! --help` prints the description and request schema that a worker
//! registered, so every such string is sanitized before it is printed.

use vstd::prelude::*;
use crate::json::{JsonValue, json_get, json_as_str, get, as_str};
use crate::text::{char_is_control, is_control, push_str};

verus! {

/// Characters a worker-supplied string must never carry onto the terminal:
/// control characters (ESC, C1, DEL), the bidi override/isolate ranges
/// U+202A..U+202E and U+2066..U+2069, and the separators U+2028/U+2029.
pub open spec fn unsafe_on_terminal(c: char) -> bool {
    let u = c as u32;
    is_control(c) || (0x202A <= u <= 0x202E) || (0x2066 <= u <= 0x2069) || u == 0x2028 || u
        == 0x2029
}

pub fn is_unsafe_terminal_char(c: char) -> (b: bool)
    ensures
        b == unsafe_on_terminal(c),
{
    let u = c as u32;
    char_is_control(c) || (0x202A <= u && u <= 0x202E) || (0x2066 <= u && u <= 0x2069) || u
        == 0x2028 || u == 0x2029
}

/// A character kept by `sanitize_terminal`: safe, or a newline.
pub open spec fn keep_in_terminal(c: char) -> bool {
    !unsafe_on_terminal(c) || c == '\n'
}

/// A character kept in a table cell.
pub open spec fn keep_in_cell(c: char) -> bool {
    !unsafe_on_terminal(c)
}

/// Newlines and tabs become spaces in a table cell.
pub open spec fn cell_char(c: char) -> char {
    if c == '\n' || c == '\t' {
        ' '
    } else {
        c
    }
}

pub open spec fn sanitized_terminal(s: Seq<char>) -> Seq<char> {
    s.filter(|c: char| keep_in_terminal(c))
}

pub open spec fn sanitized_cell(s: Seq<char>) -> Seq<char> {
    s.map_values(|c: char| cell_char(c)).filter(|c: char| keep_in_cell(c))
}

proof fn lemma_filter_take_step(s: Seq<char>, i: int, p: spec_fn(char) -> bool)
    requires
        0 <= i < s.len(),
    ensures
        s.take(i + 1).filter(p) == if p(s[i]) {
            s.take(i).filter(p).push(s[i])
        } else {
            s.take(i).filter(p)
        },
{
    reveal(Seq::filter);
    assert(s.take(i + 1).drop_last() =~= s.take(i));
}

proof fn lemma_filter_idempotent(s: Seq<char>, p: spec_fn(char) -> bool)
    ensures
        s.filter(p).filter(p) == s.filter(p),
    decreases s.len(),
{
    reveal(Seq::filter);
    if s.len() > 0 {
        lemma_filter_idempotent(s.drop_last(), p);
        if p(s.last()) {
            let f = s.drop_last().filter(p);
            assert(f.push(s.last()).drop_last() =~= f);
        }
    }
}

proof fn lemma_filter_all(s: Seq<char>, p: spec_fn(char) -> bool)
    ensures
        forall|i: int| 0 <= i < s.filter(p).len() ==> p(#[trigger] s.filter(p)[i]),
{
    broadcast use Seq::lemma_filter_pred;
}

/// Strips every unsafe character except `'\n'` (descriptions may span
/// lines). Multi-byte text is kept as it is.
pub fn sanitize_terminal(s: &str) -> (out: String)
    ensures
        out@ == sanitized_terminal(s@),
        forall|i: int| 0 <= i < out@.len() ==> keep_in_terminal(#[trigger] out@[i]),
{
    let mut out = String::new();
    let ghost p = |c: char| keep_in_terminal(c);
    proof {
        reveal(Seq::filter);
        assert(s@.take(0) =~= Seq::<char>::empty());
    }
    for c in it: s.chars()
        invariant
            it.seq() == s@,
            p == (|c: char| keep_in_terminal(c)),
            out@ == s@.take(it.index() as int).filter(p),
    {
        let ghost i = it.index() as int;
        let ghost before = out@;
        proof {
            lemma_filter_take_step(s@, i, p);
            assert(s@.take(i + 1).last() == c);
            assert(s@[i] == c);
        }
        if !is_unsafe_terminal_char(c) || c == '\n' {
            out.push(c);
            proof {
                assert(p(c));
            }
        } else {
            proof {
                assert(!p(c));
            }
        }
    }
    proof {
        assert(s@.take(s@.len() as int) =~= s@);
        lemma_filter_all(s@, p);
    }
    out
}

/// Like `sanitize_terminal`, for one markdown table cell: newlines and tabs
/// become spaces (a cell stays on one row) and every remaining unsafe
/// character is stripped.
pub fn sanitize_cell(s: &str) -> (out: String)
    ensures
        out@ == sanitized_cell(s@),
        forall|i: int|
            0 <= i < out@.len() ==> keep_in_cell(#[trigger] out@[i]) && out@[i] != '\n'
                && out@[i] != '\t',
{
    let mut out = String::new();
    let ghost p = |c: char| keep_in_cell(c);
    let ghost f = |c: char| cell_char(c);
    proof {
        reveal(Seq::filter);
        assert(s@.map_values(f).take(0) =~= Seq::<char>::empty());
    }
    for c in it: s.chars()
        invariant
            it.seq() == s@,
            p == (|c: char| keep_in_cell(c)),
            f == (|c: char| cell_char(c)),
            out@ == s@.map_values(f).take(it.index() as int).filter(p),
    {
        let ghost i = it.index() as int;
        proof {
            lemma_filter_take_step(s@.map_values(f), i, p);
        }
        proof {
            assert(s@.take(i + 1).last() == c);
            assert(s@[i] == c);
            assert(s@.map_values(f)[i] == cell_char(c));
        }
        let d = if c == '\n' || c == '\t' {
            ' '
        } else {
            c
        };
        if !is_unsafe_terminal_char(d) {
            out.push(d);
            proof {
                assert(p(d));
            }
        } else {
            proof {
                assert(!p(d));
            }
        }
    }
    proof {
        assert(s@.map_values(f).take(s@.len() as int) =~= s@.map_values(f));
        lemma_filter_all(s@.map_values(f), p);
        let m = s@.map_values(f);
        assert forall|i: int| 0 <= i < out@.len() implies keep_in_cell(#[trigger] out@[i])
            && out@[i] != '\n' && out@[i] != '\t' by {
            assert(p(m.filter(p)[i]));
            assert(m.filter(p).contains(out@[i]));
            broadcast use Seq::lemma_filter_contains_rev;
            assert(m.contains(out@[i]));
            let k = choose|k: int| 0 <= k < m.len() && m[k] == out@[i];
            assert(m[k] == cell_char(s@[k]));
        }
    }
    out
}

/// Sanitizing twice is sanitizing once.
pub proof fn law_sanitize_terminal_idempotent(s: Seq<char>)
    ensures
        sanitized_terminal(sanitized_terminal(s)) == sanitized_terminal(s),
{
    lemma_filter_idempotent(s, |c: char| keep_in_terminal(c));
}

/// Sanitizing a cell twice is sanitizing it once.
pub proof fn law_sanitize_cell_idempotent(s: Seq<char>)
    ensures
        sanitized_cell(sanitized_cell(s)) == sanitized_cell(s),
{
    let f = |c: char| cell_char(c);
    let p = |c: char| keep_in_cell(c);
    let once = sanitized_cell(s);
    broadcast use Seq::lemma_filter_pred;

    assert(once.map_values(f) =~= once) by {
        assert forall|i: int| 0 <= i < once.len() implies once.map_values(f)[i] == once[i] by {
            assert(p(s.map_values(f).filter(p)[i]));
            // a kept character is not a control character, so not '\n' or '\t'
            assert(once[i] != '\n' && once[i] != '\t');
        }
    }
    lemma_filter_idempotent(s.map_values(f), p);
}

// ---------------------------------------------------------------------------
// The parameters table
// ---------------------------------------------------------------------------

/// `s.replace('|', "\\|")`.
pub open spec fn escape_pipes(s: Seq<char>) -> Seq<char>
    decreases s.len(),
{
    if s.len() == 0 {
        s
    } else {
        escape_pipes(s.drop_last()) + if s.last() == '|' {
            seq!['\\', '|']
        } else {
            seq![s.last()]
        }
    }
}

/// The strings among `vs`, in order.
pub open spec fn strings_of(vs: Seq<JsonValue>) -> Seq<Seq<char>>
    decreases vs.len(),
{
    if vs.len() == 0 {
        Seq::<Seq<char>>::empty()
    } else {
        let r = strings_of(vs.drop_last());
        match json_as_str(vs.last()) {
            Some(s) => r.push(s),
            None => r,
        }
    }
}

/// `parts.join("|")`.
pub open spec fn join_pipe(parts: Seq<Seq<char>>) -> Seq<char>
    decreases parts.len(),
{
    if parts.len() == 0 {
        Seq::<char>::empty()
    } else if parts.len() == 1 {
        parts[0]
    } else {
        join_pipe(parts.drop_last()) + seq!['|'] + parts.last()
    }
}

/// The declared `type` of a property schema: the string, or the strings of
/// a type array joined with `|`, or `any`.
pub open spec fn schema_type_of(schema: JsonValue) -> Seq<char> {
    match json_get(schema, "type"@) {
        Some(JsonValue::String(s)) => s@,
        Some(JsonValue::Array(arr)) => join_pipe(strings_of(arr@)),
        _ => "any"@,
    }
}

/// The request schema published in a function's metadata: `request_schema`,
/// or the legacy `request_format` when that key is absent; `None` when
/// neither is present or the value is `null`.
pub open spec fn request_schema_of(meta: JsonValue) -> Option<JsonValue> {
    let found = match json_get(meta, "request_schema"@) {
        Some(x) => Some(x),
        None => json_get(meta, "request_format"@),
    };
    match found {
        Some(JsonValue::Null) => None,
        other => other,
    }
}

pub open spec fn description_of(prop: JsonValue) -> Seq<char> {
    match json_get(prop, "description"@) {
        Some(JsonValue::String(s)) => s@,
        _ => Seq::<char>::empty(),
    }
}

pub open spec fn required_of(schema: JsonValue) -> Seq<Seq<char>> {
    match json_get(schema, "required"@) {
        Some(JsonValue::Array(a)) => strings_of(a@),
        _ => Seq::<Seq<char>>::empty(),
    }
}

/// One table row: sanitized name, escaped sanitized type, whether the
/// property is required, escaped sanitized description.
pub open spec fn param_row(name: Seq<char>, prop: JsonValue, required: Seq<Seq<char>>) -> Seq<
    char,
> {
    "|`"@ + sanitized_cell(name) + "`|"@ + escape_pipes(sanitized_cell(schema_type_of(prop)))
        + "|"@ + (if required.contains(name) {
        "yes"@
    } else {
        "no"@
    }) + "|"@ + escape_pipes(sanitized_cell(description_of(prop))) + "|\n"@
}

pub open spec fn param_rows(props: Seq<(String, JsonValue)>, required: Seq<Seq<char>>) -> Seq<
    char,
>
    decreases props.len(),
{
    if props.len() == 0 {
        Seq::<char>::empty()
    } else {
        param_rows(props.drop_last(), required) + param_row(
            props.last().0@,
            props.last().1,
            required,
        )
    }
}

pub open spec fn table_header() -> Seq<char> {
    "\n**Parameters:**\n|:-:|:-:|:-:|:-|\n|name|type|required|description|\n|:-:|:-|:-:|:-|\n"@
}

/// The markdown Parameters table of a function's request schema: a header,
/// one row per property in order, and a closing `|-` line. `None` when there
/// is no schema, its `properties` is missing or not an object, or it has no
/// properties.
pub open spec fn parameters_table(meta: JsonValue) -> Option<Seq<char>> {
    match request_schema_of(meta) {
        None => None,
        Some(schema) => match json_get(schema, "properties"@) {
            Some(JsonValue::Object(props)) => if props@.len() == 0 {
                None
            } else {
                Some(table_header() + param_rows(props@, required_of(schema)) + "|-\n"@)
            },
            _ => None,
        },
    }
}

fn escape_pipes_exec(s: &String) -> (out: String)
    ensures
        out@ == escape_pipes(s@),
{
    let mut out = String::new();
    let ghost v = s@;
    proof {
        assert(v.take(0) =~= Seq::<char>::empty());
    }
    for c in it: s.as_str().chars()
        invariant
            it.seq() == v,
            v == s@,
            out@ == escape_pipes(v.take(it.index() as int)),
    {
        let ghost i = it.index() as int;
        let ghost before = out@;
        proof {
            assert(v.take(i + 1).drop_last() =~= v.take(i));
            assert(v.take(i + 1).last() == c);
        }
        if c == '|' {
            out.push('\\');
            out.push('|');
            proof {
                assert(out@ =~= before + seq!['\\', '|']);
            }
        } else {
            out.push(c);
            proof {
                assert(out@ =~= before + seq![c]);
            }
        }
    }
    proof {
        assert(v.take(v.len() as int) =~= v);
    }
    out
}

/// The strings among `vs` (`filter_map(as_str)`).
fn strings_in(vs: &Vec<JsonValue>) -> (out: Vec<&String>)
    ensures
        out@.map_values(|s: &String| s@) == strings_of(vs@),
{
    let mut out: Vec<&String> = Vec::new();
    let mut i: usize = 0;
    proof {
        assert(vs@.take(0) =~= Seq::<JsonValue>::empty());
        assert(out@.map_values(|s: &String| s@) =~= Seq::<Seq<char>>::empty());
    }
    while i < vs.len()
        invariant
            i <= vs@.len(),
            out@.map_values(|s: &String| s@) == strings_of(vs@.take(i as int)),
        decreases vs@.len() - i,
    {
        proof {
            assert(vs@.take(i + 1).drop_last() =~= vs@.take(i as int));
            assert(vs@.take(i + 1).last() == vs@[i as int]);
        }
        let ghost before = out@;
        match as_str(&vs[i]) {
            Some(s) => {
                out.push(s);
                proof {
                    assert(out@.map_values(|s: &String| s@) =~= before.map_values(
                        |s: &String| s@,
                    ).push(s@));
                }
            },
            None => {},
        }
        i = i + 1;
    }
    proof {
        assert(vs@.take(vs@.len() as int) =~= vs@);
    }
    out
}

/// The declared type of a property schema, rendered for the table.
pub fn schema_type(schema: &JsonValue) -> (out: String)
    ensures
        out@ == schema_type_of(*schema),
{
    match get(schema, "type") {
        Some(JsonValue::String(s)) => s.clone(),
        Some(JsonValue::Array(arr)) => {
            let parts = strings_in(arr);
            let ghost pv = parts@.map_values(|s: &String| s@);
            let mut out = String::new();
            let mut k: usize = 0;
            proof {
                assert(pv.take(0) =~= Seq::<Seq<char>>::empty());
            }
            while k < parts.len()
                invariant
                    k <= parts@.len(),
                    pv == parts@.map_values(|s: &String| s@),
                    out@ == join_pipe(pv.take(k as int)),
                decreases parts@.len() - k,
            {
                let ghost before = out@;
                if k > 0 {
                    out.push('|');
                }
                push_str(&mut out, parts[k].as_str());
                proof {
                    assert(pv[k as int] == parts@[k as int]@);
                    assert(pv.take(k + 1).drop_last() =~= pv.take(k as int));
                    if k == 0 {
                        assert(out@ =~= pv.take(1)[0]);
                    } else {
                        assert(out@ =~= before + seq!['|'] + pv[k as int]);
                    }
                }
                k = k + 1;
            }
            proof {
                assert(pv.take(parts@.len() as int) =~= pv);
            }
            out
        },
        _ => {
            let mut out = String::new();
            push_str(&mut out, "any");
            proof {
                assert(out@ =~= "any"@);
            }
            out
        },
    }
}

fn contains_name(names: &Vec<&String>, name: &String) -> (r: bool)
    ensures
        r == names@.map_values(|s: &String| s@).contains(name@),
{
    let ghost nv = names@.map_values(|s: &String| s@);
    let mut i: usize = 0;
    while i < names.len()
        invariant
            i <= names@.len(),
            nv == names@.map_values(|s: &String| s@),
            forall|j: int| 0 <= j < i ==> nv[j] != name@,
        decreases names@.len() - i,
    {
        if crate::json::str_equal(names[i], name) {
            proof {
                assert(nv[i as int] == name@);
            }
            return true;
        }
        i = i + 1;
    }
    false
}

/// The Parameters table for the `--help` output of a function, built from
/// the request schema in its metadata. Every worker-controlled field (name,
/// type, description) is sanitized for a single table cell, and `|` in the
/// type and description is escaped so a value like `string|null` does not
/// split the row.
pub fn parameters_md(meta: &JsonValue) -> (r: Option<String>)
    ensures
        r matches Some(s) ==> parameters_table(*meta) == Some(s@),
        r is None ==> parameters_table(*meta) is None,
{
    let found = match get(meta, "request_schema") {
        Some(x) => Some(x),
        None => get(meta, "request_format"),
    };
    let schema = match found {
        Some(JsonValue::Null) => {
            return None;
        },
        Some(x) => x,
        None => {
            return None;
        },
    };
    let props = match get(schema, "properties") {
        Some(JsonValue::Object(m)) => m,
        _ => {
            return None;
        },
    };
    if props.len() == 0 {
        return None;
    }
    let required: Vec<&String> = match get(schema, "required") {
        Some(JsonValue::Array(a)) => strings_in(a),
        _ => Vec::new(),
    };
    let ghost req = required@.map_values(|s: &String| s@);
    proof {
        assert(req == required_of(*schema)) by {
            if !(json_get(*schema, "required"@) matches Some(JsonValue::Array(_))) {
                assert(req =~= Seq::<Seq<char>>::empty());
            }
        }
    }
    let mut md = String::new();
    push_str(
        &mut md,
        "\n**Parameters:**\n|:-:|:-:|:-:|:-|\n|name|type|required|description|\n|:-:|:-|:-:|:-|\n",
    );
    let ghost header = md@;
    let mut i: usize = 0;
    proof {
        assert(props@.take(0) =~= Seq::<(String, JsonValue)>::empty());
        assert(header =~= table_header());
    }
    while i < props.len()
        invariant
            i <= props@.len(),
            req == required@.map_values(|s: &String| s@),
            md@ == header + param_rows(props@.take(i as int), req),
        decreases props@.len() - i,
    {
        let name = &props[i].0;
        let prop = &props[i].1;
        let ghost before = md@;
        let ty = escape_pipes_exec(&sanitize_cell(schema_type(prop).as_str()));
        let req_text = if contains_name(&required, name) {
            "yes"
        } else {
            "no"
        };
        let desc_src: &str = match get(prop, "description") {
            Some(JsonValue::String(d)) => d.as_str(),
            _ => "",
        };
        proof {
            assert(desc_src@ == description_of(*prop)) by {
                if !(json_get(*prop, "description"@) matches Some(JsonValue::String(_))) {
                    assert(""@ =~= Seq::<char>::empty()) by {
                        reveal_strlit("");
                    }
                }
            }
        }
        let desc = escape_pipes_exec(&sanitize_cell(desc_src));
        push_str(&mut md, "|`");
        push_str(&mut md, sanitize_cell(name.as_str()).as_str());
        push_str(&mut md, "`|");
        push_str(&mut md, ty.as_str());
        push_str(&mut md, "|");
        push_str(&mut md, req_text);
        push_str(&mut md, "|");
        push_str(&mut md, desc.as_str());
        push_str(&mut md, "|\n");
        proof {
            assert(props@.take(i + 1).drop_last() =~= props@.take(i as int));
            assert(props@.take(i + 1).last() == props@[i as int]);
            let row = param_row(name@, *prop, req);
            assert(md@ =~= before + row);
        }
        i = i + 1;
    }
    push_str(&mut md, "|-\n");
    proof {
        assert(props@.take(props@.len() as int) =~= props@);
    }
    Some(md)
}

/// `name` is listed among the strings of the schema's `required` array.
pub open spec fn listed_required(schema: JsonValue, name: Seq<char>) -> bool {
    match json_get(schema, "required"@) {
        Some(JsonValue::Array(a)) => exists|j: int|
            0 <= j < a@.len() && (#[trigger] a@[j] matches JsonValue::String(s) && s@ == name),
        _ => false,
    }
}

proof fn lemma_strings_of_contains(vs: Seq<JsonValue>, name: Seq<char>)
    ensures
        strings_of(vs).contains(name) <==> exists|j: int|
            0 <= j < vs.len() && (#[trigger] vs[j] matches JsonValue::String(s) && s@ == name),
    decreases vs.len(),
{
    if vs.len() > 0 {
        let d = vs.drop_last();
        lemma_strings_of_contains(d, name);
        let r = strings_of(d);
        if exists|j: int| 0 <= j < d.len() && (#[trigger] d[j] matches JsonValue::String(s) && s@
            == name) {
            let j = choose|j: int|
                0 <= j < d.len() && (#[trigger] d[j] matches JsonValue::String(s) && s@ == name);
            assert(vs[j] == d[j]);
        }
        if exists|j: int| 0 <= j < vs.len() && (#[trigger] vs[j] matches JsonValue::String(s) && s@
            == name) {
            let j = choose|j: int|
                0 <= j < vs.len() && (#[trigger] vs[j] matches JsonValue::String(s) && s@ == name);
            if j < d.len() {
                assert(d[j] == vs[j]);
            } else {
                assert(vs.last() == vs[j]);
            }
        }
        match json_as_str(vs.last()) {
            Some(t) => {
                let rp = r.push(t);
                if rp.contains(name) {
                    let i = choose|i: int| 0 <= i < rp.len() && rp[i] == name;
                    if i < r.len() {
                        assert(r[i] == name);
                    } else {
                        assert(vs[vs.len() - 1] == vs.last());
                    }
                }
                if r.contains(name) {
                    let i = choose|i: int| 0 <= i < r.len() && r[i] == name;
                    assert(rp[i] == name);
                }
                if t == name {
                    assert(rp[r.len() as int] == name);
                }
            },
            None => {
                if exists|j: int| 0 <= j < vs.len() && (#[trigger] vs[j] matches JsonValue::String(s)
                    && s@ == name) {
                    let j = choose|j: int|
                        0 <= j < vs.len() && (#[trigger] vs[j] matches JsonValue::String(s) && s@
                            == name);
                    if j == vs.len() - 1 {
                        assert(vs.last() == vs[j]);
                    }
                }
            },
        }
    }
}

proof fn lemma_param_rows_append(
    a: Seq<(String, JsonValue)>,
    b: Seq<(String, JsonValue)>,
    required: Seq<Seq<char>>,
)
    ensures
        param_rows(a + b, required) == param_rows(a, required) + param_rows(b, required),
    decreases b.len(),
{
    if b.len() == 0 {
        assert(a + b =~= a);
        assert(param_rows(a, required) + Seq::<char>::empty() =~= param_rows(a, required));
    } else {
        assert((a + b).drop_last() =~= a + b.drop_last());
        assert((a + b).last() == b.last());
        lemma_param_rows_append(a, b.drop_last(), required);
        assert(param_rows(a + b, required) =~= param_rows(a, required) + param_rows(b, required));
    }
}

proof fn lemma_param_rows_split(props: Seq<(String, JsonValue)>, k: int, req: Seq<Seq<char>>)
    requires
        0 <= k < props.len(),
    ensures
        param_rows(props, req) == param_rows(props.take(k), req) + param_row(
            props[k].0@,
            props[k].1,
            req,
        ) + param_rows(props.skip(k + 1), req),
{
    let head = props.take(k + 1);
    let tail = props.skip(k + 1);
    assert(props =~= head + tail);
    lemma_param_rows_append(head, tail, req);
    assert(head.drop_last() =~= props.take(k));
    assert(head.last() == props[k]);
}

proof fn lemma_param_row_spelled(name: Seq<char>, prop: JsonValue, schema: JsonValue)
    ensures
        param_row(name, prop, required_of(schema)) == "|`"@ + sanitized_cell(name) + "`|"@
            + escape_pipes(sanitized_cell(schema_type_of(prop))) + "|"@ + (if listed_required(
            schema,
            name,
        ) {
            "yes"@
        } else {
            "no"@
        }) + "|"@ + escape_pipes(sanitized_cell(description_of(prop))) + "|\n"@,
{
    let req = required_of(schema);
    match json_get(schema, "required"@) {
        Some(JsonValue::Array(a)) => {
            lemma_strings_of_contains(a@, name);
        },
        _ => {
            assert(req.len() == 0);
        },
    }
    assert(req.contains(name) <==> listed_required(schema, name));
}

/// Each property of the request schema gets its row in the Parameters
/// table, between the rows of the properties listed before and after it:
/// its sanitized name in backticks, its type, `yes` in the required
/// column exactly when its name is listed in the schema's `required` array
/// (`no` otherwise), and its description.
pub proof fn law_parameter_row_marks_required(meta: JsonValue, schema: JsonValue, k: int)
    requires
        request_schema_of(meta) == Some(schema),
        json_get(schema, "properties"@) matches Some(JsonValue::Object(props)) && 0 <= k
            < props@.len(),
    ensures
        ({
            let props = json_get(schema, "properties"@)->0->Object_0@;
            let name = props[k].0@;
            let prop = props[k].1;
            parameters_table(meta) == Some(
                table_header() + (param_rows(props.take(k), required_of(schema)) + ("|`"@
                    + sanitized_cell(name) + "`|"@ + escape_pipes(
                    sanitized_cell(schema_type_of(prop)),
                ) + "|"@ + (if listed_required(schema, name) {
                    "yes"@
                } else {
                    "no"@
                }) + "|"@ + escape_pipes(sanitized_cell(description_of(prop))) + "|\n"@)
                    + param_rows(props.skip(k + 1), required_of(schema))) + "|-\n"@,
            )
        }),
{
    let props = json_get(schema, "properties"@)->0->Object_0@;
    lemma_param_rows_split(props, k, required_of(schema));
    lemma_param_row_spelled(props[k].0@, props[k].1, schema);
}

} // verus!
