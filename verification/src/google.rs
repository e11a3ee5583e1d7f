//! The worked provider adapter: translation between the canonical
//! conversation model and a Gemini-style wire format, the tool-schema
//! filter, and the response parser.  The HTTP exchange itself lives outside
//! the library; everything here is pure translation.
use vstd::prelude::*;
use vstd::string::*;
use crate::json::{JsonValue, JsonV, json_view, views_of_arr, views_of_obj, obj_lookup, spec_get,
    json_obj, json_str, json_arr, json_clone, obj_get, lemma_json_obj_view, lemma_json_arr_view};
use crate::message::{Role, Message, MessageV, MessageContent, MessageContentV, Content, ContentV,
    ToolCall, ToolCallV, ToolError, ToolErrorV, Tool, ToolV, spec_error_text, spec_unannotated,
    spec_visible_to_assistant};
use crate::strings::str_eq;
use crate::usage::Usage;
use crate::errors::{ProviderError, ProviderErrorV};
use crate::utils::{spec_is_valid_name, is_valid_function_name, spec_dec_digits, u16_to_dec};

verus! {

broadcast use vstd::std_specs::vec::axiom_vec_index_decreases, vstd::seq::axiom_seq_index_decreases;

/// The role token the wire format knows: `user`, or `model` for everything
/// else.
pub open spec fn spec_role_token(r: Role) -> Seq<char> {
    if r == Role::User {
        "user"@
    } else {
        "model"@
    }
}

/// A wire text part.
pub open spec fn spec_text_part(t: Seq<char>) -> JsonV {
    JsonV::Obj(seq![("text"@, JsonV::Str(t))])
}

/// The body of a function-call part: the name, and the arguments only when
/// they form a non-empty object.
pub open spec fn spec_function_call(call: ToolCallV) -> JsonV {
    if call.arguments is Obj && call.arguments->Obj_0.len() > 0 {
        JsonV::Obj(seq![("name"@, JsonV::Str(call.name)), ("args"@, call.arguments)])
    } else {
        JsonV::Obj(seq![("name"@, JsonV::Str(call.name))])
    }
}

/// A wire function-call part.
pub open spec fn spec_function_call_part(call: ToolCallV) -> JsonV {
    JsonV::Obj(seq![("functionCall"@, spec_function_call(call))])
}

/// The JSON an unannotated tool-result item serializes to.
pub open spec fn spec_content_json(c: ContentV) -> JsonV {
    match c {
        ContentV::Text { text, .. } => JsonV::Obj(
            seq![("type"@, JsonV::Str("text"@)), ("text"@, JsonV::Str(text))],
        ),
        ContentV::Image { mime_type, data, .. } => JsonV::Obj(
            seq![
                ("type"@, JsonV::Str("image"@)),
                ("mimeType"@, JsonV::Str(mime_type)),
                ("data"@, JsonV::Str(data)),
            ],
        ),
    }
}

/// A wire function-response part, keyed by the originating request id.
pub open spec fn spec_function_response_part(id: Seq<char>, content: JsonV) -> JsonV {
    JsonV::Obj(
        seq![
            (
                "functionResponse"@,
                JsonV::Obj(
                    seq![
                        ("name"@, JsonV::Str(id)),
                        ("response"@, JsonV::Obj(seq![("content"@, content)])),
                    ],
                ),
            ),
        ],
    )
}

/// The parts a successful tool result yields: one function-response part
/// for each item the assistant may see, images left out.
pub open spec fn spec_response_parts(id: Seq<char>, items: Seq<ContentV>, i: int) -> Seq<JsonV>
    decreases items.len() - i,
{
    if 0 <= i < items.len() {
        let rest = spec_response_parts(id, items, i + 1);
        if spec_visible_to_assistant(items[i]) && !(items[i] is Image) {
            seq![
                spec_function_response_part(id, spec_content_json(spec_unannotated(items[i]))),
            ] + rest
        } else {
            rest
        }
    } else {
        Seq::empty()
    }
}

/// The wire parts one content item yields.
pub open spec fn spec_parts_of_item(c: MessageContentV) -> Seq<JsonV> {
    match c {
        MessageContentV::Text { text } => if text.len() == 0 {
            Seq::empty()
        } else {
            seq![spec_text_part(text)]
        },
        MessageContentV::ToolRequest { id, tool_call } => match tool_call {
            Ok(call) => seq![spec_function_call_part(call)],
            Err(e) => seq![spec_text_part("Error: "@ + spec_error_text(e))],
        },
        MessageContentV::ToolResponse { id, tool_result } => match tool_result {
            Ok(items) => spec_response_parts(id, items, 0),
            Err(e) => seq![spec_text_part("Error: "@ + spec_error_text(e))],
        },
    }
}

/// The wire parts of a whole content sequence, in conversation order.
pub open spec fn spec_parts_of_content(content: Seq<MessageContentV>, i: int) -> Seq<JsonV>
    decreases content.len() - i,
{
    if 0 <= i < content.len() {
        spec_parts_of_item(content[i]) + spec_parts_of_content(content, i + 1)
    } else {
        Seq::empty()
    }
}

/// The wire object one message becomes.
pub open spec fn spec_message_wire(m: MessageV) -> JsonV {
    JsonV::Obj(
        seq![
            ("role"@, JsonV::Str(spec_role_token(m.role))),
            ("parts"@, JsonV::Arr(spec_parts_of_content(m.content, 0))),
        ],
    )
}

/// The wire objects of a message sequence, in order.
pub open spec fn spec_messages_wire(ms: Seq<MessageV>) -> Seq<JsonV> {
    Seq::new(ms.len(), |i: int| spec_message_wire(ms[i]))
}

fn text_part(t: String) -> (r: JsonValue)
    ensures
        json_view(&r) == spec_text_part(t@),
{
    let ghost tv = t@;
    let mut entries: Vec<(String, JsonValue)> = Vec::new();
    entries.push((String::from_str("text"), JsonValue::Str(t)));
    let r = json_obj(entries);
    proof {
        assert(views_of_obj(entries@)[0] == ("text"@, JsonV::Str(tv)));
        assert(views_of_obj(entries@) =~= seq![("text"@, JsonV::Str(tv))]);
    }
    r
}

fn error_text_part(e: &ToolError) -> (r: JsonValue)
    ensures
        json_view(&r) == spec_text_part("Error: "@ + spec_error_text(e@)),
{
    let mut m = String::new();
    m.append("Error: ");
    let t = e.error_text();
    m.append(t.as_str());
    text_part(m)
}

fn function_call_part(call: &ToolCall) -> (r: JsonValue)
    ensures
        json_view(&r) == spec_function_call_part(call@),
{
    let mut inner: Vec<(String, JsonValue)> = Vec::new();
    inner.push((String::from_str("name"), JsonValue::Str(call.name.clone())));
    let has_args = match &call.arguments {
        JsonValue::Obj(entries) => entries.len() > 0,
        _ => false,
    };
    if has_args {
        inner.push((String::from_str("args"), json_clone(&call.arguments)));
        proof {
            assert(views_of_obj(inner@)[0] == ("name"@, JsonV::Str(call.name@)));
            assert(views_of_obj(inner@)[1] == ("args"@, call@.arguments));
            assert(views_of_obj(inner@) =~= seq![
                ("name"@, JsonV::Str(call.name@)),
                ("args"@, call@.arguments),
            ]);
        }
    } else {
        proof {
            assert(views_of_obj(inner@)[0] == ("name"@, JsonV::Str(call.name@)));
            assert(views_of_obj(inner@) =~= seq![("name"@, JsonV::Str(call.name@))]);
        }
    }
    let inner_obj = json_obj(inner);
    let mut outer: Vec<(String, JsonValue)> = Vec::new();
    outer.push((String::from_str("functionCall"), inner_obj));
    let r = json_obj(outer);
    proof {
        assert(views_of_obj(outer@)[0] == ("functionCall"@, spec_function_call(call@)));
        assert(views_of_obj(outer@) =~= seq![("functionCall"@, spec_function_call(call@))]);
    }
    r
}

fn content_json(c: &Content) -> (r: JsonValue)
    ensures
        json_view(&r) == spec_content_json(c@),
{
    match c {
        Content::Text { text, .. } => {
            let mut entries: Vec<(String, JsonValue)> = Vec::new();
            entries.push((String::from_str("type"), json_str("text")));
            entries.push((String::from_str("text"), JsonValue::Str(text.clone())));
            let r = json_obj(entries);
            proof {
                assert(views_of_obj(entries@)[0] == ("type"@, JsonV::Str("text"@)));
                assert(views_of_obj(entries@)[1] == ("text"@, JsonV::Str(text@)));
                assert(views_of_obj(entries@) =~= spec_content_json(c@)->Obj_0);
            }
            r
        },
        Content::Image { mime_type, data, .. } => {
            let mut entries: Vec<(String, JsonValue)> = Vec::new();
            entries.push((String::from_str("type"), json_str("image")));
            entries.push((String::from_str("mimeType"), JsonValue::Str(mime_type.clone())));
            entries.push((String::from_str("data"), JsonValue::Str(data.clone())));
            let r = json_obj(entries);
            proof {
                assert(views_of_obj(entries@)[0] == ("type"@, JsonV::Str("image"@)));
                assert(views_of_obj(entries@)[1] == ("mimeType"@, JsonV::Str(mime_type@)));
                assert(views_of_obj(entries@)[2] == ("data"@, JsonV::Str(data@)));
                assert(views_of_obj(entries@) =~= spec_content_json(c@)->Obj_0);
            }
            r
        },
    }
}

fn function_response_part(id: &String, content: JsonValue) -> (r: JsonValue)
    ensures
        json_view(&r) == spec_function_response_part(id@, json_view(&content)),
{
    let ghost cv = json_view(&content);
    let mut wrap: Vec<(String, JsonValue)> = Vec::new();
    wrap.push((String::from_str("content"), content));
    let wrap_obj = json_obj(wrap);
    proof {
        assert(views_of_obj(wrap@)[0] == ("content"@, cv));
        assert(views_of_obj(wrap@) =~= seq![("content"@, cv)]);
    }
    let mut inner: Vec<(String, JsonValue)> = Vec::new();
    inner.push((String::from_str("name"), JsonValue::Str(id.clone())));
    inner.push((String::from_str("response"), wrap_obj));
    let inner_obj = json_obj(inner);
    proof {
        assert(views_of_obj(inner@)[0] == ("name"@, JsonV::Str(id@)));
        assert(views_of_obj(inner@)[1] == ("response"@, JsonV::Obj(seq![("content"@, cv)])));
        assert(views_of_obj(inner@) =~= spec_function_response_part(id@, cv)->Obj_0[0].1->Obj_0);
    }
    let mut outer: Vec<(String, JsonValue)> = Vec::new();
    outer.push((String::from_str("functionResponse"), inner_obj));
    let r = json_obj(outer);
    proof {
        assert(views_of_obj(outer@)[0] == spec_function_response_part(id@, cv)->Obj_0[0]);
        assert(views_of_obj(outer@) =~= spec_function_response_part(id@, cv)->Obj_0);
    }
    r
}

/// Translates the canonical messages into the wire objects the provider
/// takes: one object per message, parts in conversation order, tool-result
/// items the assistant may not see left out.
#[verifier::loop_isolation(false)]
pub fn messages_to_google_spec(messages: &Vec<Message>) -> (r: Vec<JsonValue>)
    ensures
        views_of_arr(r@) == spec_messages_wire(Seq::new(messages@.len(), |i: int| messages@[i]@)),
{
    let ghost mvs = Seq::new(messages@.len(), |i: int| messages@[i]@);
    let mut out: Vec<JsonValue> = Vec::new();
    let n = messages.len();
    let mut i: usize = 0;
    while i < n
        invariant
            i <= n,
            out@.len() == i,
            forall|k: int| 0 <= k < i ==> json_view(&out@[k]) == spec_message_wire(mvs[k]),
        decreases n - i,
    {
        let m = &messages[i];
        let ghost cv = m@.content;
        let mut parts: Vec<JsonValue> = Vec::new();
        let cn = m.content.len();
        let mut j: usize = 0;
        proof {
            assert(spec_parts_of_content(cv, 0) =~= views_of_arr(parts@) + spec_parts_of_content(
                cv,
                0,
            ));
        }
        while j < cn
            invariant
                j <= cn,
                spec_parts_of_content(cv, 0) == views_of_arr(parts@) + spec_parts_of_content(
                    cv,
                    j as int,
                ),
            decreases cn - j,
        {
            let ghost parts_before = views_of_arr(parts@);
            let item = &m.content[j];
            proof {
                assert(cv[j as int] == item@);
            }
            match item {
                MessageContent::Text { text } => {
                    if !text.as_str().is_empty() {
                        let p = text_part(text.clone());
                        parts.push(p);
                        proof {
                            assert(views_of_arr(parts@) =~= parts_before + spec_parts_of_item(
                                cv[j as int],
                            ));
                        }
                    } else {
                        proof {
                            assert(spec_parts_of_item(cv[j as int]) =~= Seq::<JsonV>::empty());
                            assert(views_of_arr(parts@) =~= parts_before + spec_parts_of_item(
                                cv[j as int],
                            ));
                        }
                    }
                },
                MessageContent::ToolRequest { id, tool_call } => {
                    match tool_call {
                        Ok(call) => {
                            let p = function_call_part(call);
                            parts.push(p);
                        },
                        Err(e) => {
                            let p = error_text_part(e);
                            parts.push(p);
                        },
                    }
                    proof {
                        assert(views_of_arr(parts@) =~= parts_before + spec_parts_of_item(
                            cv[j as int],
                        ));
                    }
                },
                MessageContent::ToolResponse { id, tool_result } => {
                    match tool_result {
                        Ok(items) => {
                            let ghost iv = Seq::new(items@.len(), |k: int| items@[k]@);
                            let ghost before_len = parts_before.len() as int;
                            let rn = items.len();
                            let mut k: usize = 0;
                            proof {
                                assert(views_of_arr(parts@).skip(before_len)
                                    =~= Seq::<JsonV>::empty());
                            }
                            while k < rn
                                invariant
                                    k <= rn,
                                    views_of_arr(parts@).len() >= before_len,
                                    views_of_arr(parts@).take(before_len) == parts_before,
                                    spec_response_parts(id@, iv, 0) == views_of_arr(parts@).skip(
                                        before_len,
                                    ) + spec_response_parts(id@, iv, k as int),
                                decreases rn - k,
                            {
                                let ghost emitted = views_of_arr(parts@).skip(before_len);
                                let item_k = &items[k];
                                proof {
                                    assert(iv[k as int] == item_k@);
                                }
                                let mut pushed = false;
                                if item_k.visible_to_assistant() {
                                    let u = item_k.unannotated();
                                    let is_image = match &u {
                                        Content::Image { .. } => true,
                                        _ => false,
                                    };
                                    proof {
                                        assert(is_image == (iv[k as int] is Image));
                                    }
                                    if !is_image {
                                        let cj = content_json(&u);
                                        let p = function_response_part(id, cj);
                                        parts.push(p);
                                        pushed = true;
                                    }
                                }
                                proof {
                                    if pushed {
                                        assert(views_of_arr(parts@).skip(before_len) =~= emitted
                                            + seq![
                                            spec_function_response_part(
                                                id@,
                                                spec_content_json(spec_unannotated(iv[k as int])),
                                            ),
                                        ]);
                                    }
                                    assert(views_of_arr(parts@).take(before_len) =~= parts_before);
                                    assert(views_of_arr(parts@).skip(before_len)
                                        + spec_response_parts(id@, iv, k as int + 1)
                                        =~= emitted + spec_response_parts(id@, iv, k as int));
                                }
                                k = k + 1;
                            }
                            proof {
                                assert(spec_response_parts(id@, iv, rn as int)
                                    =~= Seq::<JsonV>::empty());
                                assert(views_of_arr(parts@) =~= parts_before + spec_parts_of_item(
                                    cv[j as int],
                                ));
                            }
                        },
                        Err(e) => {
                            let p = error_text_part(e);
                            parts.push(p);
                            proof {
                                assert(views_of_arr(parts@) =~= parts_before + spec_parts_of_item(
                                    cv[j as int],
                                ));
                            }
                        },
                    }
                },
            }
            proof {
                assert(spec_parts_of_content(cv, j as int) == spec_parts_of_item(cv[j as int])
                    + spec_parts_of_content(cv, j as int + 1));
                assert(views_of_arr(parts@) + spec_parts_of_content(cv, j as int + 1)
                    =~= (parts_before + spec_parts_of_item(cv[j as int])) + spec_parts_of_content(
                    cv,
                    j as int + 1,
                ));
                assert((parts_before + spec_parts_of_item(cv[j as int])) + spec_parts_of_content(
                    cv,
                    j as int + 1,
                ) =~= parts_before + spec_parts_of_content(cv, j as int));
            }
            j = j + 1;
        }
        proof {
            assert(spec_parts_of_content(cv, cn as int) =~= Seq::<JsonV>::empty());
            assert(views_of_arr(parts@) =~= spec_parts_of_content(cv, 0));
        }
        let role_token = if m.role == Role::User {
            String::from_str("user")
        } else {
            String::from_str("model")
        };
        let parts_arr = json_arr(parts);
        let mut entries: Vec<(String, JsonValue)> = Vec::new();
        entries.push((String::from_str("role"), JsonValue::Str(role_token)));
        entries.push((String::from_str("parts"), parts_arr));
        let msg_obj = json_obj(entries);
        proof {
            assert(views_of_obj(entries@)[0] == ("role"@, JsonV::Str(spec_role_token(m@.role))));
            assert(views_of_obj(entries@)[1] == ("parts"@, JsonV::Arr(spec_parts_of_content(
                cv,
                0,
            ))));
            assert(views_of_obj(entries@) =~= spec_message_wire(m@)->Obj_0);
            assert(json_view(&msg_obj) == spec_message_wire(mvs[i as int]));
        }
        out.push(msg_obj);
        i = i + 1;
    }
    proof {
        assert(views_of_arr(out@) =~= spec_messages_wire(mvs));
    }
    out
}

/// Membership of a key in the allow-list.
pub open spec fn key_in(keys: Seq<Seq<char>>, k: Seq<char>) -> bool {
    exists|i: int| 0 <= i < keys.len() && #[trigger] keys[i] == k
}

/// The views of a vector of strings, element by element.
pub open spec fn str_views(s: Seq<String>) -> Seq<Seq<char>> {
    Seq::new(s.len(), |i: int| s[i]@)
}

fn key_contains(keys: &Vec<String>, k: &str) -> (r: bool)
    ensures
        r == key_in(str_views(keys@), k@),
{
    let n = keys.len();
    let mut i: usize = 0;
    while i < n
        invariant
            n == keys@.len(),
            i <= n,
            forall|j: int| 0 <= j < i ==> str_views(keys@)[j] != k@,
        decreases n - i,
    {
        if str_eq(keys[i].as_str(), k) {
            proof {
                assert(str_views(keys@)[i as int] == k@);
            }
            return true;
        }
        i = i + 1;
    }
    false
}

/// The schema filter over one node's entries: a key survives when it is
/// allowed or the node sits directly under `properties`; kept values are
/// filtered recursively, tagged with their own key.
pub open spec fn spec_filter_entries(
    entries: Seq<(Seq<char>, JsonV)>,
    keys: Seq<Seq<char>>,
    parent: Option<Seq<char>>,
    i: int,
) -> Seq<(Seq<char>, JsonV)>
    decreases entries, entries.len() - i, 1int,
{
    if 0 <= i < entries.len() {
        let rest = spec_filter_entries(entries, keys, parent, i + 1);
        if key_in(keys, entries[i].0) || parent == Some("properties"@) {
            seq![(entries[i].0, spec_filter_value(entries[i].1, keys, Some(entries[i].0)))] + rest
        } else {
            rest
        }
    } else {
        Seq::empty()
    }
}

/// The schema filter over one value: objects are filtered node by node,
/// anything else passes unchanged.
pub open spec fn spec_filter_value(v: JsonV, keys: Seq<Seq<char>>, parent: Option<Seq<char>>) -> JsonV
    decreases v, 0int, 0int,
{
    match v {
        JsonV::Obj(entries) => spec_schema_filter(entries, keys, parent),
        _ => v,
    }
}

/// The filtered form of a schema node: its surviving entries, with a
/// default `"type": "string"` appended outside `properties` when no type
/// survived.
pub open spec fn spec_schema_filter(
    entries: Seq<(Seq<char>, JsonV)>,
    keys: Seq<Seq<char>>,
    parent: Option<Seq<char>>,
) -> JsonV
    decreases entries, entries.len(), 2int,
{
    let f = spec_filter_entries(entries, keys, parent, 0);
    if parent != Some("properties"@) && obj_lookup(f, "type"@) is None {
        JsonV::Obj(f.push(("type"@, JsonV::Str("string"@))))
    } else {
        JsonV::Obj(f)
    }
}

/// The view of an optional parent key.
pub open spec fn spec_parent(p: Option<&str>) -> Option<Seq<char>> {
    match p {
        Some(s) => Some(s@),
        None => None,
    }
}

/// Filters a JSON-schema node against the allow-list, keeping every key
/// under `properties`, recursing into object values, and defaulting a
/// missing `type` to `"string"` outside `properties`.
#[verifier::loop_isolation(false)]
pub fn process_map(
    map: &Vec<(String, JsonValue)>,
    accepted_keys: &Vec<String>,
    parent_key: Option<&str>,
) -> (r: JsonValue)
    ensures
        json_view(&r) == spec_schema_filter(
            views_of_obj(map@),
            str_views(accepted_keys@),
            spec_parent(parent_key),
        ),
    decreases map,
{
    let ghost ev = views_of_obj(map@);
    let ghost kv = str_views(accepted_keys@);
    let ghost pv = spec_parent(parent_key);
    let is_props = match parent_key {
        Some(p) => str_eq(p, "properties"),
        None => false,
    };
    proof {
        assert(is_props == (pv == Some("properties"@)));
    }
    let mut filtered: Vec<(String, JsonValue)> = Vec::new();
    let n = map.len();
    let mut i: usize = 0;
    proof {
        assert(views_of_obj(filtered@) =~= Seq::<(Seq<char>, JsonV)>::empty());
    }
    while i < n
        invariant
            i <= n,
            spec_filter_entries(ev, kv, pv, 0) == views_of_obj(filtered@) + spec_filter_entries(
                ev,
                kv,
                pv,
                i as int,
            ),
        decreases n - i,
    {
        let ghost fv_before = views_of_obj(filtered@);
        let key = &map[i].0;
        let keep = is_props || key_contains(accepted_keys, key.as_str());
        if keep {
            let fval = match &map[i].1 {
                JsonValue::Obj(nested) => {
                    proof {
                        assert(decreases_to!(*map => map@[i as int]));
                        assert(decreases_to!(map@[i as int] => map@[i as int].1));
                        assert(decreases_to!(map@[i as int].1 => *nested));
                        lemma_json_obj_view(nested);
                    }
                    let fv = process_map(nested, accepted_keys, Some(key.as_str()));
                    proof {
                        assert(ev[i as int].1 == JsonV::Obj(views_of_obj(nested@)));
                        assert(json_view(&fv) == spec_filter_value(ev[i as int].1, kv, Some(
                            ev[i as int].0,
                        )));
                    }
                    fv
                },
                other => {
                    let fv = json_clone(other);
                    proof {
                        assert(!(ev[i as int].1 is Obj));
                        assert(json_view(&fv) == spec_filter_value(ev[i as int].1, kv, Some(
                            ev[i as int].0,
                        )));
                    }
                    fv
                },
            };
            filtered.push((key.clone(), fval));
            proof {
                assert(views_of_obj(filtered@) =~= fv_before + seq![
                    (ev[i as int].0, spec_filter_value(ev[i as int].1, kv, Some(ev[i as int].0))),
                ]);
            }
        }
        proof {
            assert(views_of_obj(filtered@) + spec_filter_entries(ev, kv, pv, i as int + 1)
                =~= fv_before + spec_filter_entries(ev, kv, pv, i as int));
        }
        i = i + 1;
    }
    proof {
        assert(spec_filter_entries(ev, kv, pv, n as int) =~= Seq::<(Seq<char>, JsonV)>::empty());
        assert(views_of_obj(filtered@) =~= spec_filter_entries(ev, kv, pv, 0));
    }
    if !is_props {
        let has_type = match obj_get(&filtered, "type") {
            Some(_) => true,
            None => false,
        };
        if !has_type {
            filtered.push((String::from_str("type"), json_str("string")));
            proof {
                assert(views_of_obj(filtered@) =~= spec_filter_entries(ev, kv, pv, 0).push(
                    ("type"@, JsonV::Str("string"@)),
                ));
            }
        }
    }
    let r = json_obj(filtered);
    r
}

/// The schema attributes the provider accepts.
pub open spec fn spec_google_schema_keys() -> Seq<Seq<char>> {
    seq![
        "type"@,
        "format"@,
        "description"@,
        "nullable"@,
        "enum"@,
        "maxItems"@,
        "minItems"@,
        "properties"@,
        "required"@,
        "items"@,
    ]
}

/// The wire object one tool declaration becomes: name, description, and the
/// filtered schema when the tool declares any properties.
pub open spec fn spec_tool_wire(t: ToolV, keys: Seq<Seq<char>>) -> JsonV {
    let base = seq![("name"@, JsonV::Str(t.name)), ("description"@, JsonV::Str(t.description))];
    let has_props = match spec_get(t.input_schema, "properties"@) {
        Some(p) => p is Obj && p->Obj_0.len() > 0,
        None => false,
    };
    if has_props {
        JsonV::Obj(
            base.push(("parameters"@, spec_schema_filter(t.input_schema->Obj_0, keys, None))),
        )
    } else {
        JsonV::Obj(base)
    }
}

/// Translates the tool declarations into the wire objects the provider
/// takes, schemas filtered to the accepted attributes.
#[verifier::loop_isolation(false)]
pub fn tools_to_google_spec(tools: &Vec<Tool>) -> (r: Vec<JsonValue>)
    ensures
        views_of_arr(r@) == Seq::new(
            tools@.len(),
            |i: int| spec_tool_wire(tools@[i]@, spec_google_schema_keys()),
        ),
{
    let mut accepted: Vec<String> = Vec::new();
    accepted.push(String::from_str("type"));
    accepted.push(String::from_str("format"));
    accepted.push(String::from_str("description"));
    accepted.push(String::from_str("nullable"));
    accepted.push(String::from_str("enum"));
    accepted.push(String::from_str("maxItems"));
    accepted.push(String::from_str("minItems"));
    accepted.push(String::from_str("properties"));
    accepted.push(String::from_str("required"));
    accepted.push(String::from_str("items"));
    proof {
        assert(str_views(accepted@) =~= spec_google_schema_keys());
    }
    let mut out: Vec<JsonValue> = Vec::new();
    let n = tools.len();
    let mut i: usize = 0;
    while i < n
        invariant
            i <= n,
            out@.len() == i,
            str_views(accepted@) == spec_google_schema_keys(),
            forall|k: int| 0 <= k < i ==> json_view(&out@[k]) == spec_tool_wire(
                tools@[k]@,
                spec_google_schema_keys(),
            ),
        decreases n - i,
    {
        let tool = &tools[i];
        let mut entries: Vec<(String, JsonValue)> = Vec::new();
        entries.push((String::from_str("name"), JsonValue::Str(tool.name.clone())));
        entries.push((String::from_str("description"), JsonValue::Str(tool.description.clone())));
        let has_props = match tool.input_schema.get("properties") {
            Some(p) => match p.as_object() {
                Some(es) => es.len() > 0,
                None => false,
            },
            None => false,
        };
        if has_props {
            match &tool.input_schema {
                JsonValue::Obj(se) => {
                    proof {
                        lemma_json_obj_view(se);
                    }
                    let params = process_map(se, &accepted, None);
                    entries.push((String::from_str("parameters"), params));
                    proof {
                        assert(views_of_obj(entries@) =~= spec_tool_wire(
                            tool@,
                            spec_google_schema_keys(),
                        )->Obj_0);
                    }
                },
                _ => {
                    proof {
                        assert(false);
                    }
                },
            }
        } else {
            proof {
                assert(views_of_obj(entries@) =~= spec_tool_wire(
                    tool@,
                    spec_google_schema_keys(),
                )->Obj_0);
            }
        }
        let obj = json_obj(entries);
        out.push(obj);
        i = i + 1;
    }
    proof {
        assert(views_of_arr(out@) =~= Seq::new(
            tools@.len(),
            |k: int| spec_tool_wire(tools@[k]@, spec_google_schema_keys()),
        ));
    }
    out
}

/// The views of the items a parser produced, element by element.
pub open spec fn content_views(s: Seq<MessageContent>) -> Seq<MessageContentV> {
    Seq::new(s.len(), |i: int| s[i]@)
}

/// The complaint recorded when a parsed function name fails validation.
pub open spec fn spec_invalid_name_message(name: Seq<char>) -> Seq<char> {
    "The provided function name '"@ + name + "' had invalid characters, it must match [a-zA-Z0-9_-]+"@
}

/// The canonical items one wire part yields: a text part becomes a text
/// item; a function call becomes a tool request, valid names with arguments
/// only; anything else yields nothing.
pub open spec fn spec_parse_part(p: JsonV) -> Seq<MessageContentV> {
    match spec_get(p, "text"@) {
        Some(t) => match t {
            JsonV::Str(tv) => seq![MessageContentV::Text { text: tv }],
            _ => spec_parse_function_call(p),
        },
        None => spec_parse_function_call(p),
    }
}

/// The canonical items the function-call field of a part yields.
pub open spec fn spec_parse_function_call(p: JsonV) -> Seq<MessageContentV> {
    match spec_get(p, "functionCall"@) {
        Some(fc) => {
            let name = match spec_get(fc, "name"@) {
                Some(nv) => match nv {
                    JsonV::Str(s) => s,
                    _ => Seq::empty(),
                },
                None => Seq::empty(),
            };
            if !spec_is_valid_name(name) {
                seq![
                    MessageContentV::ToolRequest {
                        id: name,
                        tool_call: Err(ToolErrorV::NotFound(spec_invalid_name_message(name))),
                    },
                ]
            } else {
                match spec_get(fc, "args"@) {
                    Some(args) => seq![
                        MessageContentV::ToolRequest {
                            id: name,
                            tool_call: Ok(ToolCallV { name: name, arguments: args }),
                        },
                    ],
                    None => Seq::empty(),
                }
            }
        },
        None => Seq::empty(),
    }
}

/// The canonical items of a whole parts sequence, in order.
pub open spec fn spec_parse_parts(parts: Seq<JsonV>, i: int) -> Seq<MessageContentV>
    decreases parts.len() - i,
{
    if 0 <= i < parts.len() {
        spec_parse_part(parts[i]) + spec_parse_parts(parts, i + 1)
    } else {
        Seq::empty()
    }
}

/// The canonical content of a whole response: the first candidate's parts,
/// or nothing when the response carries no usable candidate.
pub open spec fn spec_response_content(resp: JsonV) -> Seq<MessageContentV> {
    match spec_get(resp, "candidates"@) {
        Some(c) => match c {
            JsonV::Arr(cands) => if cands.len() == 0 {
                Seq::empty()
            } else {
                match spec_get(cands[0], "content"@) {
                    Some(ct) => match spec_get(ct, "parts"@) {
                        Some(ps) => match ps {
                            JsonV::Arr(parts) => spec_parse_parts(parts, 0),
                            _ => Seq::empty(),
                        },
                        None => Seq::empty(),
                    },
                    None => Seq::empty(),
                }
            },
            _ => Seq::empty(),
        },
        None => Seq::empty(),
    }
}

fn parse_part_into(part: &JsonValue, out: &mut Vec<MessageContent>)
    ensures
        content_views(final(out)@) == content_views(old(out)@) + spec_parse_part(json_view(part)),
{
    let ghost before = content_views(out@);
    if let Some(tv) = part.get("text") {
        if let Some(t) = tv.as_str() {
            out.push(MessageContent::Text { text: t.clone() });
            proof {
                assert(content_views(out@) =~= before + spec_parse_part(json_view(part)));
            }
            return ;
        }
    }
    let fc = match part.get("functionCall") {
        Some(v) => v,
        None => {
            proof {
                assert(content_views(out@) =~= before + spec_parse_part(json_view(part)));
            }
            return ;
        },
    };
    let name: String = match fc.get("name") {
        Some(v) => match v.as_str() {
            Some(s) => s.clone(),
            None => String::new(),
        },
        None => String::new(),
    };
    if !is_valid_function_name(name.as_str()) {
        let mut m = String::new();
        m.append("The provided function name '");
        m.append(name.as_str());
        m.append("' had invalid characters, it must match [a-zA-Z0-9_-]+");
        out.push(MessageContent::ToolRequest { id: name, tool_call: Err(ToolError::NotFound(m)) });
        proof {
            assert(content_views(out@) =~= before + spec_parse_part(json_view(part)));
        }
    } else {
        if let Some(args) = fc.get("args") {
            let arguments = json_clone(args);
            let call = ToolCall { name: name, arguments };
            out.push(MessageContent::ToolRequest { id: call.name.clone(), tool_call: Ok(call) });
            proof {
                assert(content_views(out@) =~= before + spec_parse_part(json_view(part)));
            }
        } else {
            proof {
                assert(content_views(out@) =~= before + spec_parse_part(json_view(part)));
            }
        }
    }
}

/// Relies on `chrono::Utc::now`: the current Unix timestamp, in seconds.
/// Nothing can be promised of the clock's reading.
#[verifier::external_body]
fn now_unix_timestamp() -> i64 {
    chrono::Utc::now().timestamp()
}

/// Parses a wire response into a canonical message: always the assistant's,
/// stamped with the time of the parse, holding the first candidate's items.
#[verifier::loop_isolation(false)]
pub fn google_response_to_message(response: &JsonValue) -> (r: Message)
    ensures
        r.role == Role::Assistant,
        content_views(r.content@) == spec_response_content(json_view(response)),
{
    let mut content: Vec<MessageContent> = Vec::new();
    let mut parsed = false;
    if let Some(cands_v) = response.get("candidates") {
        if let Some(cands) = cands_v.as_array() {
            if cands.len() > 0 {
                let cand = &cands[0];
                if let Some(ct) = cand.get("content") {
                    if let Some(ps_v) = ct.get("parts") {
                        if let Some(parts) = ps_v.as_array() {
                            let ghost pv = views_of_arr(parts@);
                            let n = parts.len();
                            let mut i: usize = 0;
                            proof {
                                assert(content_views(content@)
                                    =~= Seq::<MessageContentV>::empty());
                            }
                            while i < n
                                invariant
                                    i <= n,
                                    spec_parse_parts(pv, 0) == content_views(content@)
                                        + spec_parse_parts(pv, i as int),
                                decreases n - i,
                            {
                                let ghost before = content_views(content@);
                                parse_part_into(&parts[i], &mut content);
                                proof {
                                    assert(content_views(content@) + spec_parse_parts(
                                        pv,
                                        i as int + 1,
                                    ) =~= before + spec_parse_parts(pv, i as int));
                                }
                                i = i + 1;
                            }
                            proof {
                                assert(spec_parse_parts(pv, n as int)
                                    =~= Seq::<MessageContentV>::empty());
                                assert(content_views(content@) =~= spec_parse_parts(pv, 0));
                                assert(content_views(content@) =~= spec_response_content(
                                    json_view(response),
                                ));
                            }
                            parsed = true;
                        }
                    }
                }
            }
        }
    }
    if !parsed {
        proof {
            assert(content_views(content@) =~= spec_response_content(json_view(response)));
        }
    }
    Message { role: Role::Assistant, created: now_unix_timestamp(), content }
}

/// The token count a usage object reports under one key, when it fits the
/// count's range.
pub open spec fn spec_token_count(u: JsonV, key: Seq<char>) -> Option<i32> {
    match spec_get(u, key) {
        Some(v) => match v {
            JsonV::Int(n) => if i32::MIN <= n <= i32::MAX {
                Some(n as i32)
            } else {
                None
            },
            _ => None,
        },
        None => None,
    }
}

/// The usage a response reports: the three counts under `usage`, the total
/// computed from input and output when absent, and nothing invented
/// otherwise.
pub open spec fn spec_usage_of(data: JsonV) -> Option<(Option<i32>, Option<i32>, Option<i32>)> {
    match spec_get(data, "usage"@) {
        Some(u) => {
            let input = spec_token_count(u, "prompt_tokens"@);
            let output = spec_token_count(u, "completion_tokens"@);
            let total = match spec_token_count(u, "total_tokens"@) {
                Some(t) => Some(t),
                None => match (input, output) {
                    (Some(a), Some(b)) => if i32::MIN <= a + b <= i32::MAX {
                        Some((a + b) as i32)
                    } else {
                        None
                    },
                    _ => None,
                },
            };
            Some((input, output, total))
        },
        None => None,
    }
}

fn token_count(u: &JsonValue, key: &str) -> (r: Option<i32>)
    ensures
        r == spec_token_count(json_view(u), key@),
{
    match u.get(key) {
        Some(v) => match v.as_i64() {
            Some(n) => if n >= i32::MIN as i64 && n <= i32::MAX as i64 {
                Some(n as i32)
            } else {
                None
            },
            None => None,
        },
        None => None,
    }
}

/// Extracts the usage counts from a response; absent counts stay absent,
/// and a missing total is the sum of input and output when both are there.
pub fn get_usage(data: &JsonValue) -> (r: Option<Usage>)
    ensures
        match spec_usage_of(json_view(data)) {
            Some(counts) => r is Some && r->0.input_tokens == counts.0
                && r->0.output_tokens == counts.1 && r->0.total_tokens == counts.2,
            None => r is None,
        },
{
    let usage = match data.get("usage") {
        Some(u) => u,
        None => {
            return None;
        },
    };
    let input = token_count(usage, "prompt_tokens");
    let output = token_count(usage, "completion_tokens");
    let total = match token_count(usage, "total_tokens") {
        Some(t) => Some(t),
        None => match (input, output) {
            (Some(a), Some(b)) => a.checked_add(b),
            _ => None,
        },
    };
    Some(Usage::new(input, output, total))
}

/// A host with its trailing slashes removed.
pub open spec fn spec_trim_slashes(s: Seq<char>) -> Seq<char>
    decreases s.len(),
{
    if s.len() > 0 && s[s.len() - 1] == '/' {
        spec_trim_slashes(s.drop_last())
    } else {
        s
    }
}

/// The endpoint one completion request posts to, with the key carried as a
/// query parameter.
pub open spec fn spec_request_url(host: Seq<char>, model: Seq<char>, api_key: Seq<char>) -> Seq<
    char,
> {
    spec_trim_slashes(host) + "/v1beta/models/"@ + model + ":generateContent?key="@ + api_key
}

/// Builds the request endpoint from the configured host, model and key.
pub fn build_request_url(host: &str, model: &str, api_key: &str) -> (r: String)
    ensures
        r@ == spec_request_url(host@, model@, api_key@),
{
    let mut end = host.unicode_len();
    proof {
        assert(host@.subrange(0, end as int) =~= host@);
    }
    while end > 0 && host.get_char(end - 1) == '/'
        invariant
            end <= host@.len(),
            spec_trim_slashes(host@) == spec_trim_slashes(host@.subrange(0, end as int)),
        decreases end,
    {
        proof {
            assert(host@.subrange(0, end - 1) =~= host@.subrange(0, end as int).drop_last());
        }
        end = end - 1;
    }
    let trimmed = host.substring_char(0, end);
    proof {
        assert(spec_trim_slashes(host@.subrange(0, end as int)) == host@.subrange(0, end as int));
    }
    let mut url = String::new();
    url.append(trimmed);
    url.append("/v1beta/models/");
    url.append(model);
    url.append(":generateContent?key=");
    url.append(api_key);
    proof {
        assert(url@ =~= spec_request_url(host@, model@, api_key@));
    }
    url
}

/// The classified outcome of the provider's HTTP status: throttling and
/// provider-side failures ask for a retry elsewhere, everything else but
/// success is a plain failure.
pub open spec fn spec_google_status(status: int) -> Result<(), ProviderErrorV> {
    if status == 200 {
        Ok(())
    } else if status == 429 || status >= 500 {
        Err(ProviderErrorV::ServerError("Server error: "@ + spec_dec_digits(status)))
    } else {
        Err(ProviderErrorV::RequestFailed("Request failed: "@ + spec_dec_digits(status)))
    }
}

/// Classifies the status of one posted request.
pub fn classify_google_status(status: u16) -> (r: Result<(), ProviderError>)
    ensures
        match (r, spec_google_status(status as int)) {
            (Ok(()), Ok(())) => true,
            (Err(e), Err(se)) => e@ == se,
            _ => false,
        },
{
    if status == 200 {
        return Ok(());
    }
    if status == 429 || status >= 500 {
        let mut m = String::new();
        m.append("Server error: ");
        let d = u16_to_dec(status);
        m.append(d.as_str());
        return Err(ProviderError::ServerError(m));
    }
    let mut m = String::new();
    m.append("Request failed: ");
    let d = u16_to_dec(status);
    m.append(d.as_str());
    Err(ProviderError::RequestFailed(m))
}

/// The system instruction block of a request.
pub open spec fn spec_system_instruction(system: Seq<char>) -> JsonV {
    JsonV::Obj(seq![("parts"@, JsonV::Arr(seq![spec_text_part(system)]))])
}

/// The whole request body of one completion call: the system instruction,
/// the translated messages, and the tool declarations when any exist.
pub open spec fn spec_complete_payload(system: Seq<char>, ms: Seq<MessageV>, ts: Seq<ToolV>) -> JsonV {
    let base = seq![
        ("system_instruction"@, spec_system_instruction(system)),
        ("contents"@, JsonV::Arr(spec_messages_wire(ms))),
    ];
    if ts.len() > 0 {
        JsonV::Obj(
            base.push(
                (
                    "tools"@,
                    JsonV::Obj(
                        seq![
                            (
                                "functionDeclarations"@,
                                JsonV::Arr(
                                    Seq::new(
                                        ts.len(),
                                        |i: int| spec_tool_wire(ts[i], spec_google_schema_keys()),
                                    ),
                                ),
                            ),
                        ],
                    ),
                ),
            ),
        )
    } else {
        JsonV::Obj(base)
    }
}

/// Assembles the request body of one completion call.
pub fn build_complete_payload(system: &str, messages: &Vec<Message>, tools: &Vec<Tool>) -> (r:
    JsonValue)
    ensures
        json_view(&r) == spec_complete_payload(
            system@,
            Seq::new(messages@.len(), |i: int| messages@[i]@),
            Seq::new(tools@.len(), |i: int| tools@[i]@),
        ),
{
    let mut sys_parts: Vec<JsonValue> = Vec::new();
    sys_parts.push(text_part(system.to_owned()));
    proof {
        assert(views_of_arr(sys_parts@) =~= seq![spec_text_part(system@)]);
    }
    let mut sys_entries: Vec<(String, JsonValue)> = Vec::new();
    sys_entries.push((String::from_str("parts"), json_arr(sys_parts)));
    let sys_obj = json_obj(sys_entries);
    proof {
        assert(views_of_obj(sys_entries@) =~= spec_system_instruction(system@)->Obj_0);
    }
    let contents = json_arr(messages_to_google_spec(messages));
    let mut entries: Vec<(String, JsonValue)> = Vec::new();
    entries.push((String::from_str("system_instruction"), sys_obj));
    entries.push((String::from_str("contents"), contents));
    if tools.len() > 0 {
        let ghost ts = Seq::new(tools@.len(), |i: int| tools@[i]@);
        let tw = tools_to_google_spec(tools);
        proof {
            assert(views_of_arr(tw@) =~= Seq::new(
                ts.len(),
                |i: int| spec_tool_wire(ts[i], spec_google_schema_keys()),
            ));
        }
        let fd = json_arr(tw);
        let mut tool_entries: Vec<(String, JsonValue)> = Vec::new();
        tool_entries.push((String::from_str("functionDeclarations"), fd));
        let tools_obj = json_obj(tool_entries);
        proof {
            assert(views_of_obj(tool_entries@) =~= seq![
                (
                    "functionDeclarations"@,
                    JsonV::Arr(
                        Seq::new(ts.len(), |i: int| spec_tool_wire(ts[i], spec_google_schema_keys())),
                    ),
                ),
            ]);
        }
        entries.push((String::from_str("tools"), tools_obj));
        let r = json_obj(entries);
        proof {
            assert(views_of_obj(entries@) =~= spec_complete_payload(
                system@,
                Seq::new(messages@.len(), |i: int| messages@[i]@),
                Seq::new(tools@.len(), |i: int| tools@[i]@),
            )->Obj_0);
        }
        r
    } else {
        let r = json_obj(entries);
        proof {
            assert(views_of_obj(entries@) =~= spec_complete_payload(
                system@,
                Seq::new(messages@.len(), |i: int| messages@[i]@),
                Seq::new(tools@.len(), |i: int| tools@[i]@),
            )->Obj_0);
        }
        r
    }
}

proof fn lemma_text_survives_from(content: Seq<MessageContentV>, k: int, i: int, t: Seq<char>)
    requires
        0 <= k <= i < content.len(),
        content[i] == (MessageContentV::Text { text: t }),
        t.len() > 0,
    ensures
        spec_parts_of_content(content, k).contains(spec_text_part(t)),
    decreases i - k,
{
    if k == i {
        assert(spec_parts_of_item(content[i]) == seq![spec_text_part(t)]);
        assert(spec_parts_of_content(content, k)[0] == spec_text_part(t));
    } else {
        lemma_text_survives_from(content, k + 1, i, t);
        let rest = spec_parts_of_content(content, k + 1);
        let idx = choose|j: int| 0 <= j < rest.len() && rest[j] == spec_text_part(t);
        assert(spec_parts_of_content(content, k)[spec_parts_of_item(content[k]).len() + idx]
            == spec_text_part(t));
    }
}

/// Every non-empty text item of a message's content survives translation:
/// its wire text part stands among the message's translated parts.
pub proof fn lemma_text_survives(content: Seq<MessageContentV>, i: int, t: Seq<char>)
    requires
        0 <= i < content.len(),
        content[i] == (MessageContentV::Text { text: t }),
        t.len() > 0,
    ensures
        spec_parts_of_content(content, 0).contains(spec_text_part(t)),
{
    lemma_text_survives_from(content, 0, i, t);
}

proof fn lemma_audience_from(id: Seq<char>, items: Seq<ContentV>, i: int, p: JsonV)
    requires
        0 <= i <= items.len(),
        spec_response_parts(id, items, i).contains(p),
    ensures
        exists|j: int|
            i <= j < items.len() && spec_visible_to_assistant(#[trigger] items[j]) && !(items[j]
                is Image) && p == spec_function_response_part(
                id,
                spec_content_json(spec_unannotated(items[j])),
            ),
    decreases items.len() - i,
{
    if i < items.len() {
        let rest = spec_response_parts(id, items, i + 1);
        if spec_visible_to_assistant(items[i]) && !(items[i] is Image) {
            let here = spec_function_response_part(
                id,
                spec_content_json(spec_unannotated(items[i])),
            );
            let parts = seq![here] + rest;
            let idx = choose|j: int| 0 <= j < parts.len() && parts[j] == p;
            if idx == 0 {
                assert(spec_visible_to_assistant(items[i]) && !(items[i] is Image) && p
                    == spec_function_response_part(
                    id,
                    spec_content_json(spec_unannotated(items[i])),
                ));
            } else {
                assert(rest[idx - 1] == p);
                assert(rest.contains(p));
                lemma_audience_from(id, items, i + 1, p);
            }
        } else {
            lemma_audience_from(id, items, i + 1, p);
        }
    } else {
        assert(spec_response_parts(id, items, i).len() == 0);
    }
}

/// Audience filtering is total: every wire part a successful tool result
/// yields stems from an item the assistant may see; an item whose audience
/// leaves the assistant out is never translated.
pub proof fn lemma_audience_filter_total(id: Seq<char>, items: Seq<ContentV>, p: JsonV)
    requires
        spec_response_parts(id, items, 0).contains(p),
    ensures
        exists|j: int|
            0 <= j < items.len() && spec_visible_to_assistant(#[trigger] items[j]) && !(items[j]
                is Image) && p == spec_function_response_part(
                id,
                spec_content_json(spec_unannotated(items[j])),
            ),
{
    lemma_audience_from(id, items, 0, p);
}

proof fn lemma_properties_from(entries: Seq<(Seq<char>, JsonV)>, keys: Seq<Seq<char>>, i: int)
    requires
        0 <= i <= entries.len(),
    ensures
        spec_filter_entries(entries, keys, Some("properties"@), i) =~= Seq::new(
            (entries.len() - i) as nat,
            |j: int|
                (
                    entries[i + j].0,
                    spec_filter_value(entries[i + j].1, keys, Some(entries[i + j].0)),
                ),
        ),
    decreases entries.len() - i,
{
    if i < entries.len() {
        lemma_properties_from(entries, keys, i + 1);
    }
}

/// Inside a `properties` node every key survives the filter, in order,
/// its value filtered under its own name.
pub proof fn lemma_properties_keys_survive(entries: Seq<(Seq<char>, JsonV)>, keys: Seq<Seq<char>>)
    ensures
        spec_filter_entries(entries, keys, Some("properties"@), 0).len() == entries.len(),
        forall|j: int|
            0 <= j < entries.len() ==> spec_filter_entries(entries, keys, Some("properties"@), 0)[j]
                == (
                entries[j].0,
                spec_filter_value(#[trigger] entries[j].1, keys, Some(entries[j].0)),
            ),
{
    lemma_properties_from(entries, keys, 0);
}

proof fn lemma_filter_keys_allowed_from(
    entries: Seq<(Seq<char>, JsonV)>,
    keys: Seq<Seq<char>>,
    parent: Option<Seq<char>>,
    i: int,
)
    requires
        0 <= i <= entries.len(),
        parent != Some("properties"@),
    ensures
        forall|j: int|
            0 <= j < spec_filter_entries(entries, keys, parent, i).len() ==> key_in(
                keys,
                #[trigger] spec_filter_entries(entries, keys, parent, i)[j].0,
            ),
    decreases entries.len() - i,
{
    if i < entries.len() {
        lemma_filter_keys_allowed_from(entries, keys, parent, i + 1);
        let f = spec_filter_entries(entries, keys, parent, i);
        let rest = spec_filter_entries(entries, keys, parent, i + 1);
        if key_in(keys, entries[i].0) {
            assert forall|j: int| 0 <= j < f.len() implies key_in(keys, f[j].0) by {
                if j > 0 {
                    assert(f[j] == rest[j - 1]);
                }
            }
        }
    }
}

/// Outside a `properties` node, a key not on the allow-list never survives
/// the filter: every surviving key is allowed.
pub proof fn lemma_disallowed_keys_removed(
    entries: Seq<(Seq<char>, JsonV)>,
    keys: Seq<Seq<char>>,
    parent: Option<Seq<char>>,
)
    requires
        parent != Some("properties"@),
    ensures
        forall|j: int|
            0 <= j < spec_filter_entries(entries, keys, parent, 0).len() ==> key_in(
                keys,
                #[trigger] spec_filter_entries(entries, keys, parent, 0)[j].0,
            ),
{
    lemma_filter_keys_allowed_from(entries, keys, parent, 0);
}

proof fn lemma_lookup_push(s: Seq<(Seq<char>, JsonV)>, k: Seq<char>, v: JsonV)
    requires
        obj_lookup(s, k) is None,
    ensures
        obj_lookup(s.push((k, v)), k) == Some(v),
    decreases s.len(),
{
    if s.len() == 0 {
        assert(s.push((k, v))[0] == (k, v));
    } else {
        assert(s.push((k, v))[0] == s[0]);
        assert(s.push((k, v)).drop_first() =~= s.drop_first().push((k, v)));
        lemma_lookup_push(s.drop_first(), k, v);
    }
}

/// Outside a `properties` node a filtered schema always carries a `type`:
/// a node that lost or never had one gains `"type": "string"`.
pub proof fn lemma_missing_type_defaulted(
    entries: Seq<(Seq<char>, JsonV)>,
    keys: Seq<Seq<char>>,
    parent: Option<Seq<char>>,
)
    requires
        parent != Some("properties"@),
    ensures
        spec_get(spec_schema_filter(entries, keys, parent), "type"@) is Some,
        obj_lookup(spec_filter_entries(entries, keys, parent, 0), "type"@) is None
            ==> spec_get(spec_schema_filter(entries, keys, parent), "type"@) == Some(
            JsonV::Str("string"@),
        ),
{
    let f = spec_filter_entries(entries, keys, parent, 0);
    if obj_lookup(f, "type"@) is None {
        lemma_lookup_push(f, "type"@, JsonV::Str("string"@));
    }
}

} // verus!
