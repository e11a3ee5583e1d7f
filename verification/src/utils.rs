//! Shared response utilities: function-name validation and sanitization,
//! status-code classification, image-content encoding, and the per-provider
//! context-length predicates.
use vstd::prelude::*;
use vstd::string::*;
use crate::json::{JsonValue, JsonV, json_view, spec_get, views_of_obj, json_obj, json_str};
use crate::strings::{contains_seq, contains_chars, str_to_chars, chars_to_string, str_eq,
    push_char};
use crate::errors::{ProviderError, ProviderErrorV};

verus! {

/// A character a function name may hold: ASCII letters, digits, underscore
/// and hyphen.
pub open spec fn is_name_char(c: char) -> bool {
    ||| ('a' as u32) <= (c as u32) && (c as u32) <= ('z' as u32)
    ||| ('A' as u32) <= (c as u32) && (c as u32) <= ('Z' as u32)
    ||| ('0' as u32) <= (c as u32) && (c as u32) <= ('9' as u32)
    ||| c == '_'
    ||| c == '-'
}

fn name_char(c: char) -> (r: bool)
    ensures
        r == is_name_char(c),
{
    let u = c as u32;
    (u >= 'a' as u32 && u <= 'z' as u32) || (u >= 'A' as u32 && u <= 'Z' as u32) || (u >= '0'
        as u32 && u <= '9' as u32) || c == '_' || c == '-'
}

/// The sanitized form of a name: every character outside the accepted set
/// becomes an underscore.
pub open spec fn spec_sanitize(s: Seq<char>) -> Seq<char> {
    Seq::new(s.len(), |i: int| if is_name_char(s[i]) { s[i] } else { '_' })
}

/// A valid name is non-empty and made of accepted characters only.
pub open spec fn spec_is_valid_name(s: Seq<char>) -> bool {
    s.len() > 0 && forall|i: int| 0 <= i < s.len() ==> is_name_char(s[i])
}

/// Maps every character outside `[a-zA-Z0-9_-]` to `_`.
pub fn sanitize_function_name(name: &str) -> (r: String)
    ensures
        r@ == spec_sanitize(name@),
{
    let n = name.unicode_len();
    let mut out: Vec<char> = Vec::new();
    let mut i: usize = 0;
    while i < n
        invariant
            n == name@.len(),
            i <= n,
            out@ =~= spec_sanitize(name@).subrange(0, i as int),
        decreases n - i,
    {
        let c = name.get_char(i);
        if name_char(c) {
            out.push(c);
        } else {
            out.push('_');
        }
        proof {
            assert(out@ =~= spec_sanitize(name@).subrange(0, i as int + 1));
        }
        i = i + 1;
    }
    proof {
        assert(out@ =~= spec_sanitize(name@));
    }
    chars_to_string(&out)
}

/// Whether the whole string matches `[a-zA-Z0-9_-]+`.
pub fn is_valid_function_name(name: &str) -> (r: bool)
    ensures
        r == spec_is_valid_name(name@),
{
    let n = name.unicode_len();
    if n == 0 {
        return false;
    }
    let mut i: usize = 0;
    while i < n
        invariant
            n == name@.len(),
            i <= n,
            forall|j: int| 0 <= j < i ==> is_name_char(name@[j]),
        decreases n - i,
    {
        if !name_char(name.get_char(i)) {
            return false;
        }
        i = i + 1;
    }
    true
}

/// Sanitizing a non-empty name always yields a name the validator accepts.
pub proof fn lemma_sanitize_is_valid(name: Seq<char>)
    requires
        name.len() > 0,
    ensures
        spec_is_valid_name(spec_sanitize(name)),
{
    assert forall|i: int| 0 <= i < spec_sanitize(name).len() implies is_name_char(
        spec_sanitize(name)[i],
    ) by {
        if !is_name_char(name[i]) {
            assert(spec_sanitize(name)[i] == '_');
        }
    }
}

/// The decimal digit character for one digit value.
pub open spec fn spec_digit_char(d: int) -> char {
    if d == 0 { '0' } else if d == 1 { '1' } else if d == 2 { '2' } else if d == 3 { '3' }
    else if d == 4 { '4' } else if d == 5 { '5' } else if d == 6 { '6' } else if d == 7 { '7' }
    else if d == 8 { '8' } else { '9' }
}

/// The decimal digits of a non-negative number, most significant first.
pub open spec fn spec_dec_digits(n: int) -> Seq<char>
    decreases n,
{
    if n < 10 {
        seq![spec_digit_char(n)]
    } else {
        spec_dec_digits(n / 10).push(spec_digit_char(n % 10))
    }
}

fn digit_char(d: u16) -> (r: char)
    requires
        d < 10,
    ensures
        r == spec_digit_char(d as int),
{
    match d {
        0 => '0',
        1 => '1',
        2 => '2',
        3 => '3',
        4 => '4',
        5 => '5',
        6 => '6',
        7 => '7',
        8 => '8',
        _ => '9',
    }
}

/// The decimal rendering of a status code.
pub fn u16_to_dec(n: u16) -> (r: String)
    ensures
        r@ == spec_dec_digits(n as int),
    decreases n,
{
    if n < 10 {
        let mut s = String::new();
        push_char(&mut s, digit_char(n));
        proof {
            assert(s@ =~= seq![spec_digit_char(n as int)]);
        }
        s
    } else {
        let mut s = u16_to_dec(n / 10);
        push_char(&mut s, digit_char(n % 10));
        s
    }
}

/// The outcome of lowercasing a string; a function of its characters alone.
pub uninterp spec fn lower_of(s: Seq<char>) -> Seq<char>;

/// Relies on `str::to_lowercase`: the lowercase equivalent of the string,
/// depending on its characters alone.
#[verifier::external_body]
fn to_lowercase(s: &str) -> (r: String)
    ensures
        r@ == lower_of(s@),
{
    s.to_lowercase()
}

/// Whether a lowercased provider message marks a context-window overflow.
pub fn message_marks_context_overflow(lowered: &str) -> (r: bool)
    ensures
        r == contains_seq(lowered@, "too long"@),
{
    let hay = str_to_chars(lowered);
    let needle = str_to_chars("too long");
    contains_chars(&hay, &needle)
}

/// The message a provider's error body carries under
/// `external_model_message.message`, if any.
pub open spec fn spec_bedrock_message(e: JsonV) -> Option<Seq<char>> {
    match spec_get(e, "external_model_message"@) {
        Some(inner) => match spec_get(inner, "message"@) {
            Some(m) => match m {
                JsonV::Str(s) => Some(s),
                _ => None,
            },
            None => None,
        },
        None => None,
    }
}

/// Classifies an error body of the worked provider: a context-length
/// overflow exactly when the embedded message, lowercased, says the input
/// was too long.
pub fn check_bedrock_context_length_error(error: &JsonValue) -> (r: Option<ProviderError>)
    ensures
        match spec_bedrock_message(json_view(error)) {
            Some(m) => if contains_seq(lower_of(m), "too long"@) {
                r is Some && r->0@ == ProviderErrorV::ContextLengthExceeded(m)
            } else {
                r is None
            },
            None => r is None,
        },
{
    let outer = match error.get("external_model_message") {
        Some(v) => v,
        None => {
            return None;
        },
    };
    let msg_value = match outer.get("message") {
        Some(v) => v,
        None => {
            return None;
        },
    };
    let msg = match msg_value.as_str() {
        Some(s) => s,
        None => {
            return None;
        },
    };
    let lowered = to_lowercase(msg.as_str());
    if message_marks_context_overflow(lowered.as_str()) {
        Some(ProviderError::ContextLengthExceeded(msg.clone()))
    } else {
        None
    }
}

/// The model name a response reports, or `"Unknown"`.
pub open spec fn spec_get_model(data: JsonV) -> Seq<char> {
    match spec_get(data, "model"@) {
        Some(m) => match m {
            JsonV::Str(s) => s,
            _ => "Unknown"@,
        },
        None => "Unknown"@,
    }
}

/// Extracts the model name from a response's top-level `model` attribute.
pub fn get_model(data: &JsonValue) -> (r: String)
    ensures
        r@ == spec_get_model(json_view(data)),
{
    match data.get("model") {
        Some(v) => match v.as_str() {
            Some(s) => s.clone(),
            None => String::from_str("Unknown"),
        },
        None => String::from_str("Unknown"),
    }
}

/// The wire shape an image payload takes for a given provider family.
#[derive(Debug, Clone, Copy, PartialEq, Eq, Structural)]
pub enum ImageFormat {
    OpenAi,
    Anthropic,
}

/// The JSON an image converts to: a data URL for one family, a typed
/// base64 source object for the other.
pub open spec fn spec_convert_image(mime: Seq<char>, data: Seq<char>, f: ImageFormat) -> JsonV {
    match f {
        ImageFormat::OpenAi => JsonV::Obj(
            seq![
                ("type"@, JsonV::Str("image_url"@)),
                (
                    "image_url"@,
                    JsonV::Obj(
                        seq![("url"@, JsonV::Str("data:"@ + mime + ";base64,"@ + data))],
                    ),
                ),
            ],
        ),
        ImageFormat::Anthropic => JsonV::Obj(
            seq![
                ("type"@, JsonV::Str("image"@)),
                (
                    "source"@,
                    JsonV::Obj(
                        seq![
                            ("type"@, JsonV::Str("base64"@)),
                            ("media_type"@, JsonV::Str(mime)),
                            ("data"@, JsonV::Str(data)),
                        ],
                    ),
                ),
            ],
        ),
    }
}

/// Converts an image payload into the JSON a provider family expects.
pub fn convert_image(mime_type: &str, data: &str, image_format: &ImageFormat) -> (r: JsonValue)
    ensures
        json_view(&r) == spec_convert_image(mime_type@, data@, *image_format),
{
    match image_format {
        ImageFormat::OpenAi => {
            let mut url = String::new();
            url.append("data:");
            url.append(mime_type);
            url.append(";base64,");
            url.append(data);
            proof {
                assert(url@ =~= "data:"@ + mime_type@ + ";base64,"@ + data@);
            }
            let ghost url_spec = url@;
            let mut inner: Vec<(String, JsonValue)> = Vec::new();
            inner.push((String::from_str("url"), JsonValue::Str(url)));
            let inner_obj = json_obj(inner);
            proof {
                assert(views_of_obj(inner@)[0] == ("url"@, JsonV::Str(url_spec)));
                assert(views_of_obj(inner@) =~= seq![("url"@, JsonV::Str(url_spec))]);
            }
            let mut outer: Vec<(String, JsonValue)> = Vec::new();
            outer.push((String::from_str("type"), json_str("image_url")));
            outer.push((String::from_str("image_url"), inner_obj));
            let r = json_obj(outer);
            proof {
                let s2 = seq![
                    ("type"@, JsonV::Str("image_url"@)),
                    ("image_url"@, JsonV::Obj(seq![("url"@, JsonV::Str(url_spec))])),
                ];
                assert(views_of_obj(outer@)[0] == s2[0]);
                assert(views_of_obj(outer@)[1] == s2[1]);
                assert(views_of_obj(outer@) =~= s2);
            }
            r
        },
        ImageFormat::Anthropic => {
            let mut inner: Vec<(String, JsonValue)> = Vec::new();
            inner.push((String::from_str("type"), json_str("base64")));
            inner.push((String::from_str("media_type"), json_str(mime_type)));
            inner.push((String::from_str("data"), json_str(data)));
            let inner_obj = json_obj(inner);
            proof {
                let s2 = seq![
                    ("type"@, JsonV::Str("base64"@)),
                    ("media_type"@, JsonV::Str(mime_type@)),
                    ("data"@, JsonV::Str(data@)),
                ];
                assert(views_of_obj(inner@)[0] == s2[0]);
                assert(views_of_obj(inner@)[1] == s2[1]);
                assert(views_of_obj(inner@)[2] == s2[2]);
                assert(views_of_obj(inner@) =~= s2);
            }
            let mut outer: Vec<(String, JsonValue)> = Vec::new();
            outer.push((String::from_str("type"), json_str("image")));
            outer.push((String::from_str("source"), inner_obj));
            let r = json_obj(outer);
            proof {
                let s2 = seq![
                    ("type"@, JsonV::Str("image"@)),
                    (
                        "source"@,
                        JsonV::Obj(
                            seq![
                                ("type"@, JsonV::Str("base64"@)),
                                ("media_type"@, JsonV::Str(mime_type@)),
                                ("data"@, JsonV::Str(data@)),
                            ],
                        ),
                    ),
                ];
                assert(views_of_obj(outer@)[0] == s2[0]);
                assert(views_of_obj(outer@)[1] == s2[1]);
                assert(views_of_obj(outer@) =~= s2);
            }
            r
        },
    }
}

/// The message attached to an error body whose `code` marks a context
/// window overflow, if it does.
pub open spec fn spec_context_length_message(e: JsonV) -> Option<Seq<char>> {
    if spec_get(e, "code"@) == Some(JsonV::Str("context_length_exceeded"@)) {
        match spec_get(e, "message"@) {
            Some(m) => match m {
                JsonV::Str(s) => Some(s),
                _ => Some("context_length_exceeded"@),
            },
            None => Some("context_length_exceeded"@),
        }
    } else {
        None
    }
}

/// The context-length marker of OpenAI-style error bodies: the error's
/// `code` field names `context_length_exceeded`.
pub fn is_context_length_error(error: &JsonValue) -> (r: Option<String>)
    ensures
        match spec_context_length_message(json_view(error)) {
            Some(m) => r is Some && r->0@ == m,
            None => r is None,
        },
{
    let code = match error.get("code") {
        Some(v) => match v.as_str() {
            Some(s) => s,
            None => {
                return None;
            },
        },
        None => {
            return None;
        },
    };
    if !str_eq(code.as_str(), "context_length_exceeded") {
        return None;
    }
    match error.get("message") {
        Some(v) => match v.as_str() {
            Some(s) => Some(s.clone()),
            None => Some(String::from_str("context_length_exceeded")),
        },
        None => Some(String::from_str("context_length_exceeded")),
    }
}

/// The classified outcome of an OpenAI-compatible exchange, from the HTTP
/// status and the parsed response body.
pub open spec fn spec_handle_openai(status: int, body: JsonV) -> Result<JsonV, ProviderErrorV> {
    if status == 200 {
        Ok(body)
    } else if status == 401 || status == 403 {
        Err(
            ProviderErrorV::Authentication(
                "Authentication failed. Status: "@ + spec_dec_digits(status),
            ),
        )
    } else if status == 400 {
        match spec_get(body, "error"@) {
            Some(err) => match spec_context_length_message(err) {
                Some(m) => Err(ProviderErrorV::ContextLengthExceeded(m)),
                None => Err(
                    ProviderErrorV::RequestFailed(
                        "Request failed with status: "@ + spec_dec_digits(status),
                    ),
                ),
            },
            None => Err(
                ProviderErrorV::RequestFailed(
                    "Request failed with status: "@ + spec_dec_digits(status),
                ),
            ),
        }
    } else if status == 500 || status == 503 {
        Err(
            ProviderErrorV::ServerError("Server error occurred. Status: "@ + spec_dec_digits(status)),
        )
    } else {
        Err(
            ProviderErrorV::RequestFailed(
                "Request failed with status: "@ + spec_dec_digits(status),
            ),
        )
    }
}

/// Classifies a response from an OpenAI-compatible endpoint: the body is
/// handed back on success, every failure is folded into the error taxonomy.
pub fn handle_response_openai_compat(status: u16, body: JsonValue) -> (r: Result<
    JsonValue,
    ProviderError,
>)
    ensures
        match (r, spec_handle_openai(status as int, json_view(&body))) {
            (Ok(v), Ok(sv)) => json_view(&v) == sv,
            (Err(e), Err(se)) => e@ == se,
            _ => false,
        },
{
    if status == 200 {
        return Ok(body);
    }
    if status == 401 || status == 403 {
        let mut m = String::new();
        m.append("Authentication failed. Status: ");
        let d = u16_to_dec(status);
        m.append(d.as_str());
        return Err(ProviderError::Authentication(m));
    }
    if status == 400 {
        if let Some(err) = body.get("error") {
            if let Some(msg) = is_context_length_error(err) {
                return Err(ProviderError::ContextLengthExceeded(msg));
            }
        }
        let mut m = String::new();
        m.append("Request failed with status: ");
        let d = u16_to_dec(status);
        m.append(d.as_str());
        return Err(ProviderError::RequestFailed(m));
    }
    if status == 500 || status == 503 {
        let mut m = String::new();
        m.append("Server error occurred. Status: ");
        let d = u16_to_dec(status);
        m.append(d.as_str());
        return Err(ProviderError::ServerError(m));
    }
    let mut m = String::new();
    m.append("Request failed with status: ");
    let d = u16_to_dec(status);
    m.append(d.as_str());
    Err(ProviderError::RequestFailed(m))
}

} // verus!
