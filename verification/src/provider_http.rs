//! The HTTP request a provider call would make: method, URL, headers with
//! the API key kept out of debugging text, and a JSON body that carries
//! only the sanitized request.

use vstd::prelude::*;
use crate::ai_gateway::{
    config_check, GatewayError, ProviderConfig, ProviderConnectionTest, ProviderCredentials,
    ProviderKind, SanitizedAiRequest, SanitizedFileInput, SizeBucket,
};
use crate::json::{json_opt_str, json_str};
use crate::skill_engine::opt_view;
use crate::text::{ascii_lower, contains_seq, decimal, eq_ignore_ascii_case, strip_trailing, trim};

verus! {

broadcast use crate::text::lemma_chars_deep_view;

/// The base URL of the OpenAI-compatible provider when none is set.
pub const DEFAULT_OPENAI_COMPATIBLE_BASE_URL: &'static str = "https://api.openai.com/v1";

/// The base URL of a local Ollama when none is set.
pub const DEFAULT_OLLAMA_BASE_URL: &'static str = "http://localhost:11434";

/// One header of a provider request; its value is only handed out for the
/// call itself.
#[derive(Clone, PartialEq, Eq)]
pub struct ProviderHttpHeader {
    pub name: String,
    value: String,
}

/// A header name whose value is never shown: `Authorization` in any case,
/// or any name with `key` in it.
pub open spec fn redacts(name: Seq<char>) -> bool {
    eq_ignore_ascii_case(name, "authorization"@) || contains_seq(ascii_lower(name), "key"@)
}

/// The debugging text of a header, as its `Debug` would write these texts
/// (which need no escaping): the value is replaced by `<redacted>` when
/// the name calls for it.
pub open spec fn header_debug(name: Seq<char>, value: Seq<char>) -> Seq<char> {
    "ProviderHttpHeader { name: \""@ + name + "\", value: \""@ + (if redacts(name) {
        "<redacted>"@
    } else {
        value
    }) + "\" }"@
}

impl ProviderHttpHeader {
    /// The name of the header.
    pub closed spec fn name_text(&self) -> Seq<char> {
        self.name@
    }

    /// The value of the header.
    pub closed spec fn value_text(&self) -> Seq<char> {
        self.value@
    }

    /// A header whose value may be shown.
    pub(crate) fn public(name: &str, value: &str) -> (r: Self)
        ensures
            r.name_text() == name@,
            r.value_text() == value@,
    {
        ProviderHttpHeader { name: String::from_str(name), value: String::from_str(value) }
    }

    /// A header whose value is a secret.
    pub(crate) fn secret(name: &str, value: String) -> (r: Self)
        ensures
            r.name_text() == name@,
            r.value_text() == value@,
    {
        ProviderHttpHeader { name: String::from_str(name), value }
    }

    /// The value, for the provider call itself.
    pub fn expose_for_provider_call(&self) -> (r: &str)
        ensures
            r@ == self.value_text(),
    {
        self.value.as_str()
    }

    /// A debugging text that hides the value of secret headers.
    pub fn debug_text(&self) -> (r: String)
        ensures
            r@ == header_debug(self.name_text(), self.value_text()),
    {
        let n = crate::text::chars_of(self.name.as_str());
        let lower = crate::text::ascii_lower_chars(&n);
        let hidden = crate::text::eq_ignore_ascii_case_chars(&n, &crate::text::chars_of("authorization"))
            || crate::text::contains_chars(&lower, &crate::text::chars_of("key"));
        let mut r = String::from_str("ProviderHttpHeader { name: \"");
        r.append(self.name.as_str());
        r.append("\", value: \"");
        if hidden {
            r.append("<redacted>");
        } else {
            r.append(self.value.as_str());
        }
        r.append("\" }");
        r
    }
}

/// A header as name and value.
pub open spec fn header_view(h: ProviderHttpHeader) -> (Seq<char>, Seq<char>) {
    (h.name_text(), h.value_text())
}

/// Headers as names and values.
pub open spec fn headers_view(v: Seq<ProviderHttpHeader>) -> Seq<(Seq<char>, Seq<char>)> {
    v.map_values(|h: ProviderHttpHeader| header_view(h))
}

/// The request a provider call would make; `body` is JSON text.
#[derive(Clone, PartialEq, Eq)]
pub struct ProviderHttpRequest {
    pub method: String,
    pub url: String,
    pub headers: Vec<ProviderHttpHeader>,
    pub body: String,
}

/// The name of a size class, as `serde` writes the variant.
pub open spec fn bucket_name(b: SizeBucket) -> Seq<char> {
    match b {
        SizeBucket::Empty => "Empty"@,
        SizeBucket::Small => "Small"@,
        SizeBucket::Medium => "Medium"@,
        SizeBucket::Large => "Large"@,
    }
}

/// The JSON text of a sanitized file, fields in declaration order.
pub open spec fn file_json(f: SanitizedFileInput) -> Seq<char> {
    "{\"token\":"@ + json_str(f.token@) + ",\"extension\":"@ + json_opt_str(opt_view(f.extension))
        + ",\"mime\":"@ + json_opt_str(opt_view(f.mime)) + ",\"size_bucket\":\""@ + bucket_name(f.size_bucket)
        + "\",\"path_depth\":"@ + decimal(f.path_depth as int) + "}"@
}

/// The JSON texts of files, separated by commas.
pub open spec fn files_json(fs: Seq<SanitizedFileInput>) -> Seq<char>
    decreases fs.len(),
{
    if fs.len() == 0 {
        Seq::empty()
    } else if fs.len() == 1 {
        file_json(fs[0])
    } else {
        files_json(fs.drop_last()) + ","@ + file_json(fs.last())
    }
}

/// The JSON text of a sanitized request, fields in declaration order.
pub open spec fn request_json(r: SanitizedAiRequest) -> Seq<char> {
    "{\"prompt\":"@ + json_str(r.prompt@) + ",\"files\":["@ + files_json(r.files@) + "]}"@
}

/// The instruction sent as the system message to an OpenAI-compatible
/// provider.
pub open spec fn system_instruction() -> Seq<char> {
    "Return only JSON with summary and categories[{file_token,category,confidence}]. Do not include paths or file contents."@
}

/// The instruction that precedes the request in an Ollama prompt.
pub open spec fn ollama_instruction() -> Seq<char> {
    "Return only JSON with summary and categories[{file_token,category,confidence}] for this sanitized request: "@
}

/// The JSON body of an OpenAI-compatible chat request, keys in order.
pub open spec fn openai_body(model: Seq<char>, r: SanitizedAiRequest) -> Seq<char> {
    "{\"messages\":[{\"content\":"@ + json_str(system_instruction()) + ",\"role\":\"system\"},{\"content\":"@
        + json_str(request_json(r)) + ",\"role\":\"user\"}],\"model\":"@ + json_str(model)
        + ",\"response_format\":{\"type\":\"json_object\"},\"temperature\":0.1}"@
}

/// The JSON body of an Ollama generate request, keys in order.
pub open spec fn ollama_body(model: Seq<char>, r: SanitizedAiRequest) -> Seq<char> {
    "{\"format\":\"json\",\"model\":"@ + json_str(model) + ",\"options\":{\"temperature\":0.1},\"prompt\":"@
        + json_str(ollama_instruction() + request_json(r)) + ",\"stream\":false}"@
}

/// The configured text, or `default`.
pub open spec fn text_or(t: Option<String>, default: Seq<char>) -> Seq<char> {
    match t {
        Some(s) => s@,
        None => default,
    }
}

/// The URL of an endpoint: the base URL without trailing slashes, then
/// the path.
pub open spec fn endpoint(base: Seq<char>, path: Seq<char>) -> Seq<char> {
    strip_trailing(base, '/') + path
}

/// The API key of the credentials, when they hold one that is not blank.
pub open spec fn usable_key(c: Option<&ProviderCredentials>) -> Option<Seq<char>> {
    match c {
        Some(c) => if trim(c.key()).len() > 0 {
            Some(c.key())
        } else {
            None
        },
        None => None,
    }
}

/// `h` is the Ollama request for this config and sanitized request.
pub open spec fn is_ollama_request(h: ProviderHttpRequest, config: ProviderConfig, r: SanitizedAiRequest) -> bool {
    &&& h.method@ == "POST"@
    &&& h.url@ == endpoint(text_or(config.base_url, DEFAULT_OLLAMA_BASE_URL@), "/api/generate"@)
    &&& headers_view(h.headers@) == seq![("Content-Type"@, "application/json"@)]
    &&& h.body@ == ollama_body(text_or(config.model, "llama3.2"@), r)
}

/// `h` is the OpenAI-compatible request for this config, sanitized
/// request and API key.
pub open spec fn is_openai_request(
    h: ProviderHttpRequest,
    config: ProviderConfig,
    r: SanitizedAiRequest,
    key: Seq<char>,
) -> bool {
    &&& h.method@ == "POST"@
    &&& h.url@ == endpoint(text_or(config.base_url, DEFAULT_OPENAI_COMPATIBLE_BASE_URL@), "/chat/completions"@)
    &&& headers_view(h.headers@) == seq![
        ("Content-Type"@, "application/json"@),
        ("Authorization"@, "Bearer "@ + key),
    ]
    &&& h.body@ == openai_body(text_or(config.model, "default"@), r)
}

/// Appends the JSON text of a file.
fn append_file_json(out: &mut String, f: &SanitizedFileInput)
    ensures
        final(out)@ == old(out)@ + file_json(*f),
{
    out.append("{\"token\":");
    out.append(crate::text::string_of(&crate::json::json_str_of(f.token.as_str())).as_str());
    out.append(",\"extension\":");
    out.append(crate::text::string_of(&crate::json::json_opt_str_of(&f.extension)).as_str());
    out.append(",\"mime\":");
    out.append(crate::text::string_of(&crate::json::json_opt_str_of(&f.mime)).as_str());
    out.append(",\"size_bucket\":\"");
    match f.size_bucket {
        SizeBucket::Empty => out.append("Empty"),
        SizeBucket::Small => out.append("Small"),
        SizeBucket::Medium => out.append("Medium"),
        SizeBucket::Large => out.append("Large"),
    }
    out.append("\",\"path_depth\":");
    out.append(crate::text::unsigned_text(f.path_depth as u64).as_str());
    out.append("}");
}

/// The JSON text of a sanitized request.
pub fn request_json_of(r: &SanitizedAiRequest) -> (s: String)
    ensures
        s@ == request_json(*r),
{
    let mut s = String::from_str("{\"prompt\":");
    s.append(crate::text::string_of(&crate::json::json_str_of(r.prompt.as_str())).as_str());
    s.append(",\"files\":[");
    let ghost start = s@;
    let mut i: usize = 0;
    while i < r.files.len()
        invariant
            i <= r.files@.len(),
            s@ == start + files_json(r.files@.subrange(0, i as int)),
        decreases r.files.len() - i,
    {
        let ghost pre = r.files@.subrange(0, i + 1);
        assert(pre.drop_last() =~= r.files@.subrange(0, i as int));
        if i > 0 {
            s.append(",");
        }
        append_file_json(&mut s, &r.files[i]);
        proof {
            if i == 0 {
                assert(pre.len() == 1);
                assert(files_json(r.files@.subrange(0, 0)) =~= Seq::<char>::empty());
            }
        }
        assert(s@ =~= start + files_json(pre));
        i = i + 1;
    }
    assert(r.files@.subrange(0, r.files@.len() as int) =~= r.files@);
    s.append("]}");
    s
}

/// The text of `t`, or `default`.
fn text_or_of(t: &Option<String>, default: &str) -> (r: String)
    ensures
        r@ == text_or(*t, default@),
{
    match t {
        Some(s) => s.clone(),
        None => String::from_str(default),
    }
}

/// The URL of an endpoint.
fn endpoint_of(base: &str, path: &str) -> (r: String)
    ensures
        r@ == endpoint(base@, path@),
{
    let b = crate::text::strip_trailing_chars(&crate::text::chars_of(base), '/');
    crate::text::string_of(&b).concat(path)
}

/// The Ollama request for a config and a sanitized request.
fn build_ollama_request(config: &ProviderConfig, request: &SanitizedAiRequest) -> (h: ProviderHttpRequest)
    ensures
        is_ollama_request(h, *config, *request),
{
    let base = text_or_of(&config.base_url, DEFAULT_OLLAMA_BASE_URL);
    let model = text_or_of(&config.model, "llama3.2");
    let prompt = String::from_str(
        "Return only JSON with summary and categories[{file_token,category,confidence}] for this sanitized request: ",
    ).concat(request_json_of(request).as_str());
    let mut body = String::from_str("{\"format\":\"json\",\"model\":");
    body.append(crate::text::string_of(&crate::json::json_str_of(model.as_str())).as_str());
    body.append(",\"options\":{\"temperature\":0.1},\"prompt\":");
    body.append(crate::text::string_of(&crate::json::json_str_of(prompt.as_str())).as_str());
    body.append(",\"stream\":false}");
    let mut headers: Vec<ProviderHttpHeader> = Vec::new();
    headers.push(ProviderHttpHeader::public("Content-Type", "application/json"));
    let h = ProviderHttpRequest {
        method: String::from_str("POST"),
        url: endpoint_of(base.as_str(), "/api/generate"),
        headers,
        body,
    };
    assert(headers_view(h.headers@) =~= seq![("Content-Type"@, "application/json"@)]);
    assert(h.body@ =~= ollama_body(text_or(config.model, "llama3.2"@), *request));
    h
}

/// The OpenAI-compatible request for a config, a sanitized request and a key.
fn build_openai_compatible_request(config: &ProviderConfig, request: &SanitizedAiRequest, key: &str) -> (h: ProviderHttpRequest)
    ensures
        is_openai_request(h, *config, *request, key@),
{
    let base = text_or_of(&config.base_url, DEFAULT_OPENAI_COMPATIBLE_BASE_URL);
    let model = text_or_of(&config.model, "default");
    let mut body = String::from_str("{\"messages\":[{\"content\":");
    body.append(
        crate::text::string_of(
            &crate::json::json_str_of(
                "Return only JSON with summary and categories[{file_token,category,confidence}]. Do not include paths or file contents.",
            ),
        ).as_str(),
    );
    body.append(",\"role\":\"system\"},{\"content\":");
    body.append(crate::text::string_of(&crate::json::json_str_of(request_json_of(request).as_str())).as_str());
    body.append(",\"role\":\"user\"}],\"model\":");
    body.append(crate::text::string_of(&crate::json::json_str_of(model.as_str())).as_str());
    body.append(",\"response_format\":{\"type\":\"json_object\"},\"temperature\":0.1}");
    let mut headers: Vec<ProviderHttpHeader> = Vec::new();
    headers.push(ProviderHttpHeader::public("Content-Type", "application/json"));
    headers.push(ProviderHttpHeader::secret("Authorization", String::from_str("Bearer ").concat(key)));
    let h = ProviderHttpRequest {
        method: String::from_str("POST"),
        url: endpoint_of(base.as_str(), "/chat/completions"),
        headers,
        body,
    };
    assert(headers_view(h.headers@) =~= seq![
        ("Content-Type"@, "application/json"@),
        ("Authorization"@, "Bearer "@ + key@),
    ]);
    assert(h.body@ =~= openai_body(text_or(config.model, "default"@), *request));
    h
}

/// The request a provider call would make: none for the mock provider, the
/// local Ollama request, or the OpenAI-compatible request with the runtime
/// key. Refused as `validate_provider_config` refuses, and for the
/// OpenAI-compatible provider without a key that is not blank.
pub fn build_provider_request(
    config: &ProviderConfig,
    request: &SanitizedAiRequest,
    credentials: Option<&ProviderCredentials>,
) -> (r: Result<Option<ProviderHttpRequest>, GatewayError>)
    ensures
        match config_check(*config) {
            Err(GatewayError::UnsupportedProvider(p)) => r matches Err(GatewayError::UnsupportedProvider(q))
                && q@ == p@,
            Err(e) => r == Err::<Option<ProviderHttpRequest>, GatewayError>(e),
            Ok(ProviderKind::Mock) => r matches Ok(None),
            Ok(ProviderKind::Ollama) => r matches Ok(Some(h)) && is_ollama_request(h, *config, *request),
            Ok(ProviderKind::OpenAiCompatible) => match usable_key(credentials) {
                None => r == Err::<Option<ProviderHttpRequest>, GatewayError>(GatewayError::MissingApiKey),
                Some(k) => r matches Ok(Some(h)) && is_openai_request(h, *config, *request, k),
            },
        },
{
    let kind = crate::ai_gateway::validate_provider_config(config)?;
    match kind {
        ProviderKind::Mock => Ok(None),
        ProviderKind::Ollama => Ok(Some(build_ollama_request(config, request))),
        ProviderKind::OpenAiCompatible => {
            match credentials {
                Some(c) => {
                    let key = c.expose_for_provider_call();
                    let blank = crate::text::trim_chars(&crate::text::chars_of(key)).len() == 0;
                    if blank {
                        Err(GatewayError::MissingApiKey)
                    } else {
                        Ok(Some(build_openai_compatible_request(config, request, key)))
                    }
                },
                None => Err(GatewayError::MissingApiKey),
            }
        },
    }
}

/// The request used to try a provider: one small text file.
pub open spec fn is_probe_request(r: SanitizedAiRequest) -> bool {
    &&& r.prompt@ == "Return a valid JSON suggestion."@
    &&& r.files@.len() == 1
    &&& r.files@[0].token@ == "file_test"@
    &&& opt_view(r.files@[0].extension) == Some("txt"@)
    &&& opt_view(r.files@[0].mime) == Some("text/plain"@)
    &&& r.files@[0].size_bucket == SizeBucket::Small
    &&& r.files@[0].path_depth == 1
}

/// The request used to try a provider.
pub fn probe_request() -> (r: SanitizedAiRequest)
    ensures
        is_probe_request(r),
{
    let mut files: Vec<SanitizedFileInput> = Vec::new();
    files.push(
        SanitizedFileInput {
            token: String::from_str("file_test"),
            extension: Some(String::from_str("txt")),
            mime: Some(String::from_str("text/plain")),
            size_bucket: SizeBucket::Small,
            path_depth: 1,
        },
    );
    SanitizedAiRequest { prompt: String::from_str("Return a valid JSON suggestion."), files }
}

/// Tries a provider's settings without calling it: the request for a probe
/// request must be buildable. The message names the request's method and
/// URL, or says that the mock provider is ready.
pub fn test_provider_connection(config: &ProviderConfig, credentials: Option<&ProviderCredentials>) -> (r:
    Result<ProviderConnectionTest, GatewayError>)
    ensures
        match config_check(*config) {
            Err(GatewayError::UnsupportedProvider(p)) => r matches Err(GatewayError::UnsupportedProvider(q))
                && q@ == p@,
            Err(e) => r == Err::<ProviderConnectionTest, GatewayError>(e),
            Ok(ProviderKind::Mock) => r matches Ok(t) && t.provider@ == config.provider@ && t.request_valid
                && t.message@ == "mock provider ready"@,
            Ok(ProviderKind::Ollama) => r matches Ok(t) && t.provider@ == config.provider@ && t.request_valid
                && t.message@ == "request shape valid: POST "@ + endpoint(
                text_or(config.base_url, DEFAULT_OLLAMA_BASE_URL@),
                "/api/generate"@,
            ),
            Ok(ProviderKind::OpenAiCompatible) => match usable_key(credentials) {
                None => r == Err::<ProviderConnectionTest, GatewayError>(GatewayError::MissingApiKey),
                Some(k) => r matches Ok(t) && t.provider@ == config.provider@ && t.request_valid
                    && t.message@ == "request shape valid: POST "@ + endpoint(
                    text_or(config.base_url, DEFAULT_OPENAI_COMPATIBLE_BASE_URL@),
                    "/chat/completions"@,
                ),
            },
        },
{
    let request = probe_request();
    let shape = match build_provider_request(config, &request, credentials) {
        Ok(shape) => shape,
        Err(e) => {
            return Err(e);
        },
    };
    proof {
        reveal_strlit("request shape valid: ");
        reveal_strlit("POST");
        reveal_strlit(" ");
        reveal_strlit("request shape valid: POST ");
    }
    let message = match shape {
        Some(h) => String::from_str("request shape valid: ").concat(h.method.as_str()).concat(" ").concat(
            h.url.as_str(),
        ),
        None => String::from_str("mock provider ready"),
    };
    Ok(ProviderConnectionTest { provider: config.provider.clone(), request_valid: true, message })
}

} // verus!
