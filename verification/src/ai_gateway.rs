//! The gateway to AI providers: requests are stripped of paths and secrets
//! before anything leaves the machine, provider settings are checked, and
//! only structured suggestions come back.

use vstd::prelude::*;
use vstd::string::StringSliceAdditionalSpecFns;
use crate::text::{ascii_lower, contains_seq, is_whitespace, starts_with, strip_trailing, trim, unicode_lowercase};
use crate::skill_engine::opt_view;

verus! {

broadcast use crate::text::lemma_chars_deep_view;

/// A provider API key, held only for the call that needs it. It has no
/// `Debug`; `debug_text` shows it redacted.
#[derive(Clone)]
pub struct ProviderCredentials {
    api_key: String,
}

impl ProviderCredentials {
    /// The key these credentials hold.
    pub closed spec fn key(&self) -> Seq<char> {
        self.api_key@
    }

    /// Credentials holding `api_key`.
    pub fn new(api_key: String) -> (r: Self)
        ensures
            r.key() == api_key@,
    {
        ProviderCredentials { api_key }
    }

    /// The key, for the provider call itself.
    pub fn expose_for_provider_call(&self) -> (r: &str)
        ensures
            r@ == self.key(),
    {
        self.api_key.as_str()
    }

    /// A debugging text that never shows the key.
    pub fn debug_text(&self) -> (r: String)
        ensures
            r@ == "ProviderCredentials { api_key: \"<redacted>\" }"@,
    {
        String::from_str("ProviderCredentials { api_key: \"<redacted>\" }")
    }
}

/// A request to the gateway, before sanitizing.
#[derive(Debug, Clone, PartialEq, Eq)]
pub struct AiGatewayRequest {
    pub prompt: String,
    pub files: Vec<AiFileInput>,
    pub cloud_enabled: bool,
}

/// A file as the caller knows it, with its absolute path.
#[derive(Debug, Clone, PartialEq, Eq)]
pub struct AiFileInput {
    pub absolute_path: String,
    pub extension: Option<String>,
    pub mime: Option<String>,
    pub size_bytes: u64,
}

/// A request as it may be sent to a provider.
#[derive(Debug, Clone, PartialEq, Eq)]
pub struct SanitizedAiRequest {
    pub prompt: String,
    pub files: Vec<SanitizedFileInput>,
}

/// A file as a provider may see it: a token in place of its path.
#[derive(Debug, Clone, PartialEq, Eq)]
pub struct SanitizedFileInput {
    pub token: String,
    pub extension: Option<String>,
    pub mime: Option<String>,
    pub size_bucket: SizeBucket,
    pub path_depth: usize,
}

/// A coarse size class in place of an exact size.
#[derive(Debug, Clone, Copy, PartialEq, Eq, Structural)]
pub enum SizeBucket {
    Empty,
    Small,
    Medium,
    Large,
}

/// The size class of a size: empty, up to 1 MiB, up to 100 MiB, larger.
pub open spec fn size_bucket(n: u64) -> SizeBucket {
    if n == 0 {
        SizeBucket::Empty
    } else if n <= 1_048_576 {
        SizeBucket::Small
    } else if n <= 104_857_600 {
        SizeBucket::Medium
    } else {
        SizeBucket::Large
    }
}

impl SizeBucket {
    /// The size class of a size in bytes.
    pub fn from_bytes(size_bytes: u64) -> (r: Self)
        ensures
            r == size_bucket(size_bytes),
    {
        if size_bytes == 0 {
            SizeBucket::Empty
        } else if size_bytes <= 1_048_576 {
            SizeBucket::Small
        } else if size_bytes <= 104_857_600 {
            SizeBucket::Medium
        } else {
            SizeBucket::Large
        }
    }
}

/// What a provider suggests.
#[derive(Debug, Clone, PartialEq, Eq)]
pub struct StructuredPlanSuggestion {
    pub provider: String,
    pub summary: String,
    pub categories: Vec<CategorySuggestion>,
}

/// A category suggested for one file token; confidence in percent.
#[derive(Debug, Clone, PartialEq, Eq)]
pub struct CategorySuggestion {
    pub file_token: String,
    pub category: String,
    pub confidence: u8,
}

/// The settings of one provider, without any credential.
#[derive(Debug, Clone, PartialEq, Eq)]
pub struct ProviderConfig {
    pub provider: String,
    pub base_url: Option<String>,
    pub model: Option<String>,
    pub cloud_enabled: bool,
}

/// A provider the gateway supports.
#[derive(Debug, Clone, PartialEq, Eq)]
pub struct ProviderDescriptor {
    pub provider: String,
    pub label: String,
    pub requires_base_url: bool,
    pub requires_api_key: bool,
    pub cloud: bool,
}

/// The kinds of provider.
#[derive(Debug, Clone, Copy, PartialEq, Eq, Structural)]
pub enum ProviderKind {
    Mock,
    Ollama,
    OpenAiCompatible,
}

/// The outcome of checking a provider's settings.
#[derive(Debug, Clone, PartialEq, Eq)]
pub struct ProviderConnectionTest {
    pub provider: String,
    pub request_valid: bool,
    pub message: String,
}

/// Why the gateway refused.
#[derive(Debug, Clone, PartialEq, Eq)]
pub enum GatewayError {
    UnsupportedProvider(String),
    CloudNotEnabled,
    MissingBaseUrl,
    MissingApiKey,
    /// The provider's raw response is not JSON; the parser's message.
    InvalidResponseJson(String),
    /// The structured suggestion is not JSON; the parser's message.
    InvalidSuggestionJson(String),
    MissingMessageContent,
    MissingResponseText,
    MissingSummary,
    MissingCategories,
    MissingFileToken(usize),
    UnknownFileToken(usize),
    MissingCategory(usize),
    MissingConfidence(usize),
    ConfidenceOutOfRange(usize),
}

/// The beginning of a message about the category suggestion at `i`.
pub open spec fn at_index(i: usize) -> Seq<char> {
    "category suggestion at index "@ + crate::text::decimal(i as int)
}

/// The message of a gateway error.
pub open spec fn gateway_error_text(e: GatewayError) -> Seq<char> {
    match e {
        GatewayError::UnsupportedProvider(p) => "unsupported AI provider: "@ + p@,
        GatewayError::CloudNotEnabled => "cloud provider requires explicit cloud_enabled=true"@,
        GatewayError::MissingBaseUrl => "openai-compatible provider requires base_url"@,
        GatewayError::MissingApiKey => "openai-compatible provider requires runtime API key"@,
        GatewayError::InvalidResponseJson(d) => "provider response is invalid JSON: "@ + d@,
        GatewayError::InvalidSuggestionJson(d) => "structured suggestion is invalid JSON: "@ + d@,
        GatewayError::MissingMessageContent => "provider response missing choices[0].message.content JSON string"@,
        GatewayError::MissingResponseText => "provider response missing response JSON string"@,
        GatewayError::MissingSummary => "structured suggestion missing non-empty summary"@,
        GatewayError::MissingCategories => "structured suggestion missing categories array"@,
        GatewayError::MissingFileToken(i) => at_index(i) + " missing file_token"@,
        GatewayError::UnknownFileToken(i) => at_index(i) + " references unknown file_token"@,
        GatewayError::MissingCategory(i) => at_index(i) + " missing category"@,
        GatewayError::MissingConfidence(i) => at_index(i) + " missing confidence"@,
        GatewayError::ConfidenceOutOfRange(i) => at_index(i) + " confidence must be 0..=100"@,
    }
}

/// The beginning of a message about the category suggestion at `i`.
fn at_index_text(i: usize) -> (r: String)
    ensures
        r@ == at_index(i),
{
    String::from_str("category suggestion at index ").concat(crate::text::unsigned_text(i as u64).as_str())
}

impl GatewayError {
    /// The message of the error.
    pub fn message(&self) -> (r: String)
        ensures
            r@ == gateway_error_text(*self),
    {
        match self {
            GatewayError::UnsupportedProvider(p) => String::from_str("unsupported AI provider: ").concat(p.as_str()),
            GatewayError::CloudNotEnabled => String::from_str("cloud provider requires explicit cloud_enabled=true"),
            GatewayError::MissingBaseUrl => String::from_str("openai-compatible provider requires base_url"),
            GatewayError::MissingApiKey => String::from_str("openai-compatible provider requires runtime API key"),
            GatewayError::InvalidResponseJson(d) => String::from_str("provider response is invalid JSON: ").concat(d.as_str()),
            GatewayError::InvalidSuggestionJson(d) => String::from_str("structured suggestion is invalid JSON: ").concat(
                d.as_str(),
            ),
            GatewayError::MissingMessageContent => String::from_str(
                "provider response missing choices[0].message.content JSON string",
            ),
            GatewayError::MissingResponseText => String::from_str("provider response missing response JSON string"),
            GatewayError::MissingSummary => String::from_str("structured suggestion missing non-empty summary"),
            GatewayError::MissingCategories => String::from_str("structured suggestion missing categories array"),
            GatewayError::MissingFileToken(i) => at_index_text(*i).concat(" missing file_token"),
            GatewayError::UnknownFileToken(i) => at_index_text(*i).concat(" references unknown file_token"),
            GatewayError::MissingCategory(i) => at_index_text(*i).concat(" missing category"),
            GatewayError::MissingConfidence(i) => at_index_text(*i).concat(" missing confidence"),
            GatewayError::ConfidenceOutOfRange(i) => at_index_text(*i).concat(" confidence must be 0..=100"),
        }
    }
}

/// A descriptor of a supported provider.
fn descriptor(provider: &str, label: &str, requires_base_url: bool, requires_api_key: bool, cloud: bool) -> (r: ProviderDescriptor)
    ensures
        r.provider@ == provider@,
        r.label@ == label@,
        r.requires_base_url == requires_base_url,
        r.requires_api_key == requires_api_key,
        r.cloud == cloud,
{
    ProviderDescriptor {
        provider: String::from_str(provider),
        label: String::from_str(label),
        requires_base_url,
        requires_api_key,
        cloud,
    }
}

/// The supported providers: a mock and a local Ollama, both without base
/// URL or key and not in the cloud, and an OpenAI-compatible cloud provider
/// that needs both.
pub fn provider_registry() -> (r: Vec<ProviderDescriptor>)
    ensures
        r@.len() == 3,
        r@[0].provider@ == "mock"@ && r@[0].label@ == "Mock"@ && !r@[0].requires_base_url
            && !r@[0].requires_api_key && !r@[0].cloud,
        r@[1].provider@ == "ollama"@ && r@[1].label@ == "Ollama"@ && !r@[1].requires_base_url
            && !r@[1].requires_api_key && !r@[1].cloud,
        r@[2].provider@ == "openai-compatible"@ && r@[2].label@ == "OpenAI-compatible"@
            && r@[2].requires_base_url && r@[2].requires_api_key && r@[2].cloud,
{
    let mut r: Vec<ProviderDescriptor> = Vec::new();
    r.push(descriptor("mock", "Mock", false, false, false));
    r.push(descriptor("ollama", "Ollama", false, false, false));
    r.push(descriptor("openai-compatible", "OpenAI-compatible", true, true, true));
    r
}

/// The kind a provider name stands for; the OpenAI-compatible kind has aliases.
pub open spec fn provider_kind(p: Seq<char>) -> Option<ProviderKind> {
    if p == "mock"@ {
        Some(ProviderKind::Mock)
    } else if p == "ollama"@ {
        Some(ProviderKind::Ollama)
    } else if p == "openai-compatible"@ || p == "openai_compatible"@ || p == "deepseek"@ || p == "kimi"@ {
        Some(ProviderKind::OpenAiCompatible)
    } else {
        None
    }
}

/// The kind a provider name stands for; unknown names are refused.
pub fn parse_provider_kind(provider: &str) -> (r: Result<ProviderKind, GatewayError>)
    ensures
        match provider_kind(provider@) {
            Some(k) => r == Ok::<ProviderKind, GatewayError>(k),
            None => r matches Err(GatewayError::UnsupportedProvider(p)) && p@ == provider@,
        },
{
    let p = crate::text::chars_of(provider);
    if crate::text::text_is(&p, "mock") {
        Ok(ProviderKind::Mock)
    } else if crate::text::text_is(&p, "ollama") {
        Ok(ProviderKind::Ollama)
    } else if crate::text::text_is(&p, "openai-compatible") || crate::text::text_is(&p, "openai_compatible")
        || crate::text::text_is(&p, "deepseek") || crate::text::text_is(&p, "kimi") {
        Ok(ProviderKind::OpenAiCompatible)
    } else {
        Err(GatewayError::UnsupportedProvider(String::from_str(provider)))
    }
}

/// The base URL of a config, trimmed; empty when absent.
pub open spec fn trimmed_base_url(config: ProviderConfig) -> Seq<char> {
    match config.base_url {
        Some(u) => trim(u@),
        None => Seq::empty(),
    }
}

/// The outcome of checking a provider config: an unknown provider is
/// refused; a cloud provider needs `cloud_enabled` and a base URL.
pub open spec fn config_check(config: ProviderConfig) -> Result<ProviderKind, GatewayError> {
    match provider_kind(config.provider@) {
        None => Err(GatewayError::UnsupportedProvider(config.provider)),
        Some(ProviderKind::OpenAiCompatible) => if !config.cloud_enabled {
            Err(GatewayError::CloudNotEnabled)
        } else if trimmed_base_url(config).len() == 0 {
            Err(GatewayError::MissingBaseUrl)
        } else {
            Ok(ProviderKind::OpenAiCompatible)
        },
        Some(k) => Ok(k),
    }
}

/// Checks a provider config; see `config_check`.
pub fn validate_provider_config(config: &ProviderConfig) -> (r: Result<ProviderKind, GatewayError>)
    ensures
        match config_check(*config) {
            Err(GatewayError::UnsupportedProvider(p)) => r matches Err(GatewayError::UnsupportedProvider(q)) && q@ == p@,
            other => r == other,
        },
{
    let kind = parse_provider_kind(config.provider.as_str())?;
    match kind {
        ProviderKind::OpenAiCompatible => {
            if !config.cloud_enabled {
                return Err(GatewayError::CloudNotEnabled);
            }
            let empty = match &config.base_url {
                Some(u) => crate::text::trim_chars(&crate::text::chars_of(u.as_str())).len() == 0,
                None => true,
            };
            if empty {
                return Err(GatewayError::MissingBaseUrl);
            }
            Ok(kind)
        },
        _ => Ok(kind),
    }
}

/// The category the mock provider suggests for an extension.
pub open spec fn mock_category(extension: Option<Seq<char>>) -> Seq<char> {
    let e = ascii_lower(match extension {
        Some(e) => e,
        None => Seq::empty(),
    });
    if e == "jpg"@ || e == "jpeg"@ || e == "png"@ || e == "gif"@ || e == "webp"@ {
        "Images"@
    } else if e == "pdf"@ || e == "doc"@ || e == "docx"@ || e == "txt"@ || e == "md"@ {
        "Documents"@
    } else if e == "mp4"@ || e == "mov"@ || e == "avi"@ {
        "Videos"@
    } else if e == "mp3"@ || e == "wav"@ || e == "flac"@ {
        "Audio"@
    } else {
        "Other"@
    }
}

/// The category the mock provider suggests for an extension.
pub fn category_for_extension(extension: &Option<String>) -> (r: String)
    ensures
        r@ == mock_category(opt_view(*extension)),
{
    let raw = match extension {
        Some(e) => crate::text::chars_of(e.as_str()),
        None => Vec::new(),
    };
    let e = crate::text::ascii_lower_chars(&raw);
    let is = |lit: &str| -> (b: bool)
        ensures
            b == (e@ == lit@),
        { crate::text::text_is(&e, lit) };
    if is("jpg") || is("jpeg") || is("png") || is("gif") || is("webp") {
        String::from_str("Images")
    } else if is("pdf") || is("doc") || is("docx") || is("txt") || is("md") {
        String::from_str("Documents")
    } else if is("mp4") || is("mov") || is("avi") {
        String::from_str("Videos")
    } else if is("mp3") || is("wav") || is("flac") {
        String::from_str("Audio")
    } else {
        String::from_str("Other")
    }
}

/// A provider that answers locally with suggestions from extensions only.
#[derive(Debug, Clone, Copy, Default)]
pub struct MockProvider;

impl MockProvider {
    /// One suggestion per file, in order, from its extension, at 70 percent.
    pub fn suggest(&self, request: &SanitizedAiRequest) -> (r: StructuredPlanSuggestion)
        ensures
            r.provider@ == "mock"@,
            r.summary@ == "Mock provider generated classification suggestions only."@,
            r.categories@.len() == request.files@.len(),
            forall|i: int| 0 <= i < r.categories@.len() ==> {
                &&& (#[trigger] r.categories@[i]).file_token@ == request.files@[i].token@
                &&& r.categories@[i].category@ == mock_category(opt_view(request.files@[i].extension))
                &&& r.categories@[i].confidence == 70
            },
    {
        let mut categories: Vec<CategorySuggestion> = Vec::new();
        let mut i: usize = 0;
        while i < request.files.len()
            invariant
                i <= request.files@.len(),
                categories@.len() == i,
                forall|k: int| 0 <= k < i ==> {
                    &&& (#[trigger] categories@[k]).file_token@ == request.files@[k].token@
                    &&& categories@[k].category@ == mock_category(opt_view(request.files@[k].extension))
                    &&& categories@[k].confidence == 70
                },
            decreases request.files.len() - i,
        {
            let f = &request.files[i];
            categories.push(CategorySuggestion {
                category: category_for_extension(&f.extension),
                confidence: 70,
                file_token: f.token.clone(),
            });
            i = i + 1;
        }
        StructuredPlanSuggestion {
            provider: String::from_str("mock"),
            summary: String::from_str("Mock provider generated classification suggestions only."),
            categories,
        }
    }
}


/// The words of `s` after the word being read (`cur`): runs of characters
/// that are not whitespace, as `str::split_whitespace` yields them.
pub open spec fn words_from(s: Seq<char>, cur: Seq<char>) -> Seq<Seq<char>>
    decreases s.len(),
{
    let keep = if cur.len() > 0 { seq![cur] } else { Seq::empty() };
    if s.len() == 0 {
        keep
    } else if is_whitespace(s[0]) {
        keep + words_from(s.drop_first(), Seq::empty())
    } else {
        words_from(s.drop_first(), cur.push(s[0]))
    }
}

/// The words of `s`.
pub open spec fn words(s: Seq<char>) -> Seq<Seq<char>> {
    words_from(s, Seq::empty())
}

/// The word looks like an absolute path: it starts with `/` or `~`, or
/// its second byte is `:` (as in `C:`).
pub open spec fn looks_like_absolute_path(w: Seq<char>) -> bool {
    ||| (w.len() > 0 && (w[0] == '/' || w[0] == '~'))
    ||| (w.len() >= 2 && (w[0] as u32) < 128 && w[1] == ':')
}

/// A word of a prompt that must not leave the machine: a key assignment,
/// an authorization header, a secret key, or an absolute path.
pub open spec fn is_secret_word(w: Seq<char>) -> bool {
    let lower = ascii_lower(w);
    ||| contains_seq(lower, "api_key="@)
    ||| contains_seq(lower, "apikey="@)
    ||| contains_seq(lower, "authorization:"@)
    ||| starts_with(lower, "sk-"@)
    ||| looks_like_absolute_path(w)
}

/// A word as it may be sent.
pub open spec fn redact_word(w: Seq<char>) -> Seq<char> {
    if is_secret_word(w) {
        "<redacted>"@
    } else {
        w
    }
}

/// The words joined with single spaces.
pub open spec fn join_with_space(ws: Seq<Seq<char>>) -> Seq<char>
    decreases ws.len(),
{
    if ws.len() == 0 {
        Seq::empty()
    } else if ws.len() == 1 {
        ws[0]
    } else {
        join_with_space(ws.drop_last()) + seq![' '] + ws.last()
    }
}

/// The prompt as it may be sent: its words, secrets redacted, joined by spaces.
pub open spec fn redacted_prompt(prompt: Seq<char>) -> Seq<char> {
    join_with_space(words(prompt).map_values(|w: Seq<char>| redact_word(w)))
}

/// The number of runs of characters other than `/` in a path.
pub open spec fn path_depth(s: Seq<char>) -> nat
    decreases s.len(),
{
    if s.len() == 0 {
        0
    } else {
        path_depth(s.drop_last()) + if s.last() != '/' && (s.len() == 1 || s[s.len() - 2] == '/') {
            1nat
        } else {
            0nat
        }
    }
}

/// The stable token of a path: `file_` and the hexadecimal text of the
/// first eight bytes of its SHA-256 digest.
pub open spec fn file_token(path: Seq<u8>) -> Seq<char> {
    "file_"@ + crate::hashing::hex_text(crate::hashing::sha256_of(path).subrange(0, 8))
}

/// `out` is the sanitized form of `f`.
pub open spec fn is_sanitized_file(out: SanitizedFileInput, f: AiFileInput) -> bool {
    &&& out.token@ == file_token(vstd::utf8::encode_utf8(f.absolute_path@))
    &&& opt_view(out.extension) == match f.extension {
        Some(e) => Some(unicode_lowercase(e@)),
        None => None,
    }
    &&& opt_view(out.mime) == opt_view(f.mime)
    &&& out.size_bucket == size_bucket(f.size_bytes)
    &&& out.path_depth == path_depth(f.absolute_path@)
}

/// One step of reading words.
proof fn lemma_words_step(s: Seq<char>, i: int, cur: Seq<char>)
    requires
        0 <= i < s.len(),
    ensures
        words_from(s.subrange(i, s.len() as int), cur) == if is_whitespace(s[i]) {
            (if cur.len() > 0 { seq![cur] } else { Seq::<Seq<char>>::empty() }) + words_from(s.subrange(i + 1, s.len() as int), Seq::empty())
        } else {
            words_from(s.subrange(i + 1, s.len() as int), cur.push(s[i]))
        },
{
    assert(s.subrange(i, s.len() as int).drop_first() =~= s.subrange(i + 1, s.len() as int));
}

/// The words of `s`.
fn words_of(s: &Vec<char>) -> (r: Vec<Vec<char>>)
    ensures
        r.deep_view() == words(s@),
{
    let mut out: Vec<Vec<char>> = Vec::new();
    let mut cur: Vec<char> = Vec::new();
    let mut i: usize = 0;
    assert(s@.subrange(0, s@.len() as int) =~= s@);
    while i < s.len()
        invariant
            i <= s@.len(),
            out.deep_view() + words_from(s@.subrange(i as int, s@.len() as int), cur@) == words(s@),
        decreases s.len() - i,
    {
        proof {
            lemma_words_step(s@, i as int, cur@);
        }
        if crate::text::is_whitespace_char(s[i]) {
            let ghost before = out.deep_view();
            let ghost c = cur@;
            if cur.len() > 0 {
                out.push(cur);
                proof {
                    assert(out.deep_view() =~= before.push(c));
                    assert(before + (seq![c] + words_from(s@.subrange(i + 1, s@.len() as int), Seq::empty()))
                        =~= before.push(c) + words_from(s@.subrange(i + 1, s@.len() as int), Seq::empty()));
                }
            } else {
                proof {
                    assert(before + (Seq::<Seq<char>>::empty() + words_from(s@.subrange(i + 1, s@.len() as int), Seq::empty()))
                        =~= before + words_from(s@.subrange(i + 1, s@.len() as int), Seq::empty()));
                }
            }
            cur = Vec::new();
        } else {
            cur.push(s[i]);
        }
        i = i + 1;
    }
    assert(s@.subrange(i as int, s@.len() as int) =~= Seq::<char>::empty());
    let ghost before = out.deep_view();
    let ghost c = cur@;
    if cur.len() > 0 {
        out.push(cur);
        assert(out.deep_view() =~= before + seq![c]);
    } else {
        assert(before + Seq::<Seq<char>>::empty() =~= before);
    }
    out
}

/// Whether a word must be redacted.
fn is_secret_word_of(w: &Vec<char>) -> (r: bool)
    ensures
        r == is_secret_word(w@),
{
    let lower = crate::text::ascii_lower_chars(w);
    let has = |lit: &str| -> (b: bool)
        ensures
            b == contains_seq(lower@, lit@),
        { crate::text::contains_chars(&lower, &crate::text::chars_of(lit)) };
    let absolute = (w.len() > 0 && (w[0] == '/' || w[0] == '~')) || (w.len() >= 2 && (w[0] as u32) < 128 && w[1] == ':');
    has("api_key=") || has("apikey=") || has("authorization:")
        || crate::text::starts_with_chars(&lower, &crate::text::chars_of("sk-")) || absolute
}

/// Removes secrets and absolute paths from a prompt, word by word.
pub fn redact_secrets(input: &str) -> (r: String)
    ensures
        r@ == redacted_prompt(input@),
{
    let ws = words_of(&crate::text::chars_of(input));
    let ghost mapped = ws.deep_view().map_values(|w: Seq<char>| redact_word(w));
    let mut out: Vec<char> = Vec::new();
    let mut i: usize = 0;
    while i < ws.len()
        invariant
            i <= ws@.len(),
            mapped == ws.deep_view().map_values(|w: Seq<char>| redact_word(w)),
            out@ == join_with_space(mapped.subrange(0, i as int)),
        decreases ws.len() - i,
    {
        let word: Vec<char> = if is_secret_word_of(&ws[i]) { crate::text::chars_of("<redacted>") } else { ws[i].clone() };
        proof {
            assert(word@ == mapped[i as int]);
            assert(mapped.subrange(0, i + 1).drop_last() =~= mapped.subrange(0, i as int));
        }
        if i > 0 {
            out.push(' ');
        }
        out = crate::text::concat_chars(&out, &word);
        proof {
            if i == 0 {
                assert(mapped.subrange(0, 0) =~= Seq::<Seq<char>>::empty());
                assert(out@ =~= word@);
            } else {
                assert(out@ =~= join_with_space(mapped.subrange(0, i as int)) + seq![' '] + word@);
            }
        }
        i = i + 1;
    }
    assert(mapped.subrange(0, ws@.len() as int) =~= mapped);
    crate::text::string_of(&out)
}

/// The number of runs of characters other than `/`.
fn path_depth_of(s: &Vec<char>) -> (r: usize)
    ensures
        r == path_depth(s@),
{
    let mut n: usize = 0;
    let mut i: usize = 0;
    assert(s@.subrange(0, 0) =~= Seq::<char>::empty());
    while i < s.len()
        invariant
            i <= s@.len(),
            n == path_depth(s@.subrange(0, i as int)),
            n <= i,
        decreases s.len() - i,
    {
        proof {
            let t = s@.subrange(0, i + 1);
            assert(t.drop_last() =~= s@.subrange(0, i as int));
            assert(t.last() == s@[i as int]);
            if i > 0 {
                assert(t[t.len() - 2] == s@[i - 1]);
            }
        }
        if s[i] != '/' && (i == 0 || s[i - 1] == '/') {
            n = n + 1;
        }
        i = i + 1;
    }
    assert(s@.subrange(0, s@.len() as int) =~= s@);
    n
}

/// The stable token of a path.
pub fn stable_file_token(path: &str) -> (r: String)
    ensures
        r@ == file_token(path.spec_bytes()),
{
    let d = crate::hashing::sha256(path.as_bytes());
    let hex = crate::hashing::hex_prefix(&d, 8);
    String::from_str("file_").concat(hex.as_str())
}

/// Strips a request of paths and secrets: the prompt loses secret words,
/// each path becomes a token and a depth, each size a size class, and
/// extensions are lower-cased.
pub fn desensitize_request(request: &AiGatewayRequest) -> (r: SanitizedAiRequest)
    ensures
        r.prompt@ == redacted_prompt(request.prompt@),
        r.files@.len() == request.files@.len(),
        forall|i: int| 0 <= i < r.files@.len() ==> is_sanitized_file(#[trigger] r.files@[i], request.files@[i]),
{
    let mut files: Vec<SanitizedFileInput> = Vec::new();
    let mut i: usize = 0;
    while i < request.files.len()
        invariant
            i <= request.files@.len(),
            files@.len() == i,
            forall|k: int| 0 <= k < i ==> is_sanitized_file(#[trigger] files@[k], request.files@[k]),
        decreases request.files.len() - i,
    {
        let f = &request.files[i];
        files.push(SanitizedFileInput {
            token: stable_file_token(f.absolute_path.as_str()),
            extension: match &f.extension {
                Some(e) => Some(crate::text::to_lowercase(e.as_str())),
                None => None,
            },
            mime: crate::model::copy_opt_text(&f.mime),
            size_bucket: SizeBucket::from_bytes(f.size_bytes),
            path_depth: path_depth_of(&crate::text::chars_of(f.absolute_path.as_str())),
        });
        i = i + 1;
    }
    SanitizedAiRequest { prompt: redact_secrets(request.prompt.as_str()), files }
}

/// The gateway in front of one provider.
pub struct AiGateway<P> {
    provider: P,
}

impl<P> AiGateway<P> {
    /// The provider behind the gateway.
    pub closed spec fn provider_view(&self) -> P {
        self.provider
    }

    /// A gateway in front of `provider`.
    pub fn new(provider: P) -> (r: Self)
        ensures
            r.provider_view() == provider,
    {
        AiGateway { provider }
    }

    /// The provider behind the gateway.
    pub fn provider(&self) -> (r: &P)
        ensures
            *r == self.provider_view(),
    {
        &self.provider
    }

    /// The request as the provider may receive it: always sanitized first.
    pub fn prepare(&self, request: &AiGatewayRequest) -> (r: SanitizedAiRequest)
        ensures
            r.prompt@ == redacted_prompt(request.prompt@),
            r.files@.len() == request.files@.len(),
            forall|i: int| 0 <= i < r.files@.len() ==> is_sanitized_file(#[trigger] r.files@[i], request.files@[i]),
    {
        desensitize_request(request)
    }
}


/// Spells out the extension literals of the mock provider's table.
proof fn lemma_mock_spellings()
    ensures
        "jpg"@.len() == 3 && "jpg"@[0] == 'j' && "jpg"@[1] == 'p' && "jpg"@[2] == 'g',
        "jpeg"@.len() == 4 && "jpeg"@[0] == 'j' && "jpeg"@[1] == 'p' && "jpeg"@[2] == 'e' && "jpeg"@[3] == 'g',
        "png"@.len() == 3 && "png"@[0] == 'p' && "png"@[1] == 'n' && "png"@[2] == 'g',
        "gif"@.len() == 3 && "gif"@[0] == 'g' && "gif"@[1] == 'i' && "gif"@[2] == 'f',
        "webp"@.len() == 4 && "webp"@[0] == 'w' && "webp"@[1] == 'e' && "webp"@[2] == 'b' && "webp"@[3] == 'p',
        "pdf"@.len() == 3 && "pdf"@[0] == 'p' && "pdf"@[1] == 'd' && "pdf"@[2] == 'f',
        "doc"@.len() == 3 && "doc"@[0] == 'd' && "doc"@[1] == 'o' && "doc"@[2] == 'c',
        "docx"@.len() == 4 && "docx"@[0] == 'd' && "docx"@[1] == 'o' && "docx"@[2] == 'c' && "docx"@[3] == 'x',
        "txt"@.len() == 3 && "txt"@[0] == 't' && "txt"@[1] == 'x' && "txt"@[2] == 't',
        "md"@.len() == 2 && "md"@[0] == 'm' && "md"@[1] == 'd',
        "mp4"@.len() == 3 && "mp4"@[0] == 'm' && "mp4"@[1] == 'p' && "mp4"@[2] == '4',
        "mov"@.len() == 3 && "mov"@[0] == 'm' && "mov"@[1] == 'o' && "mov"@[2] == 'v',
        "avi"@.len() == 3 && "avi"@[0] == 'a' && "avi"@[1] == 'v' && "avi"@[2] == 'i',
        "mp3"@.len() == 3 && "mp3"@[0] == 'm' && "mp3"@[1] == 'p' && "mp3"@[2] == '3',
        "wav"@.len() == 3 && "wav"@[0] == 'w' && "wav"@[1] == 'a' && "wav"@[2] == 'v',
        "flac"@.len() == 4 && "flac"@[0] == 'f' && "flac"@[1] == 'l' && "flac"@[2] == 'a' && "flac"@[3] == 'c',
{
    reveal_strlit("jpg");
    reveal_strlit("jpeg");
    reveal_strlit("png");
    reveal_strlit("gif");
    reveal_strlit("webp");
    reveal_strlit("pdf");
    reveal_strlit("doc");
    reveal_strlit("docx");
    reveal_strlit("txt");
    reveal_strlit("md");
    reveal_strlit("mp4");
    reveal_strlit("mov");
    reveal_strlit("avi");
    reveal_strlit("mp3");
    reveal_strlit("wav");
    reveal_strlit("flac");
}

/// The mock provider's table, up to ASCII case: jpg, jpeg, png, gif and webp
/// are images; pdf, doc, docx, txt and md documents; mp4, mov and avi
/// videos; mp3, wav and flac audio; anything else, or no extension, other.
pub proof fn law_mock_category_table(e: Seq<char>)
    ensures
        ({
            let x = ascii_lower(e);
            let images = x == "jpg"@ || x == "jpeg"@ || x == "png"@ || x == "gif"@ || x == "webp"@;
            let documents = x == "pdf"@ || x == "doc"@ || x == "docx"@ || x == "txt"@ || x == "md"@;
            let videos = x == "mp4"@ || x == "mov"@ || x == "avi"@;
            let audio = x == "mp3"@ || x == "wav"@ || x == "flac"@;
            &&& images ==> mock_category(Some(e)) == "Images"@
            &&& documents ==> mock_category(Some(e)) == "Documents"@
            &&& videos ==> mock_category(Some(e)) == "Videos"@
            &&& audio ==> mock_category(Some(e)) == "Audio"@
            &&& !(images || documents || videos || audio) ==> mock_category(Some(e)) == "Other"@
        }),
        mock_category(None) == "Other"@,
{
    lemma_mock_spellings();
    assert(ascii_lower(Seq::<char>::empty()) =~= Seq::<char>::empty());
}


/// Lower-casing ASCII letters goes character by character.
proof fn lemma_ascii_lower_concat(a: Seq<char>, b: Seq<char>)
    ensures
        ascii_lower(a + b) == ascii_lower(a) + ascii_lower(b),
{
    assert(ascii_lower(a + b) =~= ascii_lower(a) + ascii_lower(b));
}

/// `lit` occurs in `p + x + q` after lower-casing, where `x` lower-cases to `lit`.
proof fn lemma_lowered_occurrence(p: Seq<char>, x: Seq<char>, q: Seq<char>, lit: Seq<char>)
    requires
        ascii_lower(x) == lit,
    ensures
        contains_seq(ascii_lower(p + x + q), lit),
{
    lemma_ascii_lower_concat(p + x, q);
    lemma_ascii_lower_concat(p, x);
    let l = ascii_lower(p + x + q);
    assert(l.subrange(p.len() as int, (p.len() + lit.len()) as int) =~= lit);
}

/// A word never leaves the machine as it is, but as `<redacted>`, when it
/// holds a key assignment (`api_key=`, `apikey=`) or an authorization header
/// (`authorization:`) in any letter case, begins with a secret-key prefix
/// (`sk-`, in any letter case), or begins like an absolute path (`/`, `~`,
/// or an ASCII character and `:` as in a drive letter).
pub proof fn law_secret_words_are_redacted(p: Seq<char>, x: Seq<char>, q: Seq<char>, d: char)
    ensures
        ascii_lower(x) == "api_key="@ ==> redact_word(p + x + q) == "<redacted>"@,
        ascii_lower(x) == "apikey="@ ==> redact_word(p + x + q) == "<redacted>"@,
        ascii_lower(x) == "authorization:"@ ==> redact_word(p + x + q) == "<redacted>"@,
        ascii_lower(x) == "sk-"@ ==> redact_word(x + q) == "<redacted>"@,
        redact_word(seq!['/'] + q) == "<redacted>"@,
        redact_word(seq!['~'] + q) == "<redacted>"@,
        (d as u32) < 128 ==> redact_word(seq![d, ':'] + q) == "<redacted>"@,
{
    if ascii_lower(x) == "api_key="@ {
        lemma_lowered_occurrence(p, x, q, "api_key="@);
    }
    if ascii_lower(x) == "apikey="@ {
        lemma_lowered_occurrence(p, x, q, "apikey="@);
    }
    if ascii_lower(x) == "authorization:"@ {
        lemma_lowered_occurrence(p, x, q, "authorization:"@);
    }
    if ascii_lower(x) == "sk-"@ {
        lemma_ascii_lower_concat(x, q);
        assert(ascii_lower(x + q).subrange(0, 3) =~= "sk-"@) by {
            reveal_strlit("sk-");
        }
        reveal_strlit("sk-");
    }
    assert((seq!['/'] + q)[0] == '/');
    assert((seq!['~'] + q)[0] == '~');
    assert((seq![d, ':'] + q)[0] == d);
    assert((seq![d, ':'] + q)[1] == ':');
}


/// The provider names: `mock` and `ollama` run locally and need nothing
/// more; `openai-compatible`, `openai_compatible`, `deepseek` and `kimi` all
/// name the OpenAI-compatible cloud provider, which is refused unless cloud
/// use is enabled.
pub proof fn law_provider_names(config: ProviderConfig)
    ensures
        provider_kind("mock"@) == Some(ProviderKind::Mock),
        provider_kind("ollama"@) == Some(ProviderKind::Ollama),
        provider_kind("openai-compatible"@) == Some(ProviderKind::OpenAiCompatible),
        provider_kind("openai_compatible"@) == Some(ProviderKind::OpenAiCompatible),
        provider_kind("deepseek"@) == Some(ProviderKind::OpenAiCompatible),
        provider_kind("kimi"@) == Some(ProviderKind::OpenAiCompatible),
        config.provider@ == "mock"@ ==> config_check(config) == Ok::<ProviderKind, GatewayError>(ProviderKind::Mock),
        config.provider@ == "ollama"@ ==> config_check(config) == Ok::<ProviderKind, GatewayError>(
            ProviderKind::Ollama,
        ),
        (config.provider@ == "openai-compatible"@ || config.provider@ == "openai_compatible"@
            || config.provider@ == "deepseek"@ || config.provider@ == "kimi"@) && !config.cloud_enabled
            ==> config_check(config) == Err::<ProviderKind, GatewayError>(GatewayError::CloudNotEnabled),
{
    reveal_strlit("mock");
    reveal_strlit("ollama");
    reveal_strlit("openai-compatible");
    reveal_strlit("openai_compatible");
    reveal_strlit("deepseek");
    reveal_strlit("kimi");
    assert("mock"@.len() == 4 && "mock"@[0] == 'm' && "mock"@[1] == 'o' && "mock"@[2] == 'c' && "mock"@[3] == 'k');
    assert("ollama"@.len() == 6 && "ollama"@[0] == 'o' && "ollama"@[1] == 'l' && "ollama"@[2] == 'l' && "ollama"@[3] == 'a' && "ollama"@[4] == 'm' && "ollama"@[5] == 'a');
    assert("openai-compatible"@.len() == 17 && "openai-compatible"@[0] == 'o' && "openai-compatible"@[1] == 'p' && "openai-compatible"@[2] == 'e' && "openai-compatible"@[3] == 'n' && "openai-compatible"@[4] == 'a' && "openai-compatible"@[5] == 'i' && "openai-compatible"@[6] == '-' && "openai-compatible"@[7] == 'c' && "openai-compatible"@[8] == 'o' && "openai-compatible"@[9] == 'm' && "openai-compatible"@[10] == 'p' && "openai-compatible"@[11] == 'a' && "openai-compatible"@[12] == 't' && "openai-compatible"@[13] == 'i' && "openai-compatible"@[14] == 'b' && "openai-compatible"@[15] == 'l' && "openai-compatible"@[16] == 'e');
    assert("openai_compatible"@.len() == 17 && "openai_compatible"@[0] == 'o' && "openai_compatible"@[1] == 'p' && "openai_compatible"@[2] == 'e' && "openai_compatible"@[3] == 'n' && "openai_compatible"@[4] == 'a' && "openai_compatible"@[5] == 'i' && "openai_compatible"@[6] == '_' && "openai_compatible"@[7] == 'c' && "openai_compatible"@[8] == 'o' && "openai_compatible"@[9] == 'm' && "openai_compatible"@[10] == 'p' && "openai_compatible"@[11] == 'a' && "openai_compatible"@[12] == 't' && "openai_compatible"@[13] == 'i' && "openai_compatible"@[14] == 'b' && "openai_compatible"@[15] == 'l' && "openai_compatible"@[16] == 'e');
    assert("deepseek"@.len() == 8 && "deepseek"@[0] == 'd' && "deepseek"@[1] == 'e' && "deepseek"@[2] == 'e' && "deepseek"@[3] == 'p' && "deepseek"@[4] == 's' && "deepseek"@[5] == 'e' && "deepseek"@[6] == 'e' && "deepseek"@[7] == 'k');
    assert("kimi"@.len() == 4 && "kimi"@[0] == 'k' && "kimi"@[1] == 'i' && "kimi"@[2] == 'm' && "kimi"@[3] == 'i');
}

} // verus!
