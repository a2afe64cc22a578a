//! Reading what a provider answered: the structured suggestion is checked
//! field by field, and only tokens of the request may be named.
//!
//! The JSON text is parsed by `serde_json`; the library asks for the value
//! at a JSON pointer and gets back a plain summary of it.

use vstd::prelude::*;
use crate::ai_gateway::{
    at_index, gateway_error_text, parse_provider_kind, provider_kind, CategorySuggestion, GatewayError,
    ProviderKind, SanitizedAiRequest, StructuredPlanSuggestion,
};
use crate::text::{decimal, trim};

verus! {

broadcast use crate::text::lemma_chars_deep_view;

/// What a JSON text holds at a pointer, as the library reads it.
#[derive(Debug, Clone, PartialEq, Eq)]
pub enum JsonLookup {
    /// The text is not JSON; the parser's message.
    Invalid(String),
    /// Nothing is at the pointer.
    Missing,
    /// A string.
    Text(String),
    /// A number that is a `u64`.
    Unsigned(u64),
    /// An array of this many items.
    Items(usize),
    /// Any other value.
    Other,
}

/// What a JSON text holds at a pointer, as a specification value.
pub enum JsonFound {
    Invalid(Seq<char>),
    Missing,
    Text(Seq<char>),
    Unsigned(u64),
    Items(nat),
    Other,
}

/// A lookup as a specification value.
pub open spec fn found(l: JsonLookup) -> JsonFound {
    match l {
        JsonLookup::Invalid(e) => JsonFound::Invalid(e@),
        JsonLookup::Missing => JsonFound::Missing,
        JsonLookup::Text(t) => JsonFound::Text(t@),
        JsonLookup::Unsigned(n) => JsonFound::Unsigned(n),
        JsonLookup::Items(n) => JsonFound::Items(n as nat),
        JsonLookup::Other => JsonFound::Other,
    }
}

/// What `serde_json` finds in the text `raw` at the JSON pointer `pointer`.
pub uninterp spec fn json_at(raw: Seq<char>, pointer: Seq<char>) -> JsonFound;

/// Calls `serde_json::from_str` for a `serde_json::Value`, then
/// `Value::pointer`, and reports what is there: the parser's message when
/// the text is not JSON, nothing, a string, a number that `Number::as_u64`
/// reads, the length of an array, or another value. The result is named
/// `json_at`.
#[verifier::external_body]
pub(crate) fn json_lookup(raw: &str, pointer: &str) -> (r: JsonLookup)
    ensures
        found(r) == json_at(raw@, pointer@),
{
    match serde_json::from_str::<serde_json::Value>(raw) {
        Err(e) => JsonLookup::Invalid(e.to_string()),
        Ok(v) => match v.pointer(pointer) {
            None => JsonLookup::Missing,
            Some(serde_json::Value::String(s)) => JsonLookup::Text(s.clone()),
            Some(serde_json::Value::Array(a)) => JsonLookup::Items(a.len()),
            Some(serde_json::Value::Number(n)) => match n.as_u64() {
                Some(u) => JsonLookup::Unsigned(u),
                None => JsonLookup::Other,
            },
            Some(_) => JsonLookup::Other,
        },
    }
}

/// The lookups of one category suggestion.
#[derive(Debug, Clone, PartialEq, Eq)]
pub struct EntryLookups {
    pub file_token: JsonLookup,
    pub category: JsonLookup,
    pub confidence: JsonLookup,
}

/// The lookups a structured suggestion is checked on: its summary, its
/// categories, and the fields of each category suggestion.
#[derive(Debug, Clone, PartialEq, Eq)]
pub struct SuggestionLookups {
    pub summary: JsonLookup,
    pub categories: JsonLookup,
    pub entries: Vec<EntryLookups>,
}

/// The lookups of one category suggestion, as specification values.
pub open spec fn entry_found(e: EntryLookups) -> (JsonFound, JsonFound, JsonFound) {
    (found(e.file_token), found(e.category), found(e.confidence))
}

/// The pointer to field `field` of category suggestion `i`.
pub open spec fn entry_pointer(i: int, field: Seq<char>) -> Seq<char> {
    "/categories/"@ + decimal(i) + "/"@ + field
}

/// The number of category suggestions, when there is an array of them.
pub open spec fn items_of(f: JsonFound) -> nat {
    match f {
        JsonFound::Items(n) => n,
        _ => 0,
    }
}

/// `l` holds what `serde_json` finds in `raw` for a structured suggestion.
pub open spec fn is_read_of(l: SuggestionLookups, raw: Seq<char>) -> bool {
    &&& found(l.summary) == json_at(raw, "/summary"@)
    &&& found(l.categories) == json_at(raw, "/categories"@)
    &&& l.entries@.len() == items_of(found(l.categories))
    &&& forall|i: int| 0 <= i < l.entries@.len() ==> #[trigger] entry_found(l.entries@[i]) == (
        json_at(raw, entry_pointer(i, "file_token"@)),
        json_at(raw, entry_pointer(i, "category"@)),
        json_at(raw, entry_pointer(i, "confidence"@)),
    )
}

/// A string with something besides whitespace, trimmed.
pub open spec fn filled_text(f: JsonFound) -> Option<Seq<char>> {
    match f {
        JsonFound::Text(t) => if trim(t).len() > 0 {
            Some(trim(t))
        } else {
            None
        },
        _ => None,
    }
}

/// A category suggestion as token, category and confidence.
pub open spec fn category_view(c: CategorySuggestion) -> (Seq<char>, Seq<char>, u8) {
    (c.file_token@, c.category@, c.confidence)
}

/// A structured suggestion as provider, summary and category suggestions.
pub open spec fn suggestion_view(s: StructuredPlanSuggestion) -> (Seq<char>, Seq<char>, Seq<(Seq<char>, Seq<char>, u8)>) {
    (s.provider@, s.summary@, s.categories@.map_values(|c: CategorySuggestion| category_view(c)))
}

/// The tokens of a request's files.
pub open spec fn request_tokens(r: SanitizedAiRequest) -> Seq<Seq<char>> {
    r.files@.map_values(|f: crate::ai_gateway::SanitizedFileInput| f.token@)
}

/// What becomes of category suggestion `i`: a token of the request, a
/// category and a confidence up to 100, or the first of these that fails.
pub open spec fn entry_outcome(
    e: (JsonFound, JsonFound, JsonFound),
    i: usize,
    tokens: Seq<Seq<char>>,
) -> Result<(Seq<char>, Seq<char>, u8), Seq<char>> {
    match filled_text(e.0) {
        None => Err(at_index(i) + " missing file_token"@),
        Some(t) => if !tokens.contains(t) {
            Err(at_index(i) + " references unknown file_token"@)
        } else {
            match filled_text(e.1) {
                None => Err(at_index(i) + " missing category"@),
                Some(c) => match e.2 {
                    JsonFound::Unsigned(n) => if n > 100 {
                        Err(at_index(i) + " confidence must be 0..=100"@)
                    } else {
                        Ok((t, c, n as u8))
                    },
                    _ => Err(at_index(i) + " missing confidence"@),
                },
            }
        },
    }
}

/// What becomes of the first `k` category suggestions: all of them, in
/// order, or the first failure.
pub open spec fn entries_outcome(
    es: Seq<(JsonFound, JsonFound, JsonFound)>,
    tokens: Seq<Seq<char>>,
    k: int,
) -> Result<Seq<(Seq<char>, Seq<char>, u8)>, Seq<char>>
    decreases k,
{
    if k <= 0 {
        Ok(Seq::empty())
    } else {
        match entries_outcome(es, tokens, k - 1) {
            Err(m) => Err(m),
            Ok(v) => match entry_outcome(es[k - 1], (k - 1) as usize, tokens) {
                Err(m) => Err(m),
                Ok(x) => Ok(v.push(x)),
            },
        }
    }
}

/// What becomes of a structured suggestion read into `l`: its trimmed
/// summary and its category suggestions, or the message of the first
/// failure (not JSON, no summary, no categories array, a bad entry).
pub open spec fn suggestion_outcome(l: SuggestionLookups, tokens: Seq<Seq<char>>) -> Result<
    (Seq<char>, Seq<(Seq<char>, Seq<char>, u8)>),
    Seq<char>,
> {
    match found(l.summary) {
        JsonFound::Invalid(e) => Err("structured suggestion is invalid JSON: "@ + e),
        _ => match filled_text(found(l.summary)) {
            None => Err("structured suggestion missing non-empty summary"@),
            Some(s) => match found(l.categories) {
                JsonFound::Items(n) => match entries_outcome(
                    l.entries@.map_values(|e: EntryLookups| entry_found(e)),
                    tokens,
                    n as int,
                ) {
                    Err(m) => Err(m),
                    Ok(v) => Ok((s, v)),
                },
                _ => Err("structured suggestion missing categories array"@),
            },
        },
    }
}

/// `r` is the result of checking lookups `l` for `provider`: the
/// suggestion or an error with the message of the first failure.
pub open spec fn checks_as(
    r: Result<StructuredPlanSuggestion, GatewayError>,
    provider: Seq<char>,
    l: SuggestionLookups,
    tokens: Seq<Seq<char>>,
) -> bool {
    match suggestion_outcome(l, tokens) {
        Ok((s, v)) => r matches Ok(x) && suggestion_view(x) == (provider, s, v),
        Err(m) => r matches Err(e) && gateway_error_text(e) == m,
    }
}

/// Reads what a structured suggestion holds.
fn read_suggestion(raw: &str) -> (l: SuggestionLookups)
    ensures
        is_read_of(l, raw@),
{
    let summary = json_lookup(raw, "/summary");
    let categories = json_lookup(raw, "/categories");
    let mut entries: Vec<EntryLookups> = Vec::new();
    let n: usize = match &categories {
        JsonLookup::Items(n) => *n,
        _ => 0,
    };
    let mut i: usize = 0;
    while i < n
        invariant
            i <= n,
            entries@.len() == i,
            forall|k: int| 0 <= k < i ==> #[trigger] entry_found(entries@[k]) == (
                json_at(raw@, entry_pointer(k, "file_token"@)),
                json_at(raw@, entry_pointer(k, "category"@)),
                json_at(raw@, entry_pointer(k, "confidence"@)),
            ),
        decreases n - i,
    {
        let base = String::from_str("/categories/").concat(crate::text::unsigned_text(i as u64).as_str()).concat(
            "/",
        );
        let p1 = base.clone().concat("file_token");
        let p2 = base.clone().concat("category");
        let p3 = base.concat("confidence");
        let e = EntryLookups {
            file_token: json_lookup(raw, p1.as_str()),
            category: json_lookup(raw, p2.as_str()),
            confidence: json_lookup(raw, p3.as_str()),
        };
        entries.push(e);
        i = i + 1;
    }
    SuggestionLookups { summary, categories, entries }
}

/// The trimmed text of a lookup, when it is a string with something
/// besides whitespace.
fn filled_text_of(l: &JsonLookup) -> (r: Option<String>)
    ensures
        match r {
            Some(s) => filled_text(found(*l)) == Some(s@),
            None => filled_text(found(*l)) is None,
        },
{
    match l {
        JsonLookup::Text(t) => {
            let c = crate::text::trim_chars(&crate::text::chars_of(t.as_str()));
            if c.len() > 0 {
                Some(crate::text::string_of(&c))
            } else {
                None
            }
        },
        _ => None,
    }
}

/// Whether `t` is the token of one of the request's files.
fn is_known_token(t: &String, request: &SanitizedAiRequest) -> (r: bool)
    ensures
        r == request_tokens(*request).contains(t@),
{
    let mut i: usize = 0;
    while i < request.files.len()
        invariant
            i <= request.files@.len(),
            forall|k: int| 0 <= k < i ==> request.files@[k].token@ != t@,
        decreases request.files.len() - i,
    {
        if request.files[i].token == *t {
            assert(request_tokens(*request)[i as int] == t@);
            return true;
        }
        i = i + 1;
    }
    proof {
        if request_tokens(*request).contains(t@) {
            let k = choose|k: int| 0 <= k < request_tokens(*request).len() && request_tokens(*request)[k] == t@;
            assert(request.files@[k].token@ == t@);
        }
    }
    false
}

/// Checks one category suggestion.
fn check_entry(e: &EntryLookups, i: usize, request: &SanitizedAiRequest) -> (r: Result<CategorySuggestion, GatewayError>)
    ensures
        match entry_outcome(entry_found(*e), i, request_tokens(*request)) {
            Ok(x) => r matches Ok(c) && category_view(c) == x,
            Err(m) => r matches Err(err) && gateway_error_text(err) == m,
        },
{
    let file_token = match filled_text_of(&e.file_token) {
        Some(t) => t,
        None => {
            return Err(GatewayError::MissingFileToken(i));
        },
    };
    if !is_known_token(&file_token, request) {
        return Err(GatewayError::UnknownFileToken(i));
    }
    let category = match filled_text_of(&e.category) {
        Some(c) => c,
        None => {
            return Err(GatewayError::MissingCategory(i));
        },
    };
    match &e.confidence {
        JsonLookup::Unsigned(n) => {
            if *n > 100 {
                Err(GatewayError::ConfidenceOutOfRange(i))
            } else {
                Ok(CategorySuggestion { file_token, category, confidence: *n as u8 })
            }
        },
        _ => Err(GatewayError::MissingConfidence(i)),
    }
}

/// Checks a structured suggestion from what was read of it: the summary
/// must be a string with something besides whitespace, the categories an
/// array, and each category suggestion must name a token of the request, a
/// category, and a confidence up to 100. Texts are trimmed.
pub fn check_suggestion(provider: &str, lookups: &SuggestionLookups, request: &SanitizedAiRequest) -> (r: Result<
    StructuredPlanSuggestion,
    GatewayError,
>)
    requires
        lookups.entries@.len() == items_of(found(lookups.categories)),
    ensures
        checks_as(r, provider@, *lookups, request_tokens(*request)),
{
    match &lookups.summary {
        JsonLookup::Invalid(e) => {
            return Err(GatewayError::InvalidSuggestionJson(e.clone()));
        },
        _ => {},
    }
    let summary = match filled_text_of(&lookups.summary) {
        Some(s) => s,
        None => {
            return Err(GatewayError::MissingSummary);
        },
    };
    let n = match &lookups.categories {
        JsonLookup::Items(n) => *n,
        _ => {
            return Err(GatewayError::MissingCategories);
        },
    };
    let ghost es = lookups.entries@.map_values(|e: EntryLookups| entry_found(e));
    let ghost tokens = request_tokens(*request);
    let mut categories: Vec<CategorySuggestion> = Vec::new();
    assert(categories@.map_values(|c: CategorySuggestion| category_view(c)) =~= Seq::<(Seq<char>, Seq<char>, u8)>::empty());
    let mut i: usize = 0;
    while i < n
        invariant
            i <= n,
            n == lookups.entries@.len(),
            found(lookups.categories) == JsonFound::Items(n as nat),
            filled_text(found(lookups.summary)) == Some(summary@),
            !(found(lookups.summary) is Invalid),
            es == lookups.entries@.map_values(|e: EntryLookups| entry_found(e)),
            tokens == request_tokens(*request),
            entries_outcome(es, tokens, i as int) == Ok::<Seq<(Seq<char>, Seq<char>, u8)>, Seq<char>>(
                categories@.map_values(|c: CategorySuggestion| category_view(c)),
            ),
        decreases n - i,
    {
        assert(es[i as int] == entry_found(lookups.entries@[i as int]));
        match check_entry(&lookups.entries[i], i, request) {
            Ok(c) => {
                let ghost before = categories@;
                categories.push(c);
                assert(categories@.map_values(|c: CategorySuggestion| category_view(c)) =~= before.map_values(
                    |c: CategorySuggestion| category_view(c),
                ).push(category_view(c)));
            },
            Err(e) => {
                assert(entries_outcome(es, tokens, i + 1) == Err::<Seq<(Seq<char>, Seq<char>, u8)>, Seq<char>>(
                    gateway_error_text(e),
                ));
                proof {
                    lemma_entries_outcome_stays_failed(es, tokens, i + 1, n as int);
                    assert(suggestion_outcome(*lookups, tokens) == Err::<(Seq<char>, Seq<(Seq<char>, Seq<char>, u8)>), Seq<char>>(
                        gateway_error_text(e),
                    ));
                }
                return Err(e);
            },
        }
        i = i + 1;
    }
    Ok(StructuredPlanSuggestion { provider: String::from_str(provider), summary, categories })
}

/// Once the category suggestions fail, later ones do not change the failure.
proof fn lemma_entries_outcome_stays_failed(
    es: Seq<(JsonFound, JsonFound, JsonFound)>,
    tokens: Seq<Seq<char>>,
    k: int,
    n: int,
)
    requires
        0 <= k <= n,
        entries_outcome(es, tokens, k) is Err,
    ensures
        entries_outcome(es, tokens, n) == entries_outcome(es, tokens, k),
    decreases n - k,
{
    if k < n {
        lemma_entries_outcome_stays_failed(es, tokens, k + 1, n);
    }
}

/// Checks a structured suggestion given as JSON text: as `check_suggestion`
/// on what `serde_json` finds in it.
pub fn validate_structured_suggestion(provider: &str, raw: &str, request: &SanitizedAiRequest) -> (r: Result<
    StructuredPlanSuggestion,
    GatewayError,
>)
    ensures
        exists|l: SuggestionLookups| is_read_of(l, raw@) && checks_as(r, provider@, l, request_tokens(*request)),
{
    let l = read_suggestion(raw);
    let r = check_suggestion(provider, &l, request);
    assert(is_read_of(l, raw@) && checks_as(r, provider@, l, request_tokens(*request)));
    r
}

/// The structured suggestion inside a provider's raw response: the raw
/// text itself for the mock provider, the message content of the first
/// choice for an OpenAI-compatible provider, the `response` field for
/// Ollama.
pub open spec fn structured_text(kind: ProviderKind, raw: Seq<char>) -> Result<Seq<char>, Seq<char>> {
    match kind {
        ProviderKind::Mock => Ok(raw),
        ProviderKind::OpenAiCompatible => match json_at(raw, "/choices/0/message/content"@) {
            JsonFound::Invalid(e) => Err("provider response is invalid JSON: "@ + e),
            JsonFound::Text(t) => Ok(t),
            _ => Err("provider response missing choices[0].message.content JSON string"@),
        },
        ProviderKind::Ollama => match json_at(raw, "/response"@) {
            JsonFound::Invalid(e) => Err("provider response is invalid JSON: "@ + e),
            JsonFound::Text(t) => Ok(t),
            _ => Err("provider response missing response JSON string"@),
        },
    }
}

/// The structured suggestion inside a provider's raw response.
fn structured_text_of(kind: ProviderKind, raw: &str) -> (r: Result<String, GatewayError>)
    ensures
        match structured_text(kind, raw@) {
            Ok(t) => r matches Ok(s) && s@ == t,
            Err(m) => r matches Err(e) && gateway_error_text(e) == m,
        },
{
    match kind {
        ProviderKind::Mock => Ok(String::from_str(raw)),
        ProviderKind::OpenAiCompatible => match json_lookup(raw, "/choices/0/message/content") {
            JsonLookup::Invalid(e) => Err(GatewayError::InvalidResponseJson(e)),
            JsonLookup::Text(t) => Ok(t),
            _ => Err(GatewayError::MissingMessageContent),
        },
        ProviderKind::Ollama => match json_lookup(raw, "/response") {
            JsonLookup::Invalid(e) => Err(GatewayError::InvalidResponseJson(e)),
            JsonLookup::Text(t) => Ok(t),
            _ => Err(GatewayError::MissingResponseText),
        },
    }
}

/// Reads a provider's raw response: an unknown provider is refused, the
/// structured suggestion is taken out of the response as the provider
/// wraps it, then checked as `validate_structured_suggestion` checks it.
pub fn parse_provider_response(provider: &str, raw: &str, request: &SanitizedAiRequest) -> (r: Result<
    StructuredPlanSuggestion,
    GatewayError,
>)
    ensures
        match provider_kind(provider@) {
            None => r matches Err(GatewayError::UnsupportedProvider(p)) && p@ == provider@,
            Some(kind) => match structured_text(kind, raw@) {
                Err(m) => r matches Err(e) && gateway_error_text(e) == m,
                Ok(t) => exists|l: SuggestionLookups| is_read_of(l, t) && checks_as(r, provider@, l, request_tokens(*request)),
            },
        },
{
    let kind = match parse_provider_kind(provider) {
        Ok(k) => k,
        Err(e) => {
            return Err(e);
        },
    };
    let text = match structured_text_of(kind, raw) {
        Ok(t) => t,
        Err(e) => {
            return Err(e);
        },
    };
    validate_structured_suggestion(provider, text.as_str(), request)
}

} // verus!
