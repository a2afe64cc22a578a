use smart_file_organizer::ai_gateway::{
    desensitize_request, parse_provider_kind, provider_registry, redact_secrets, stable_file_token,
    validate_provider_config, AiFileInput, AiGateway, AiGatewayRequest, GatewayError, MockProvider,
    ProviderConfig, ProviderCredentials, ProviderKind, SanitizedAiRequest, SanitizedFileInput, SizeBucket,
};
use smart_file_organizer::json::json_str_of;
use smart_file_organizer::provider_http::{build_provider_request, request_json_of, test_provider_connection};
use smart_file_organizer::suggestion::{parse_provider_response, validate_structured_suggestion};

fn sanitized_pdf(token: &str, depth: usize) -> SanitizedAiRequest {
    SanitizedAiRequest {
        prompt: "organize".to_string(),
        files: vec![SanitizedFileInput {
            token: token.to_string(),
            extension: Some("pdf".to_string()),
            mime: Some("application/pdf".to_string()),
            size_bucket: SizeBucket::Small,
            path_depth: depth,
        }],
    }
}

fn config(provider: &str, base_url: Option<&str>, model: Option<&str>, cloud_enabled: bool) -> ProviderConfig {
    ProviderConfig {
        provider: provider.to_string(),
        base_url: base_url.map(|u| u.to_string()),
        model: model.map(|m| m.to_string()),
        cloud_enabled,
    }
}

#[test]
fn desensitization_removes_absolute_paths_and_prompt_secrets() {
    let request = AiGatewayRequest {
        prompt: "sort these api_key=secret sk-live-value".to_string(),
        cloud_enabled: true,
        files: vec![AiFileInput {
            absolute_path: "/Users/alice/Private/Taxes/2026-return.pdf".to_string(),
            extension: Some("PDF".to_string()),
            mime: Some("application/pdf".to_string()),
            size_bytes: 2048,
        }],
    };

    let sanitized = desensitize_request(&request);
    let serialized = request_json_of(&sanitized);

    assert!(!serialized.contains("/Users/alice"));
    assert!(!serialized.contains("2026-return"));
    assert!(!serialized.contains("secret"));
    assert!(!serialized.contains("sk-live-value"));
    assert_eq!(sanitized.files[0].extension.as_deref(), Some("pdf"));
}

#[test]
fn mock_provider_returns_structured_suggestions_only() {
    let gateway = AiGateway::new(MockProvider);
    let request = AiGatewayRequest {
        prompt: "organize files".to_string(),
        cloud_enabled: false,
        files: vec![AiFileInput {
            absolute_path: "/tmp/a.jpg".to_string(),
            extension: Some("jpg".to_string()),
            mime: Some("image/jpeg".to_string()),
            size_bytes: 3_000,
        }],
    };
    let sanitized = gateway.prepare(&request);
    let result = gateway.provider().suggest(&sanitized);

    assert_eq!(result.provider, "mock");
    assert_eq!(result.categories[0].category, "Images");
    assert_eq!(result.categories[0].confidence, 70);
    assert_eq!(result.categories[0].file_token, sanitized.files[0].token);
}

#[test]
fn credentials_debug_output_redacts_api_key() {
    let credentials = ProviderCredentials::new("sk-test-secret".to_string());
    let debug = credentials.debug_text();
    assert!(debug.contains("<redacted>"));
    assert!(!debug.contains("sk-test-secret"));
    assert_eq!(credentials.expose_for_provider_call(), "sk-test-secret");
}

#[test]
fn registry_lists_supported_mvp_providers() {
    let providers = provider_registry()
        .into_iter()
        .map(|provider| provider.provider)
        .collect::<Vec<_>>();

    assert_eq!(providers, vec!["mock", "ollama", "openai-compatible"]);
    assert_eq!(parse_provider_kind("deepseek").unwrap(), ProviderKind::OpenAiCompatible);
    assert_eq!(parse_provider_kind("kimi").unwrap(), ProviderKind::OpenAiCompatible);
}

#[test]
fn openai_compatible_request_uses_sanitized_payload_and_runtime_key() {
    let raw = AiGatewayRequest {
        prompt: "organize /Users/alice/Secret api_key=hidden".to_string(),
        cloud_enabled: true,
        files: vec![AiFileInput {
            absolute_path: "/Users/alice/Secret/tax.pdf".to_string(),
            extension: Some("PDF".to_string()),
            mime: Some("application/pdf".to_string()),
            size_bytes: 2048,
        }],
    };
    let sanitized = desensitize_request(&raw);
    let credentials = ProviderCredentials::new("sk-runtime-only".to_string());
    let request = build_provider_request(
        &config(
            "openai-compatible",
            Some("https://api.deepseek.example/v1/"),
            Some("deepseek-chat"),
            true,
        ),
        &sanitized,
        Some(&credentials),
    )
    .unwrap()
    .unwrap();

    assert_eq!(request.method, "POST");
    assert_eq!(request.url, "https://api.deepseek.example/v1/chat/completions");
    let body: serde_json::Value = serde_json::from_str(&request.body).unwrap();
    assert_eq!(body["model"], "deepseek-chat");
    assert_eq!(body["response_format"]["type"], "json_object");
    assert_eq!(request.headers[1].expose_for_provider_call(), "Bearer sk-runtime-only");
    let debug = request.headers.iter().map(|h| h.debug_text()).collect::<Vec<_>>().join(", ");
    assert!(!debug.contains("sk-runtime-only"));
    assert!(!request.body.contains("/Users/alice"));
    assert!(!request.body.contains("tax.pdf"));
    assert!(!request.body.contains("hidden"));
}

#[test]
fn ollama_request_shape_is_local_and_sanitized() {
    let sanitized = SanitizedAiRequest {
        prompt: "organize".to_string(),
        files: vec![SanitizedFileInput {
            token: "file_abc".to_string(),
            extension: Some("jpg".to_string()),
            mime: Some("image/jpeg".to_string()),
            size_bucket: SizeBucket::Small,
            path_depth: 3,
        }],
    };
    let request = build_provider_request(
        &config("ollama", Some("http://localhost:11434"), Some("llama3.2"), false),
        &sanitized,
        None,
    )
    .unwrap()
    .unwrap();

    assert_eq!(request.method, "POST");
    assert_eq!(request.url, "http://localhost:11434/api/generate");
    let body: serde_json::Value = serde_json::from_str(&request.body).unwrap();
    assert_eq!(body["model"], "llama3.2");
    assert_eq!(body["stream"], false);
    assert_eq!(body["format"], "json");
    assert!(body["prompt"].as_str().unwrap().contains("file_abc"));
}

#[test]
fn schema_validation_accepts_structured_suggestions() {
    let request = sanitized_pdf("file_ok", 2);
    let suggestion = validate_structured_suggestion(
        "mock",
        r#"{"summary":"ok","categories":[{"file_token":"file_ok","category":"Documents","confidence":91}]}"#,
        &request,
    )
    .unwrap();

    assert_eq!(suggestion.summary, "ok");
    assert_eq!(suggestion.categories[0].confidence, 91);
}

#[test]
fn schema_validation_returns_clear_errors_for_bad_json_and_missing_fields() {
    let request = SanitizedAiRequest {
        prompt: "organize".to_string(),
        files: vec![SanitizedFileInput {
            token: "file_ok".to_string(),
            extension: None,
            mime: None,
            size_bucket: SizeBucket::Empty,
            path_depth: 0,
        }],
    };

    let invalid = validate_structured_suggestion("mock", "{nope", &request).unwrap_err().message();
    let missing = validate_structured_suggestion(
        "mock",
        r#"{"summary":"ok","categories":[{"file_token":"file_ok","category":"Docs"}]}"#,
        &request,
    )
    .unwrap_err()
    .message();

    assert!(invalid.contains("invalid JSON"));
    assert!(missing.contains("missing confidence"));
}

#[test]
fn provider_wrappers_parse_json_output() {
    let request = sanitized_pdf("file_ok", 2);
    let content = r#"{"summary":"ok","categories":[{"file_token":"file_ok","category":"Documents","confidence":80}]}"#;
    let escaped = serde_json::to_string(content).unwrap();
    let openai_raw = format!("{{\"choices\":[{{\"message\":{{\"content\":{}}}}}]}}", escaped);
    let ollama_raw = format!("{{\"response\":{}}}", escaped);

    assert_eq!(
        parse_provider_response("openai-compatible", &openai_raw, &request).unwrap().categories[0].category,
        "Documents"
    );
    assert_eq!(
        parse_provider_response("ollama", &ollama_raw, &request).unwrap().categories[0].file_token,
        "file_ok"
    );
}

#[test]
fn structured_suggestion_errors_name_the_failing_entry() {
    let request = sanitized_pdf("file_ok", 1);
    let unknown = validate_structured_suggestion(
        "mock",
        r#"{"summary":"ok","categories":[{"file_token":"file_other","category":"Docs","confidence":1}]}"#,
        &request,
    )
    .unwrap_err();
    assert_eq!(unknown, GatewayError::UnknownFileToken(0));
    assert_eq!(unknown.message(), "category suggestion at index 0 references unknown file_token");

    let too_sure = validate_structured_suggestion(
        "mock",
        r#"{"summary":"ok","categories":[{"file_token":"file_ok","category":"Docs","confidence":101}]}"#,
        &request,
    )
    .unwrap_err();
    assert_eq!(too_sure.message(), "category suggestion at index 0 confidence must be 0..=100");

    let blank = validate_structured_suggestion("mock", r#"{"summary":"  ","categories":[]}"#, &request).unwrap_err();
    assert_eq!(blank, GatewayError::MissingSummary);

    let no_array = validate_structured_suggestion("mock", r#"{"summary":"ok","categories":{}}"#, &request).unwrap_err();
    assert_eq!(no_array.message(), "structured suggestion missing categories array");

    let trimmed = validate_structured_suggestion(
        "mock",
        r#"{"summary":" ok ","categories":[{"file_token":" file_ok ","category":" Docs ","confidence":100}]}"#,
        &request,
    )
    .unwrap();
    assert_eq!(trimmed.summary, "ok");
    assert_eq!(trimmed.categories[0].file_token, "file_ok");
    assert_eq!(trimmed.categories[0].category, "Docs");
    assert_eq!(trimmed.categories[0].confidence, 100);
}

#[test]
fn provider_responses_without_content_are_refused() {
    let request = sanitized_pdf("file_ok", 1);
    let missing = parse_provider_response("openai-compatible", r#"{"choices":[]}"#, &request).unwrap_err();
    assert_eq!(missing, GatewayError::MissingMessageContent);
    let ollama = parse_provider_response("ollama", r#"{"response":5}"#, &request).unwrap_err();
    assert_eq!(ollama.message(), "provider response missing response JSON string");
    let invalid = parse_provider_response("ollama", "not json", &request).unwrap_err();
    assert!(invalid.message().starts_with("provider response is invalid JSON: "));
    let unknown = parse_provider_response("other", "{}", &request).unwrap_err();
    assert_eq!(unknown.message(), "unsupported AI provider: other");
}

#[test]
fn provider_configs_are_checked() {
    assert_eq!(
        validate_provider_config(&config("openai-compatible", Some("https://x"), None, false)).unwrap_err(),
        GatewayError::CloudNotEnabled
    );
    assert_eq!(
        validate_provider_config(&config("kimi", Some("   "), None, true)).unwrap_err(),
        GatewayError::MissingBaseUrl
    );
    assert_eq!(validate_provider_config(&config("ollama", None, None, false)).unwrap(), ProviderKind::Ollama);
    assert_eq!(
        validate_provider_config(&config("gpt", None, None, true)).unwrap_err().message(),
        "unsupported AI provider: gpt"
    );
    let blank_key = ProviderCredentials::new("   ".to_string());
    assert_eq!(
        build_provider_request(
            &config("openai-compatible", Some("https://x"), None, true),
            &sanitized_pdf("file_ok", 1),
            Some(&blank_key),
        )
        .err(),
        Some(GatewayError::MissingApiKey)
    );
    assert!(build_provider_request(&config("mock", None, None, false), &sanitized_pdf("file_ok", 1), None)
        .unwrap()
        .is_none());
}

#[test]
fn connection_test_reports_request_shape() {
    let mock = test_provider_connection(&config("mock", None, None, false), None).unwrap();
    assert_eq!(mock.message, "mock provider ready");
    assert!(mock.request_valid);
    let ollama = test_provider_connection(&config("ollama", None, None, false), None).unwrap();
    assert_eq!(ollama.message, "request shape valid: POST http://localhost:11434/api/generate");
    let key = ProviderCredentials::new("sk".to_string());
    let openai = test_provider_connection(&config("deepseek", Some("https://api.x/v1//"), None, true), Some(&key)).unwrap();
    assert_eq!(openai.message, "request shape valid: POST https://api.x/v1/chat/completions");
    assert_eq!(openai.provider, "deepseek");
}

#[test]
fn authorization_header_debug_text_is_redacted() {
    let sanitized = sanitized_pdf("file_ok", 1);
    let key = ProviderCredentials::new("sk-abc".to_string());
    let request = build_provider_request(
        &config("openai-compatible", None, None, true),
        &sanitized,
        Some(&key),
    );
    assert_eq!(request.err(), Some(GatewayError::MissingBaseUrl));
    let request = build_provider_request(
        &config("openai-compatible", Some("https://api.x"), None, true),
        &sanitized,
        Some(&key),
    )
    .unwrap()
    .unwrap();
    assert_eq!(
        request.headers[0].debug_text(),
        "ProviderHttpHeader { name: \"Content-Type\", value: \"application/json\" }"
    );
    assert_eq!(
        request.headers[1].debug_text(),
        "ProviderHttpHeader { name: \"Authorization\", value: \"<redacted>\" }"
    );
    let body: serde_json::Value = serde_json::from_str(&request.body).unwrap();
    assert_eq!(body["model"], "default");
    assert_eq!(body["temperature"], 0.1);
    assert_eq!(body["messages"][0]["role"], "system");
    let user: serde_json::Value = serde_json::from_str(body["messages"][1]["content"].as_str().unwrap()).unwrap();
    assert_eq!(user["files"][0]["token"], "file_ok");
    assert_eq!(user["files"][0]["size_bucket"], "Small");
    assert_eq!(user["files"][0]["path_depth"], 1);
}

#[test]
fn sizes_and_tokens_and_prompts_are_sanitized() {
    assert_eq!(SizeBucket::from_bytes(0), SizeBucket::Empty);
    assert_eq!(SizeBucket::from_bytes(1_048_576), SizeBucket::Small);
    assert_eq!(SizeBucket::from_bytes(1_048_577), SizeBucket::Medium);
    assert_eq!(SizeBucket::from_bytes(104_857_601), SizeBucket::Large);
    let token = stable_file_token("/tmp/a.pdf");
    assert!(token.starts_with("file_"));
    assert_eq!(token.len(), 21);
    assert_eq!(token, stable_file_token("/tmp/a.pdf"));
    assert_ne!(token, stable_file_token("/tmp/b.pdf"));
    assert_eq!(
        redact_secrets("move  ~/docs C:\\x Authorization: sk-1 keep"),
        "move <redacted> <redacted> <redacted> <redacted> keep"
    );
    let sanitized = desensitize_request(&AiGatewayRequest {
        prompt: "x".to_string(),
        cloud_enabled: false,
        files: vec![AiFileInput {
            absolute_path: "/a//b/c.txt".to_string(),
            extension: None,
            mime: None,
            size_bytes: 5,
        }],
    });
    assert_eq!(sanitized.files[0].path_depth, 3);
    assert_eq!(sanitized.files[0].extension, None);
}

#[test]
fn sanitizing_a_prompt_twice_changes_nothing() {
    let once = redact_secrets("move /Users/me/a.pdf api_key=123 to Docs");
    assert_eq!(once, "move <redacted> <redacted> to Docs");
    assert_eq!(redact_secrets(&once), once);
}

const TRICKY: [&str; 6] = [
    "plain",
    "quote \" and backslash \\",
    "lines\nand\rtabs\t",
    "controls \u{1} \u{8} \u{c} \u{1f} \u{7f}",
    "非 ASCII ✓ é",
    "",
];

#[test]
fn json_strings_are_escaped_as_serde_json_writes_them() {
    for s in TRICKY {
        let written: String = json_str_of(s).into_iter().collect();
        assert_eq!(written, serde_json::to_string(s).unwrap());
    }
}

#[test]
fn request_bodies_read_back_with_serde_json() {
    for s in TRICKY {
        let mut sanitized = sanitized_pdf(s, 2);
        sanitized.prompt = s.to_string();
        let payload: serde_json::Value = serde_json::from_str(&request_json_of(&sanitized)).unwrap();
        assert_eq!(payload["prompt"], s);
        assert_eq!(payload["files"][0]["token"], s);
        assert_eq!(payload["files"][0]["path_depth"], 2);

        let credentials = ProviderCredentials::new("sk-runtime-only".to_string());
        let openai = build_provider_request(
            &config("openai-compatible", Some("https://api.example/v1"), Some("m\"1"), true),
            &sanitized,
            Some(&credentials),
        )
        .unwrap()
        .unwrap();
        let body: serde_json::Value = serde_json::from_str(&openai.body).unwrap();
        assert_eq!(body["model"], "m\"1");
        let content = body["messages"][1]["content"].as_str().unwrap();
        let inner: serde_json::Value = serde_json::from_str(content).unwrap();
        assert_eq!(inner, payload);

        let ollama = build_provider_request(&config("ollama", None, Some("m\\2"), false), &sanitized, None)
            .unwrap()
            .unwrap();
        let body: serde_json::Value = serde_json::from_str(&ollama.body).unwrap();
        assert_eq!(body["model"], "m\\2");
        assert!(body["prompt"].as_str().unwrap().ends_with(&request_json_of(&sanitized)));
    }
}
