use smart_file_organizer::commands::{risk_by_file_id, scan_outcome};
use smart_file_organizer::executor::{DefaultPlanExecutor, OperationProbe, PathProbe, PlanProbes};
use smart_file_organizer::keys::parse_mode;
use smart_file_organizer::model::{BuildPlanInput, FileOperationKind};
use smart_file_organizer::plan_dto::plan_to_dto;
use smart_file_organizer::planner::DefaultPlanBuilder;
use smart_file_organizer::clock::Timestamp;
use smart_file_organizer::commands::{
    classifications_from_dto, classify_all, classification_context, file_to_dto, model_settings_list,
    sample_provider_json_response, scan_folder_response, scan_task_id, settings_to_save, test_model_connection,
    test_model_json_output, ModelSettingsDto, ScanFolderStatus, ScanRegistry, TestModelRequest,
};
use smart_file_organizer::model::{ClassificationInputDto, FileCategory, FileItem, FileRiskLevel, Skill, SkillRule};
use smart_file_organizer::scanner::{ScanReport, ScanStatus};
use smart_file_organizer::storage::{
    hash_path, row_to_file_item, row_to_history_summary, size_to_i64, stored_skill_to_core, AiProviderSettings,
    StoredFileRow, StoredSkill,
};

fn file(id: u128, name: &str, extension: Option<&str>) -> FileItem {
    FileItem {
        id,
        root: "/tmp/r".to_string(),
        path: format!("/tmp/r/{}", name),
        relative_path: name.to_string(),
        file_name: name.to_string(),
        extension: extension.map(|e| e.to_string()),
        size_bytes: 3,
        created_at: None,
        modified_at: Some(Timestamp { seconds: 1714558830, nanos: 0 }),
        accessed_at: None,
        is_hidden: false,
        is_symlink: false,
        mime_type: None,
        path_hash: hash_path(&format!("/tmp/r/{}", name)),
        indexed_at: Timestamp { seconds: 0, nanos: 0 },
    }
}

fn settings(provider: &str, base_url: Option<&str>, cloud_enabled: bool) -> ModelSettingsDto {
    ModelSettingsDto {
        provider: provider.to_string(),
        base_url: base_url.map(|u| u.to_string()),
        model: Some("kimi-k2".to_string()),
        cloud_enabled,
    }
}

#[test]
fn model_test_commands_validate_request_shape_and_json_output() {
    let request = TestModelRequest {
        settings: settings("openai-compatible", Some("https://api.kimi.example/v1"), true),
        api_key: Some("sk-runtime-only".to_string()),
    };

    let connection = test_model_connection(&request).unwrap();
    let json_output = test_model_json_output(&request).unwrap();

    assert!(connection.request_valid);
    assert!(connection.message.contains("/chat/completions"));
    assert!(json_output.valid);
    assert_eq!(json_output.categories_count, 1);
    assert_eq!(json_output.summary, "JSON output validation passed.");
}

#[test]
fn model_tests_need_a_key_for_cloud_providers() {
    let request = TestModelRequest {
        settings: settings("openai-compatible", Some("https://api.kimi.example/v1"), true),
        api_key: Some("  ".to_string()),
    };
    assert_eq!(
        test_model_connection(&request).err().unwrap(),
        "openai-compatible provider requires runtime API key"
    );
    let local = TestModelRequest { settings: settings("ollama", None, false), api_key: None };
    let output = test_model_json_output(&local).unwrap();
    assert_eq!(output.provider, "ollama");
    let mock = TestModelRequest { settings: settings("mock", None, false), api_key: None };
    assert_eq!(test_model_connection(&mock).unwrap().message, "mock provider ready");
}

#[test]
fn sample_responses_wrap_the_content_per_provider() {
    let content: serde_json::Value = serde_json::from_str(&sample_provider_json_response("mock")).unwrap();
    assert_eq!(content["categories"][0]["confidence"], 90);
    let wrapped: serde_json::Value = serde_json::from_str(&sample_provider_json_response("kimi")).unwrap();
    let inner: serde_json::Value =
        serde_json::from_str(wrapped["choices"][0]["message"]["content"].as_str().unwrap()).unwrap();
    assert_eq!(inner, content);
    let ollama: serde_json::Value = serde_json::from_str(&sample_provider_json_response("ollama")).unwrap();
    assert!(ollama["response"].is_string());
}

#[test]
fn model_settings_commands_save_without_api_key() {
    let saved = settings_to_save(&ModelSettingsDto {
        provider: "openai-compatible".to_string(),
        base_url: Some("https://api.deepseek.example/v1".to_string()),
        model: Some("deepseek-chat".to_string()),
        cloud_enabled: true,
    })
    .unwrap();
    let listed = model_settings_list(vec![saved.clone()]);

    assert_eq!(saved.provider, "openai-compatible");
    assert!(listed.providers.iter().any(|provider| provider.provider == "ollama"));
    assert_eq!(listed.saved_settings.len(), 1);
    assert_eq!(listed.saved_settings[0].base_url.as_deref(), Some("https://api.deepseek.example/v1"));
    let refused = settings_to_save(&settings("openai-compatible", None, true)).err().unwrap();
    assert_eq!(refused, "openai-compatible provider requires base_url");
}

#[test]
fn ai_provider_settings_roundtrip_without_credentials() {
    let stored = AiProviderSettings {
        provider: "ollama".to_string(),
        base_url: Some("http://localhost:11434".to_string()),
        cloud_enabled: false,
        model: Some("llama3.2".to_string()),
    };
    let listed = model_settings_list(vec![stored.clone()]);
    let shown = &listed.saved_settings[0];
    assert_eq!(shown.provider, stored.provider);
    assert_eq!(shown.base_url, stored.base_url);
    assert_eq!(shown.model, stored.model);
    assert_eq!(shown.cloud_enabled, stored.cloud_enabled);
}

#[test]
fn scan_registry_tracks_cancellation() {
    let mut registry = ScanRegistry::new();
    assert!(!registry.cancel("task-1"));
    registry.register("task-1");
    assert!(!registry.is_cancelled("task-1"));
    assert!(registry.cancel("task-1"));
    assert!(registry.is_cancelled("task-1"));
    registry.register("task-1");
    assert!(registry.is_cancelled("task-1"));
    registry.finish("task-1");
    assert!(!registry.is_cancelled("task-1"));
    assert!(!registry.cancel("task-1"));
}

#[test]
fn scan_responses_show_files() {
    assert_eq!(scan_task_id(Some("task-1".to_string())), "task-1");
    let generated = scan_task_id(None);
    assert!(generated.starts_with("scan-"));
    assert_eq!(generated.len(), 41);

    let report = ScanReport {
        files: vec![file(5, "a.pdf", Some("pdf")), file(6, "README", None)],
        status: ScanStatus::Cancelled,
        skipped_count: 2,
        error_count: 1,
    };
    let response = scan_folder_response(
        "task-1".to_string(),
        "/tmp/r".to_string(),
        &report,
        &vec!["3 B".to_string(), "3 B".to_string()],
    );
    assert_eq!(response.status, ScanFolderStatus::Cancelled);
    assert_eq!(response.files.len(), 2);
    assert_eq!(response.files[0].extension, Some("pdf".to_string()));
    assert_eq!(response.files[0].kind, ".pdf");
    assert_eq!(response.files[1].kind, "无扩展名");
    assert_eq!(response.files[0].id, id_text(5));
    assert_eq!(response.files[0].modified_at.as_deref(), Some("2024-05-01T10:20:30+00:00"));
    assert_eq!(response.skipped_count, 2);

    let dto = file_to_dto(&report.files[1], "3 B".to_string());
    assert_eq!(dto.size_label, "3 B");
    assert_eq!(dto.name, "README");
}

#[test]
fn classifications_from_the_front_end_find_their_files() {
    let files = vec![file(5, "a.pdf", Some("pdf")), file(6, "b.jpg", Some("jpg"))];
    let dtos = vec![ClassificationInputDto {
        file_id: id_text(6),
        category: "图片".to_string(),
        category_key: Some("documents".to_string()),
        confidence: 80,
        evidence: vec!["user".to_string()],
        risk: "".to_string(),
    }];
    let results = classifications_from_dto(&files, &dtos).unwrap();
    assert_eq!(results[0].file, files[1]);
    assert_eq!(results[0].category, FileCategory::Documents);
    assert_eq!(results[0].risk, FileRiskLevel::Low);
    assert_eq!(results[0].evidence, vec!["user".to_string()]);

    let missing = vec![ClassificationInputDto {
        file_id: "missing".to_string(),
        category: "docs".to_string(),
        category_key: None,
        confidence: 1,
        evidence: vec![],
        risk: "low".to_string(),
    }];
    assert_eq!(classifications_from_dto(&files, &missing).err().unwrap(), "classification file not found: missing");
}

#[test]
fn classify_command_reads_scanned_files_from_storage() {
    let skill = stored_skill_to_core(StoredSkill {
        id: "legacy-skill-id".to_string(),
        name: "旧版图片归文档".to_string(),
        enabled: true,
        rule: SkillRule { extension: Some("jpg".to_string()), category: FileCategory::Documents, ..SkillRule::default() },
    });
    let files = vec![file(1, "安装包.dmg", Some("dmg")), file(2, "legacy.jpg", Some("jpg"))];
    let context = classification_context("/tmp/r", vec![skill]);
    let results = classify_all(&files, &context);

    assert_eq!(results.len(), 2);
    let installer = results.iter().find(|result| result.category == FileCategory::Installers).unwrap();
    assert!(installer.evidence.iter().any(|evidence| evidence.contains("扩展名")));
    let skill_result = results.iter().find(|result| result.category == FileCategory::Documents).unwrap();
    assert!(skill_result.evidence.iter().any(|evidence| evidence.contains("Skill")));
}

#[test]
fn stored_skills_keep_their_ids() {
    let skill: Skill = stored_skill_to_core(StoredSkill {
        id: id_text(99),
        name: "n".to_string(),
        enabled: false,
        rule: SkillRule::default(),
    });
    assert_eq!(skill.id, 99);
    assert!(!skill.enabled);
}

#[test]
fn lists_execution_batches_from_stored_batch_json() {
    let camel = row_to_history_summary(
        "b1".to_string(),
        "p1".to_string(),
        "completed".to_string(),
        r#"{"executedOperations":[{},{}],"errors":[{}],"startedAt":"s","finishedAt":"f"}"#.to_string(),
        "created".to_string(),
    )
    .unwrap();
    assert_eq!(camel.operation_count, 2);
    assert_eq!(camel.error_count, 1);
    assert_eq!(camel.started_at, "s");
    assert_eq!(camel.finished_at, "f");

    let snake = row_to_history_summary(
        "b2".to_string(),
        "p2".to_string(),
        "partially_failed".to_string(),
        r#"{"executed_operations":[{}],"started_at":"s2","finishedAt":null}"#.to_string(),
        "created".to_string(),
    )
    .unwrap();
    assert_eq!(snake.operation_count, 1);
    assert_eq!(snake.error_count, 0);
    assert_eq!(snake.started_at, "s2");
    assert_eq!(snake.finished_at, "created");
    assert_eq!(snake.status, "partially_failed");

    let broken = row_to_history_summary(
        "b3".to_string(),
        "p3".to_string(),
        "completed".to_string(),
        "{broken".to_string(),
        "c".to_string(),
    )
    .err()
    .unwrap();
    assert!(broken.starts_with("Conversion error from type Text at index: 3, key must be a string"));
}

#[test]
fn upserts_scanned_files_without_duplicates() {
    let row = StoredFileRow {
        id: id_text(4),
        root_path: "/tmp/r".to_string(),
        relative_path: "a.pdf".to_string(),
        path: "/tmp/r/a.pdf".to_string(),
        file_name: "a.pdf".to_string(),
        extension: Some("pdf".to_string()),
        size_bytes: -5,
        created_at: None,
        modified_at: Some(1714558830),
        accessed_at: None,
        is_hidden: 0,
        is_symlink: 1,
        mime_type: Some("application/pdf".to_string()),
        path_hash: hash_path("/tmp/r/a.pdf"),
        indexed_at: 1714558830,
    };
    let item = row_to_file_item(row.clone()).unwrap();
    assert_eq!(item.id, 4);
    assert_eq!(item.size_bytes, 0);
    assert!(item.is_symlink);
    assert_eq!(item.modified_at, Some(Timestamp { seconds: 1714558830, nanos: 0 }));
    assert_eq!(item.indexed_at, Timestamp { seconds: 1714558830, nanos: 0 });
    assert_eq!(item.path_hash.len(), 64);
    let mut broken = row;
    broken.id = "x".to_string();
    assert!(row_to_file_item(broken).is_err());
    assert_eq!(size_to_i64(u64::MAX), i64::MAX);
    assert_eq!(size_to_i64(7), 7);
}

fn id_text(id: u128) -> String {
    uuid::Uuid::from_u128(id).to_string()
}

#[test]
fn generate_plan_reclassifies_from_scan_storage_without_core_payload() {
    let stored = vec![file(41, "a.pdf", Some("pdf"))];
    let context = classification_context("/tmp/r", Vec::new());
    let classifications = classify_all(&stored, &context);
    let risks = risk_by_file_id(&classifications);
    let plan = DefaultPlanBuilder.build_plan(BuildPlanInput {
        task_id: "task-plan".to_string(),
        root_path: "/tmp/r".to_string(),
        mode: parse_mode("by_category").unwrap(),
        classifications,
    });
    let absent = || PathProbe { exists: false, is_dir: false, is_file: false, resolved_ancestor: Ok("/tmp/r".to_string()) };
    let present = || PathProbe { exists: true, is_dir: false, is_file: true, resolved_ancestor: Ok("/tmp/r".to_string()) };
    let probes = PlanProbes {
        root_canonical: Some("/tmp/r".to_string()),
        root_is_dir: true,
        operations: plan
            .operations
            .iter()
            .map(|op| match op.kind {
                FileOperationKind::CreateFolder { .. } => OperationProbe { source: absent(), target: absent() },
                _ => OperationProbe { source: present(), target: absent() },
            })
            .collect(),
    };
    let validation = DefaultPlanExecutor.validate_plan(&plan, &probes);
    let plan = plan_to_dto(&plan, &validation, &risks);

    assert_eq!(plan.task_id, "task-plan");
    assert_eq!(plan.mode, "by_category");
    assert!(plan.rows.iter().any(|row| row.operation_type == "move_file"
        && row.title.contains("a.pdf")
        && row.selected
        && row.conflict_status == "none"));
    assert!(plan.rows.iter().all(|row| !row.editable_target.is_empty()));
}

#[test]
fn path_hashes_are_sha256_hex() {
    assert_eq!(hash_path("abc"), "ba7816bf8f01cfea414140de5dae2223b00361a396177a9cb410ff61f20015ad");
}

#[test]
fn only_completed_scans_store_their_files() {
    assert_eq!(scan_outcome(ScanStatus::Completed), (true, "completed".to_string()));
    assert_eq!(scan_outcome(ScanStatus::Cancelled), (false, "cancelled".to_string()));
}

#[test]
fn risks_keep_the_last_classification_of_a_file() {
    let context = classification_context("/tmp/r", Vec::new());
    let mut link = file(7, "b.pdf", Some("pdf"));
    link.is_symlink = true;
    let classifications = classify_all(&vec![file(7, "a.pdf", Some("pdf")), link, file(8, "c.txt", Some("txt"))], &context);
    let risks = risk_by_file_id(&classifications);
    assert_eq!(risks.len(), 2);
    assert_eq!(risks.get(&7).map(String::as_str), Some("medium"));
    assert_eq!(risks.get(&8).map(String::as_str), Some("low"));
}
