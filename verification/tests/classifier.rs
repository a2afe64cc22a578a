use smart_file_organizer::classifier::BasicClassifier;
use smart_file_organizer::clock::Timestamp;
use smart_file_organizer::model::{
    ClassificationContext, ClassificationRule, FileCategory, FileItem, FileRiskLevel,
    RuleCondition, RuleField, RuleOperator, RuleValue, Skill, SkillRule,
};

fn at_epoch() -> Timestamp {
    Timestamp { seconds: 0, nanos: 0 }
}

fn file(name: &str) -> FileItem {
    let extension = std::path::Path::new(name)
        .extension()
        .map(|extension| extension.to_string_lossy().into_owned());
    FileItem {
        id: 7,
        root: "/tmp".to_string(),
        path: format!("/tmp/{name}"),
        relative_path: name.to_string(),
        file_name: name.to_string(),
        extension,
        size_bytes: 1,
        created_at: Some(at_epoch()),
        modified_at: Some(at_epoch()),
        accessed_at: Some(at_epoch()),
        is_hidden: false,
        is_symlink: false,
        mime_type: None,
        path_hash: format!("hash-{name}"),
        indexed_at: at_epoch(),
    }
}

fn context() -> ClassificationContext {
    ClassificationContext {
        root_path: "/tmp".to_string(),
        ..ClassificationContext::default()
    }
}

#[test]
fn classifies_core_extensions_with_chinese_evidence() {
    let cases = [
        ("photo.jpg", FileCategory::Images),
        ("report.pdf", FileCategory::Pdf),
        ("backup.zip", FileCategory::Archives),
        ("installer.dmg", FileCategory::Installers),
        ("main.rs", FileCategory::Code),
    ];

    for (name, expected) in cases {
        let result = BasicClassifier.classify(&file(name), &context());

        assert_eq!(result.category, expected);
        assert!(result.confidence > 80);
        assert!(result.evidence[0].contains("扩展名"));
    }
}

#[test]
fn classifies_file_name_keywords_before_extension() {
    let result = BasicClassifier.classify(&file("发票-三月.pdf"), &context());

    assert_eq!(result.category, FileCategory::Documents);
    assert!(result.evidence.iter().any(|evidence| evidence.contains("票据")));

    let screenshot = BasicClassifier.classify(&file("Screenshot 2026-05-01.png"), &context());
    assert_eq!(screenshot.category, FileCategory::Images);
    assert!(screenshot.evidence.iter().any(|evidence| evidence.contains("截图")));
}

#[test]
fn enabled_classification_rule_uses_highest_priority() {
    let mut context = context();
    context.rules = vec![
        ClassificationRule {
            rule_id: "disabled".to_string(),
            name: "禁用规则".to_string(),
            priority: 200,
            enabled: false,
            conditions: vec![RuleCondition {
                field: RuleField::Extension,
                operator: RuleOperator::Equals,
                value: RuleValue::Text("pdf".to_string()),
            }],
            target_category: FileCategory::Archives,
        },
        ClassificationRule {
            rule_id: "contract".to_string(),
            name: "合同归档".to_string(),
            priority: 100,
            enabled: true,
            conditions: vec![RuleCondition {
                field: RuleField::FileName,
                operator: RuleOperator::Contains,
                value: RuleValue::Text("合同".to_string()),
            }],
            target_category: FileCategory::Documents,
        },
    ];

    let result = BasicClassifier.classify(&file("客户合同.pdf"), &context);

    assert_eq!(result.category, FileCategory::Documents);
    assert!(result.evidence[0].contains("合同归档"));
}

#[test]
fn enabled_skill_overrides_rules_and_empty_matcher_is_ignored() {
    let mut context = context();
    context.rules = vec![ClassificationRule {
        rule_id: "pdf".to_string(),
        name: "PDF 规则".to_string(),
        priority: 100,
        enabled: true,
        conditions: vec![RuleCondition {
            field: RuleField::Extension,
            operator: RuleOperator::Equals,
            value: RuleValue::Text("pdf".to_string()),
        }],
        target_category: FileCategory::Pdf,
    }];
    context.skills = vec![
        Skill {
            id: 1,
            name: "空 Skill".to_string(),
            enabled: true,
            rule: SkillRule {
                category: FileCategory::Archives,
                ..SkillRule::default()
            },
            created_at: at_epoch(),
        },
        Skill {
            id: 2,
            name: "发票进入文档".to_string(),
            enabled: true,
            rule: SkillRule {
                extension: Some("pdf".to_string()),
                file_name_contains: Some("发票".to_string()),
                category: FileCategory::Documents,
                ..SkillRule::default()
            },
            created_at: at_epoch(),
        },
    ];

    let result = BasicClassifier.classify(&file("发票.pdf"), &context);

    assert_eq!(result.category, FileCategory::Documents);
    assert!(result.confidence > 90);
    assert!(result.evidence[0].contains("Skill"));
}

#[test]
fn rule_evidence_names_rule_and_priority() {
    let mut context = context();
    context.rules = vec![
        ClassificationRule {
            rule_id: "a".to_string(),
            name: "first".to_string(),
            priority: -3,
            enabled: true,
            conditions: vec![RuleCondition {
                field: RuleField::Extension,
                operator: RuleOperator::In,
                value: RuleValue::List(vec!["txt".to_string(), ".PDF".to_string()]),
            }],
            target_category: FileCategory::Archives,
        },
        ClassificationRule {
            rule_id: "b".to_string(),
            name: "second".to_string(),
            priority: -3,
            enabled: true,
            conditions: vec![RuleCondition {
                field: RuleField::FileName,
                operator: RuleOperator::StartsWith,
                value: RuleValue::Text("REP".to_string()),
            }],
            target_category: FileCategory::Code,
        },
    ];
    let result = BasicClassifier.classify(&file("report.pdf"), &context);
    assert_eq!(result.category, FileCategory::Archives);
    assert_eq!(result.confidence, 92);
    assert_eq!(result.evidence, vec!["命中分类规则：first（优先级 -3）".to_string()]);
}

#[test]
fn unknown_files_fall_back_to_other_and_mime() {
    let result = BasicClassifier.classify(&file("notes"), &context());
    assert_eq!(result.category, FileCategory::Other);
    assert_eq!(result.confidence, 20);
    assert_eq!(result.risk, FileRiskLevel::Low);

    let mut item = file("clip");
    item.mime_type = Some("video/mp4".to_string());
    item.is_symlink = true;
    let result = BasicClassifier.classify(&item, &context());
    assert_eq!(result.category, FileCategory::Videos);
    assert_eq!(result.confidence, 82);
    assert_eq!(result.evidence, vec!["MIME 类型 video/mp4 命中本地基础分类规则".to_string()]);
    assert_eq!(result.risk, FileRiskLevel::Medium);

    let mut item = file("photo.JPEG");
    item.mime_type = Some("text/plain".to_string());
    let result = BasicClassifier.classify(&item, &context());
    assert_eq!(result.category, FileCategory::Images);
    assert_eq!(result.evidence, vec!["扩展名 .jpeg 命中本地基础分类规则".to_string()]);
}
