use smart_file_organizer::clock::Timestamp;
use smart_file_organizer::model::{FileCategory, Skill, SkillRule, UserDecision, UserDecisionEvent};
use smart_file_organizer::skill_engine::{
    file_name_keyword_of, mime_prefix_of, propose_skill_updates, rule_matches, FileFacts,
    SkillEngine,
};

fn at_epoch() -> Timestamp {
    Timestamp { seconds: 0, nanos: 0 }
}

#[test]
fn returns_structured_suggestions_for_matching_enabled_skills() {
    let engine = SkillEngine::new(vec![
        Skill {
            id: 0x11,
            name: "PDF 文件".to_string(),
            enabled: true,
            rule: SkillRule {
                extension: Some("pdf".to_string()),
                category: FileCategory::Documents,
                destination_hint: Some("文档/PDF".to_string()),
                ..SkillRule::default()
            },
            created_at: at_epoch(),
        },
        Skill {
            id: 0x12,
            name: "Disabled".to_string(),
            enabled: false,
            rule: SkillRule {
                extension: Some("pdf".to_string()),
                category: FileCategory::Archives,
                ..SkillRule::default()
            },
            created_at: at_epoch(),
        },
    ]);

    let suggestions = engine.suggest(&FileFacts {
        file_name: "invoice.pdf".to_string(),
        extension: Some("PDF".to_string()),
        mime: Some("application/pdf".to_string()),
        size_bytes: 1024,
    });

    assert_eq!(suggestions.len(), 1);
    assert_eq!(suggestions[0].skill_name, "PDF 文件");
    assert_eq!(suggestions[0].category, FileCategory::Documents);
    assert!(suggestions[0].evidence.iter().any(|evidence| evidence.contains("扩展名 .pdf")));
    assert_eq!(suggestions[0].skill_id, "00000000-0000-0000-0000-000000000011");
}

#[test]
fn empty_matcher_does_not_match_everything() {
    let engine = SkillEngine::new(vec![Skill {
        id: 3,
        name: "Empty".to_string(),
        enabled: true,
        rule: SkillRule {
            category: FileCategory::Other,
            ..SkillRule::default()
        },
        created_at: at_epoch(),
    }]);

    assert!(engine
        .suggest(&FileFacts {
            file_name: "a.txt".to_string(),
            extension: Some("txt".to_string()),
            mime: Some("text/plain".to_string()),
            size_bytes: 1,
        })
        .is_empty());
}

#[test]
fn proposes_extension_skill_from_edited_destination_event() {
    let event_id = 0xabcdef;
    let proposals = propose_skill_updates(&vec![UserDecisionEvent {
        event_id,
        file_name: "invoice.pdf".to_string(),
        extension: Some("PDF".to_string()),
        mime_type: Some("application/pdf".to_string()),
        decision: UserDecision::EditedDestination,
        original_category: Some(FileCategory::Pdf),
        final_category: Some(FileCategory::Documents),
        original_destination: Some("/tmp/PDF/invoice.pdf".to_string()),
        final_destination: Some("/tmp/Invoices/invoice.pdf".to_string()),
        occurred_at: at_epoch(),
    }]);

    assert_eq!(proposals.len(), 1);
    assert_eq!(proposals[0].rule.extension, Some("pdf".to_string()));
    assert_eq!(proposals[0].rule.category, FileCategory::Documents);
    assert_eq!(proposals[0].rule.destination_hint, Some("Invoices".to_string()));
    assert_eq!(proposals[0].source_event_ids, vec![event_id]);
    assert_eq!(proposals[0].name, ".pdf 文件进入 Documents");
    assert_eq!(proposals[0].rule.mime_prefix, Some("application/".to_string()));
    assert_eq!(proposals[0].evidence, vec!["用户决策 EditedDestination：同扩展名 .pdf".to_string()]);
}

#[test]
fn rejected_events_do_not_create_positive_rules() {
    let proposals = propose_skill_updates(&vec![UserDecisionEvent {
        event_id: 9,
        file_name: "draft".to_string(),
        extension: None,
        mime_type: None,
        decision: UserDecision::Rejected,
        original_category: Some(FileCategory::Documents),
        final_category: None,
        original_destination: None,
        final_destination: None,
        occurred_at: at_epoch(),
    }]);

    assert!(proposals.is_empty());
}

#[test]
fn keyword_proposal_uses_renamed_file_name_as_hint() {
    let proposals = propose_skill_updates(&vec![UserDecisionEvent {
        event_id: 5,
        file_name: "  Tax_Return-2026".to_string(),
        extension: Some(" . ".to_string()),
        mime_type: Some("/weird".to_string()),
        decision: UserDecision::Accepted,
        original_category: None,
        final_category: Some(FileCategory::Documents),
        original_destination: None,
        final_destination: Some("/tmp/Taxes/return.pdf".to_string()),
        occurred_at: at_epoch(),
    }]);
    assert_eq!(proposals.len(), 1);
    assert_eq!(proposals[0].rule.file_name_contains, Some("tax".to_string()));
    assert_eq!(proposals[0].rule.extension, None);
    assert_eq!(proposals[0].rule.mime_prefix, None);
    assert_eq!(proposals[0].rule.destination_hint, Some("return.pdf".to_string()));
    assert_eq!(proposals[0].name, "文件名包含 tax 进入 Documents");
}

#[test]
fn helpers_read_names_and_mime_types() {
    assert_eq!(mime_prefix_of("image/png"), Some("image/".to_string()));
    assert_eq!(mime_prefix_of("plain"), None);
    assert_eq!(file_name_keyword_of("a.b.c"), None);
    assert_eq!(file_name_keyword_of("会议纪要.docx"), Some("会议纪要".to_string()));
    let rule = SkillRule {
        mime_prefix: Some("image/".to_string()),
        file_name_contains: Some(String::new()),
        ..SkillRule::default()
    };
    let facts = FileFacts {
        file_name: "x".to_string(),
        extension: None,
        mime: Some("image/png".to_string()),
        size_bytes: 0,
    };
    assert!(rule_matches(&rule, &facts));
}
