use std::collections::HashMap;
use smart_file_organizer::batch_dto::{execution_batch_dto_to_core, execution_batch_to_dto, rollback_to_dto};
use smart_file_organizer::clock::Timestamp;
use smart_file_organizer::keys::{
    category_label_of, mode_key_of, operation_kind_from_parts, parse_category, parse_execution_status,
    parse_mode, parse_risk,
};
use smart_file_organizer::model::{
    ExecutedOperationDto, ExecutionBatchDto, ExecutionStatus, FileCategory, FileOperationKind,
    FileOperationPlan, FileRiskLevel, OperationRowDto, OrganizationMode, OrganizationPlan,
    OrganizationPlanDto, PlanSummary, PlanSummaryDto, PlanValidation, RollbackAction, RollbackEntry,
    RollbackEntryDto, UserApprovalDto, ValidationIssue,
};
use smart_file_organizer::plan_dto::{
    apply_plan_patch, apply_validation_to_plan_dto, approval_dto_to_core, operation_to_row_dto,
    plan_dto_to_core, plan_to_dto, row_dto_to_operation, summarize_operations, summarize_plan_dto,
    OperationPatchDto, PlanPatchDto,
};

const NOW: &str = "2024-05-01T10:20:30+00:00";

fn row(operation_id: u128, source: &str, target: &str, selected: bool) -> OperationRowDto {
    OperationRowDto {
        operation_id: id_text(operation_id),
        operation_type: "move_file".to_string(),
        title: "移动".to_string(),
        source: Some(source.to_string()),
        target: target.to_string(),
        reason: "test".to_string(),
        risk: "low".to_string(),
        selected,
        editable_target: target.to_string(),
        validation_issues: Vec::new(),
        conflict_status: "none".to_string(),
        file_id: None,
    }
}

fn plan_dto(plan_id: u128, rows: Vec<OperationRowDto>) -> OrganizationPlanDto {
    let n = rows.len();
    OrganizationPlanDto {
        plan_id: id_text(plan_id),
        task_id: "task-dto".to_string(),
        root_path: "/tmp/r".to_string(),
        mode: "by_category".to_string(),
        rows,
        summary: PlanSummaryDto { files_considered: n, folders_to_create: 0, files_to_move: n, files_to_rename: 0 },
        created_at: NOW.to_string(),
    }
}

#[test]
fn plan_and_approval_dtos_convert_to_core_execution_contract() {
    let plan_id = 0x1234_5678_9abc_def0_1234_5678_9abc_def0u128;
    let operation_id = 77u128;
    let plan = plan_dto(plan_id, vec![row(operation_id, "/tmp/r/a.txt", "/tmp/r/Docs/a.txt", true)]);
    let approval = UserApprovalDto {
        approved: true,
        approved_plan_id: id_text(plan_id),
        approved_at: NOW.to_string(),
        actor: Some("tester".to_string()),
    };

    let core_plan = plan_dto_to_core(&plan).unwrap();
    let core_approval = approval_dto_to_core(&approval).unwrap();

    assert_eq!(core_plan.plan_id, plan_id);
    assert_eq!(core_approval.approved_plan_id, plan_id);
    assert_eq!(core_approval.approved_at.seconds, 1714558830);
    assert_eq!(
        core_plan.operations[0].kind,
        FileOperationKind::MoveFile {
            source: "/tmp/r/a.txt".to_string(),
            destination: "/tmp/r/Docs/a.txt".to_string()
        }
    );
    assert_eq!(core_plan.operations[0].operation_id, operation_id);
}

#[test]
fn only_selected_rows_become_operations_with_their_edited_targets() {
    let mut edited = row(2, "/tmp/r/b.txt", "/tmp/r/Docs/b.txt", true);
    edited.editable_target = "/tmp/r/Other/b.txt".to_string();
    let plan = plan_dto(9, vec![row(1, "/tmp/r/a.txt", "/tmp/r/Docs/a.txt", false), edited]);
    let core = plan_dto_to_core(&plan).unwrap();
    assert_eq!(core.operations.len(), 1);
    assert_eq!(core.operations[0].kind.destination(), "/tmp/r/Other/b.txt");
    assert_eq!(core.summary.files_to_move, 1);
    assert_eq!(core.summary.files_considered, 2);
}

#[test]
fn invalid_rows_are_refused_with_their_message() {
    let mut bad_id = row(1, "/a", "/b", true);
    bad_id.operation_id = "nope".to_string();
    let error = row_dto_to_operation(&bad_id).err().unwrap();
    assert!(error.starts_with("invalid operation_id: "));
    let mut no_source = row(1, "/a", "/b", true);
    no_source.source = None;
    assert_eq!(row_dto_to_operation(&no_source).err().unwrap(), "move_file row missing source");
    let mut delete = row(1, "/a", "/b", true);
    delete.operation_type = "delete_file".to_string();
    assert_eq!(row_dto_to_operation(&delete).err().unwrap(), "unsupported operation_type: delete_file");
    let mut plan = plan_dto(1, vec![]);
    plan.mode = "chaos".to_string();
    assert_eq!(plan_dto_to_core(&plan).err().unwrap(), "unsupported organization mode: chaos");
    let mut late = plan_dto(1, vec![]);
    late.created_at = "yesterday".to_string();
    assert!(plan_dto_to_core(&late).err().unwrap().starts_with("invalid plan created_at: "));
}

#[test]
fn plan_patch_rejects_unsupported_delete_rows() {
    let mut delete = row(1, "/tmp/r/a.txt", "/tmp/r/a.txt", false);
    delete.operation_type = "delete_file".to_string();
    let plan = plan_dto(3, vec![delete]);
    let error = apply_plan_patch(plan, &PlanPatchDto { operations: vec![] }).err().unwrap();
    assert!(error.contains("unsupported operation_type: delete_file"));
}

#[test]
fn plan_patch_rejects_rows_edits_targets_and_revalidates() {
    let first = 101u128;
    let second = 102u128;
    let existing_target = "/tmp/r/Done/second.txt".to_string();
    let plan = plan_dto(
        5,
        vec![
            row(first, "/tmp/r/first.txt", "/tmp/r/Done/first.txt", true),
            row(second, "/tmp/r/second.txt", "/tmp/r/Done/new-second.txt", true),
        ],
    );
    let mut patched = apply_plan_patch(
        plan,
        &PlanPatchDto {
            operations: vec![
                OperationPatchDto { operation_id: id_text(first), selected: Some(false), editable_target: None },
                OperationPatchDto {
                    operation_id: id_text(second),
                    selected: None,
                    editable_target: Some(existing_target.clone()),
                },
            ],
        },
    )
    .unwrap();
    let core = plan_dto_to_core(&patched).unwrap();
    assert_eq!(core.operations.len(), 1);
    let validation = PlanValidation::from_issues(vec![ValidationIssue {
        operation_id: Some(second),
        message: format!("destination already exists: {}", existing_target),
    }]);
    apply_validation_to_plan_dto(&mut patched, &validation);
    patched.summary = summarize_plan_dto(&patched).unwrap();

    let first_row = &patched.rows[0];
    let second_row = &patched.rows[1];
    assert!(!first_row.selected);
    assert!(first_row.validation_issues.is_empty());
    assert_eq!(patched.summary.files_to_move, 1);
    assert_eq!(second_row.editable_target, existing_target);
    assert_eq!(second_row.conflict_status, "blocked");
    assert_eq!(second_row.risk, "high");
    assert!(second_row.validation_issues.iter().any(|issue| issue.message.contains("destination already exists")));
    assert_eq!(second_row.validation_issues[0].operation_id, Some(id_text(second)));

    let missing = apply_plan_patch(
        plan_dto(5, vec![]),
        &PlanPatchDto {
            operations: vec![OperationPatchDto { operation_id: "x".to_string(), selected: None, editable_target: None }],
        },
    )
    .err()
    .unwrap();
    assert_eq!(missing, "operation not found: x");
}

fn core_plan() -> OrganizationPlan {
    OrganizationPlan {
        plan_id: 0xabcdu128,
        task_id: "task-plan".to_string(),
        root_path: "/tmp/r".to_string(),
        mode: OrganizationMode::ByCategory,
        operations: vec![
            FileOperationPlan {
                operation_id: 1,
                kind: FileOperationKind::CreateFolder { path: "/tmp/r/PDF".to_string() },
                reason: "required by organization plan".to_string(),
                file_id: None,
            },
            FileOperationPlan {
                operation_id: 2,
                kind: FileOperationKind::MoveFile {
                    source: "/tmp/r/a.pdf".to_string(),
                    destination: "/tmp/r/PDF/a.pdf".to_string(),
                },
                reason: "PDF".to_string(),
                file_id: Some(8),
            },
        ],
        summary: PlanSummary { files_considered: 1, folders_to_create: 1, files_to_move: 1, files_to_rename: 0 },
        created_at: Timestamp { seconds: 1714558830, nanos: 0 },
    }
}

#[test]
fn plans_show_rows_with_titles_risks_and_issues() {
    let plan = core_plan();
    let validation = PlanValidation::from_issues(vec![ValidationIssue {
        operation_id: Some(1),
        message: "create-folder target is not a directory: /tmp/r/PDF".to_string(),
    }]);
    let risks: HashMap<u128, String> = HashMap::from([(8u128, "medium".to_string()), (8u128, "low".to_string())]);
    let dto = plan_to_dto(&plan, &validation, &risks);

    assert_eq!(dto.plan_id, id_text(0xabcd));
    assert_eq!(dto.mode, "by_category");
    assert_eq!(dto.created_at, NOW);
    assert_eq!(dto.rows.len(), 2);
    assert_eq!(dto.rows[0].operation_type, "create_folder");
    assert_eq!(dto.rows[0].title, "创建文件夹 PDF");
    assert_eq!(dto.rows[0].conflict_status, "blocked");
    assert_eq!(dto.rows[0].risk, "high");
    assert_eq!(dto.rows[1].title, "移动 a.pdf");
    assert_eq!(dto.rows[1].risk, "low");
    assert_eq!(dto.rows[1].conflict_status, "none");
    assert_eq!(dto.rows[1].file_id, Some(id_text(8)));
    assert_eq!(dto.rows[1].source.as_deref(), Some("/tmp/r/a.pdf"));

    let back = row_dto_to_operation(&operation_to_row_dto(&plan.operations[1], &validation, &risks)).unwrap();
    assert_eq!(back, plan.operations[1]);
}

#[test]
fn summaries_count_each_kind() {
    let plan = core_plan();
    let summary = summarize_operations(4, &plan.operations);
    assert_eq!(summary, PlanSummary { files_considered: 4, folders_to_create: 1, files_to_move: 1, files_to_rename: 0 });
}

#[test]
fn keys_and_labels_read_back() {
    assert_eq!(parse_category("documents").unwrap(), FileCategory::Documents);
    assert_eq!(parse_category(category_label_of(&FileCategory::Installers)).unwrap(), FileCategory::Installers);
    assert_eq!(parse_category("PDF").unwrap(), FileCategory::Pdf);
    assert_eq!(parse_category("docs").err().unwrap(), "unsupported category: docs");
    assert_eq!(parse_risk("").unwrap(), FileRiskLevel::Low);
    assert_eq!(parse_risk("High").unwrap(), FileRiskLevel::High);
    assert_eq!(parse_risk("urgent").err().unwrap(), "unsupported risk: urgent");
    assert_eq!(parse_mode(mode_key_of(&OrganizationMode::Desktop)).unwrap(), OrganizationMode::Desktop);
    assert_eq!(parse_mode("extension").unwrap(), OrganizationMode::ByExtension);
    assert_eq!(parse_execution_status("partially_failed").unwrap(), ExecutionStatus::PartiallyFailed);
    assert_eq!(parse_execution_status("done").err().unwrap(), "unsupported execution status: done");
    assert_eq!(
        operation_kind_from_parts("rename_file", None, "/x").err().unwrap(),
        "rename_file operation missing source"
    );
    assert_eq!(
        operation_kind_from_parts("create_folder", Some("/ignored"), "/x").unwrap(),
        FileOperationKind::CreateFolder { path: "/x".to_string() }
    );
}

#[test]
fn execution_batch_dto_converts_to_core_for_history_rollback() {
    let batch_id = 11u128;
    let plan_id = 12u128;
    let operation_id = 13u128;
    let moved = "/tmp/r/Done/a.txt".to_string();
    let original = "/tmp/r/a.txt".to_string();

    let batch = execution_batch_dto_to_core(&ExecutionBatchDto {
        batch_id: id_text(batch_id),
        plan_id: id_text(plan_id),
        status: "completed".to_string(),
        executed_operations: vec![ExecutedOperationDto {
            operation_id: id_text(operation_id),
            operation_type: "move_file".to_string(),
            source: Some(original.clone()),
            target: moved.clone(),
            completed_at: NOW.to_string(),
        }],
        rollback_entries: vec![RollbackEntryDto {
            batch_id: id_text(batch_id),
            operation_id: id_text(operation_id),
            action: "move_file_back".to_string(),
            from: Some(moved.clone()),
            to: Some(original.clone()),
            created_at: NOW.to_string(),
        }],
        errors: Vec::new(),
        started_at: NOW.to_string(),
        finished_at: NOW.to_string(),
    })
    .unwrap();

    assert_eq!(batch.batch_id, batch_id);
    assert_eq!(batch.rollback_entries.len(), 1);
    assert_eq!(batch.rollback_entries[0].action, RollbackAction::MoveFileBack { from: moved, to: original });
    assert_eq!(batch.status, ExecutionStatus::Completed);

    let shown = execution_batch_to_dto(&batch);
    assert_eq!(shown.status, "completed");
    assert_eq!(shown.started_at, NOW);
    assert_eq!(shown.executed_operations[0].operation_type, "move_file");
    let again = execution_batch_dto_to_core(&shown).unwrap();
    assert_eq!(again, batch);
}

#[test]
fn rollback_records_show_their_action_and_refuse_unknown_ones() {
    let entry = RollbackEntry {
        batch_id: 1,
        operation_id: 2,
        action: RollbackAction::RemoveCreatedFolder { path: "/tmp/r/PDF".to_string() },
        created_at: Timestamp { seconds: 1714558830, nanos: 0 },
    };
    let dto = rollback_to_dto(&entry);
    assert_eq!(dto.action, "remove_created_folder");
    assert_eq!(dto.from.as_deref(), Some("/tmp/r/PDF"));
    assert_eq!(dto.to, None);
    let mut batch = ExecutionBatchDto {
        batch_id: id_text(1),
        plan_id: id_text(2),
        status: "completed".to_string(),
        executed_operations: Vec::new(),
        rollback_entries: vec![dto],
        errors: Vec::new(),
        started_at: NOW.to_string(),
        finished_at: NOW.to_string(),
    };
    batch.rollback_entries[0].action = "delete".to_string();
    assert_eq!(execution_batch_dto_to_core(&batch).err().unwrap(), "unsupported rollback action: delete");
}

fn id_text(id: u128) -> String {
    uuid::Uuid::from_u128(id).to_string()
}

#[test]
fn plan_preview_reads_back_as_the_plan() {
    let mut plan = core_plan();
    plan.created_at = Timestamp { seconds: 1714558830, nanos: 250_000_000 };
    let validation = PlanValidation::ok();
    let shown = plan_to_dto(&plan, &validation, &HashMap::from([(8u128, "medium".to_string())]));
    let back = plan_dto_to_core(&shown).unwrap();
    assert_eq!(back, plan);
}

#[test]
fn batch_record_with_leap_second_reads_back() {
    let at = Timestamp { seconds: 1483228799, nanos: 1_500_000_000 };
    let batch = execution_batch_dto_to_core(&ExecutionBatchDto {
        batch_id: id_text(21),
        plan_id: id_text(22),
        status: "partially_failed".to_string(),
        executed_operations: Vec::new(),
        rollback_entries: Vec::new(),
        errors: Vec::new(),
        started_at: "2016-12-31T23:59:60.5+00:00".to_string(),
        finished_at: NOW.to_string(),
    })
    .unwrap();
    assert_eq!(batch.started_at, at);
    let shown = execution_batch_to_dto(&batch);
    assert_eq!(shown.started_at, "2016-12-31T23:59:60.500+00:00");
    assert_eq!(execution_batch_dto_to_core(&shown).unwrap(), batch);
}
