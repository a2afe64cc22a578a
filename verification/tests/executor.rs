use smart_file_organizer::clock::Timestamp;
use smart_file_organizer::executor::{
    DefaultPlanExecutor, ExecutionStep, OperationOutcome, OperationProbe, PathProbe, PlanProbes,
};
use smart_file_organizer::model::{
    ExecutionBatch, ExecutionStatus, FileOperationKind, FileOperationPlan, OrganizationMode,
    OrganizationPlan, OrganizerError, PlanSummary, RollbackAction, UserApproval,
};
use smart_file_organizer::rollback::{rollback_batch, rollback_entry, UndoOutcome, UndoStep};

const ROOT: &str = "/tmp/organizer-root";

fn at_epoch() -> Timestamp {
    Timestamp { seconds: 0, nanos: 0 }
}

fn path(rel: &str) -> String {
    format!("{}/{}", ROOT, rel)
}

fn probe(exists: bool, is_dir: bool, is_file: bool, resolved: &str) -> PathProbe {
    PathProbe { exists, is_dir, is_file, resolved_ancestor: Ok(resolved.to_string()) }
}

fn source_probe() -> PathProbe {
    probe(true, false, true, ROOT)
}

fn free_target() -> PathProbe {
    probe(false, false, false, ROOT)
}

fn probes(operations: Vec<OperationProbe>) -> PlanProbes {
    PlanProbes { root_canonical: Some(ROOT.to_string()), root_is_dir: true, operations }
}

fn move_op(id: u128, source: &str, destination: &str) -> FileOperationPlan {
    FileOperationPlan {
        operation_id: id,
        kind: FileOperationKind::MoveFile { source: source.to_string(), destination: destination.to_string() },
        reason: "test".to_string(),
        file_id: None,
    }
}

fn plan(plan_id: u128, operations: Vec<FileOperationPlan>) -> OrganizationPlan {
    let moves = operations.len();
    OrganizationPlan {
        plan_id,
        task_id: "task".to_string(),
        root_path: ROOT.to_string(),
        mode: OrganizationMode::ByCategory,
        operations,
        summary: PlanSummary { files_considered: moves, folders_to_create: 0, files_to_move: moves, files_to_rename: 0 },
        created_at: at_epoch(),
    }
}

fn approval(plan_id: u128, approved: bool) -> UserApproval {
    UserApproval { approved, approved_plan_id: plan_id, approved_at: at_epoch(), actor: Some("test".to_string()) }
}

#[test]
fn refuses_execution_without_matching_approval() {
    let plan = plan(1, Vec::new());
    let error = DefaultPlanExecutor
        .execute_confirmed(&plan, &approval(2, true), &probes(Vec::new()))
        .err()
        .unwrap();
    assert_eq!(error, OrganizerError::ApprovalPlanMismatch);
    assert!(error.message().contains("approval does not match plan id"));

    let unapproved = DefaultPlanExecutor
        .execute_confirmed(&plan, &approval(1, false), &probes(Vec::new()))
        .err()
        .unwrap();
    assert_eq!(unapproved.message(), "approval is required before executing a plan");
}

#[test]
fn validation_rejects_destination_collision() {
    let plan = plan(1, vec![move_op(10, &path("a.txt"), &path("b.txt"))]);
    let probes = probes(vec![OperationProbe { source: source_probe(), target: probe(true, false, true, &path("b.txt")) }]);

    let validation = DefaultPlanExecutor.validate_plan(&plan, &probes);

    assert!(!validation.valid);
    assert!(validation.issues.iter().any(|issue| issue.message.contains("destination already exists")));
}

#[test]
fn validation_rejects_parent_traversal_escape() {
    let plan = plan(1, vec![move_op(10, &path("a.txt"), &format!("{}/../outside.txt", ROOT))]);
    let probes = probes(vec![OperationProbe { source: source_probe(), target: free_target() }]);

    let validation = DefaultPlanExecutor.validate_plan(&plan, &probes);

    assert!(!validation.valid);
    assert!(validation.issues.iter().any(|issue| issue.message.contains("parent traversal")));
}

#[test]
fn validation_rejects_duplicate_planned_destinations() {
    let destination = path("Done/same.txt");
    let plan = plan(1, vec![move_op(10, &path("a.txt"), &destination), move_op(11, &path("b.txt"), &destination)]);
    let probes = probes(vec![
        OperationProbe { source: source_probe(), target: free_target() },
        OperationProbe { source: source_probe(), target: free_target() },
    ]);

    let validation = DefaultPlanExecutor.validate_plan(&plan, &probes);

    assert!(!validation.valid);
    assert_eq!(
        validation.issues.iter().filter(|issue| issue.message.contains("duplicate planned destination")).count(),
        2
    );
    assert_eq!(validation.issues[0].operation_id, Some(10));
    assert_eq!(validation.issues[1].operation_id, Some(11));
    assert_eq!(validation.issues[0].message, format!("duplicate planned destination: {}", destination));
}

#[test]
fn validation_messages_follow_each_check() {
    let plan = plan(
        1,
        vec![
            move_op(10, "/elsewhere/a.txt", &path("x/a.txt")),
            move_op(11, &path("same.txt"), &path("./same.txt")),
            FileOperationPlan {
                operation_id: 12,
                kind: FileOperationKind::CreateFolder { path: path("Docs") },
                reason: "folder".to_string(),
                file_id: None,
            },
        ],
    );
    let probes = PlanProbes {
        root_canonical: Some(ROOT.to_string()),
        root_is_dir: true,
        operations: vec![
            OperationProbe { source: probe(false, false, false, "/elsewhere"), target: probe(false, false, false, "/private/link") },
            OperationProbe { source: source_probe(), target: PathProbe { exists: true, is_dir: false, is_file: true, resolved_ancestor: Err("denied".to_string()) } },
            OperationProbe { source: free_target(), target: probe(true, false, true, &path("Docs")) },
        ],
    };

    let messages = DefaultPlanExecutor
        .validate_plan(&plan, &probes)
        .issues
        .into_iter()
        .map(|issue| issue.message)
        .collect::<Vec<_>>();

    assert_eq!(
        messages,
        vec![
            "operation path escapes plan root: /elsewhere/a.txt".to_string(),
            format!("operation path resolves outside plan root: {} via /private/link", path("x/a.txt")),
            "source file does not exist: /elsewhere/a.txt".to_string(),
            format!("operation path cannot be resolved safely: {} (denied)", path("./same.txt")),
            format!("destination already exists: {}", path("./same.txt")),
            "source and destination are identical".to_string(),
            format!("create-folder target is not a directory: {}", path("Docs")),
        ]
    );
}

#[test]
fn missing_root_is_an_issue_and_blocks_execution() {
    let plan = plan(1, vec![move_op(10, &path("a.txt"), &path("b.txt"))]);
    let probes = PlanProbes {
        root_canonical: None,
        root_is_dir: false,
        operations: vec![OperationProbe { source: source_probe(), target: free_target() }],
    };
    let validation = DefaultPlanExecutor.validate_plan(&plan, &probes);
    assert_eq!(validation.issues.len(), 1);
    assert_eq!(validation.issues[0].operation_id, None);
    assert_eq!(validation.issues[0].message, format!("plan root is not a directory: {}", ROOT));
    let error = DefaultPlanExecutor.execute_confirmed(&plan, &approval(1, true), &probes).err().unwrap();
    assert_eq!(
        error.message(),
        format!("plan validation failed: plan root is not a directory: {}", ROOT)
    );
}

fn run_to_batch(plan: &OrganizationPlan, outcomes: &[OperationOutcome]) -> ExecutionBatch {
    let probes = probes(plan.operations.iter().map(|_| OperationProbe { source: source_probe(), target: free_target() }).collect());
    let mut run = DefaultPlanExecutor.execute_confirmed(plan, &approval(plan.plan_id, true), &probes).ok().unwrap();
    for outcome in outcomes {
        assert!(run.next_step().is_some());
        run.record(*outcome);
    }
    run.finish()
}

#[test]
fn partial_failure_records_error_and_preserves_prior_rollback_entries() {
    let plan = plan(
        7,
        vec![
            move_op(1, &path("first.txt"), &path("Done/first.txt")),
            move_op(2, &path("second.txt"), &path("blocked/second.txt")),
        ],
    );
    let batch = run_to_batch(&plan, &[OperationOutcome::Done, OperationOutcome::FolderNotCreated]);

    assert_eq!(batch.status, ExecutionStatus::PartiallyFailed);
    assert_eq!(batch.plan_id, 7);
    assert_eq!(batch.executed_operations.len(), 1);
    assert_eq!(batch.rollback_entries.len(), 1);
    assert_eq!(batch.rollback_entries[0].operation_id, 1);
    assert_eq!(batch.errors.len(), 1);
    assert_eq!(batch.errors[0].operation_id, Some(2));
    assert!(batch.errors[0].message.contains("failed to create"));
    assert_eq!(batch.errors[0].message, format!("failed to create {}", path("blocked")));
}

#[test]
fn executes_and_rolls_back_temp_directory_flow() {
    let plan = plan(
        3,
        vec![
            FileOperationPlan {
                operation_id: 1,
                kind: FileOperationKind::CreateFolder { path: path("PDF") },
                reason: "folder".to_string(),
                file_id: None,
            },
            move_op(2, &path("report.pdf"), &path("PDF/report.pdf")),
            move_op(3, &path("photo.jpg"), &path("Images/photo.jpg")),
        ],
    );
    let probes = probes(vec![
        OperationProbe { source: free_target(), target: free_target() },
        OperationProbe { source: source_probe(), target: free_target() },
        OperationProbe { source: source_probe(), target: free_target() },
    ]);
    let mut run = DefaultPlanExecutor.execute_confirmed(&plan, &approval(3, true), &probes).ok().unwrap();
    assert_eq!(run.next_step(), Some(ExecutionStep::CreateFolder { path: path("PDF") }));
    run.record(OperationOutcome::Done);
    assert_eq!(
        run.next_step(),
        Some(ExecutionStep::Move {
            source: path("report.pdf"),
            destination: path("PDF/report.pdf"),
            parent: Some(path("PDF")),
        })
    );
    run.record(OperationOutcome::Done);
    assert!(run.next_step().is_some());
    run.record(OperationOutcome::Done);
    assert_eq!(run.next_step(), None);
    let batch = run.finish();

    assert_eq!(batch.status, ExecutionStatus::Completed);
    assert_eq!(batch.executed_operations.len(), 3);
    assert!(batch.errors.is_empty());
    assert_eq!(
        batch.rollback_entries.iter().map(|e| e.action.clone()).collect::<Vec<_>>(),
        vec![
            RollbackAction::RemoveCreatedFolder { path: path("PDF") },
            RollbackAction::MoveFileBack { from: path("PDF/report.pdf"), to: path("report.pdf") },
            RollbackAction::MoveFileBack { from: path("Images/photo.jpg"), to: path("photo.jpg") },
        ]
    );

    let mut undo = DefaultPlanExecutor.rollback_batch(&batch);
    let mut steps = Vec::new();
    while let Some(step) = undo.next_step() {
        steps.push(step);
        undo.record(UndoOutcome::Undone);
    }
    let result = undo.finish();
    assert!(result.errors.is_empty());
    assert_eq!(result.batch_id, batch.batch_id);
    assert_eq!(result.rolled_back, vec![3, 2, 1]);
    assert_eq!(
        steps[0],
        UndoStep::MoveBack { from: path("Images/photo.jpg"), to: path("photo.jpg"), parent: Some(ROOT.to_string()) }
    );
    assert_eq!(steps[2], UndoStep::RemoveFolder { path: path("PDF") });
}

#[test]
fn existing_folders_are_not_recorded_for_rollback() {
    let plan = plan(
        4,
        vec![FileOperationPlan {
            operation_id: 9,
            kind: FileOperationKind::CreateFolder { path: path("Docs") },
            reason: "folder".to_string(),
            file_id: None,
        }],
    );
    let batch = run_to_batch(&plan, &[OperationOutcome::AlreadyExisted]);
    assert_eq!(batch.status, ExecutionStatus::Completed);
    assert_eq!(batch.executed_operations.len(), 1);
    assert!(batch.rollback_entries.is_empty());
}

#[test]
fn rolls_file_move_back_in_reverse_order() {
    let batch_id = 40;
    let source = path("a.txt");
    let destination = path("Documents/a.txt");
    let batch = ExecutionBatch {
        batch_id,
        plan_id: 41,
        status: ExecutionStatus::Completed,
        executed_operations: Vec::new(),
        rollback_entries: vec![rollback_entry(
            batch_id,
            42,
            RollbackAction::MoveFileBack { from: destination.clone(), to: source.clone() },
        )],
        errors: Vec::new(),
        started_at: at_epoch(),
        finished_at: at_epoch(),
    };

    let mut run = rollback_batch(&batch);
    assert_eq!(
        run.next_step(),
        Some(UndoStep::MoveBack { from: destination, to: source, parent: Some(ROOT.to_string()) })
    );
    run.record(UndoOutcome::Undone);
    assert_eq!(run.next_step(), None);
    let result = run.finish();

    assert!(result.errors.is_empty());
    assert_eq!(result.rolled_back, vec![42]);
}

#[test]
fn rollback_failures_are_kept_per_entry() {
    let batch = ExecutionBatch {
        batch_id: 5,
        plan_id: 6,
        status: ExecutionStatus::Completed,
        executed_operations: Vec::new(),
        rollback_entries: vec![
            rollback_entry(5, 1, RollbackAction::RemoveCreatedFolder { path: path("PDF") }),
            rollback_entry(5, 2, RollbackAction::RenameFileBack { from: path("b.txt"), to: path("sub/a.txt") }),
        ],
        errors: Vec::new(),
        started_at: at_epoch(),
        finished_at: at_epoch(),
    };
    let mut run = rollback_batch(&batch);
    run.record(UndoOutcome::ParentNotRecreated);
    run.record(UndoOutcome::FolderNotRemoved);
    let result = run.finish();
    assert!(result.rolled_back.is_empty());
    assert_eq!(result.errors.len(), 2);
    assert_eq!(result.errors[0].operation_id, Some(2));
    assert_eq!(result.errors[0].message, format!("failed to recreate {}", path("sub")));
    assert_eq!(result.errors[1].message, format!("failed to remove created folder {}", path("PDF")));
}

#[test]
fn every_issue_names_an_operation_of_the_plan_or_none() {
    let destination = path("Done/same.txt");
    let plan = plan(1, vec![
        move_op(10, &path("a.txt"), &destination),
        move_op(11, &format!("{}/../b.txt", ROOT), &destination),
    ]);
    let mut probes = probes(vec![
        OperationProbe { source: source_probe(), target: free_target() },
        OperationProbe { source: probe(false, false, false, ROOT), target: free_target() },
    ]);
    probes.root_is_dir = false;
    let validation = DefaultPlanExecutor.validate_plan(&plan, &probes);
    assert!(!validation.valid);
    assert!(validation.issues.iter().any(|i| i.operation_id.is_none()));
    assert!(validation.issues.iter().all(|i| match i.operation_id {
        None => true,
        Some(id) => id == 10 || id == 11,
    }));
    assert!(validation.issues.iter().any(|i| i.operation_id == Some(11) && i.message.contains("parent traversal")));
    assert!(validation.issues.iter().any(|i| i.operation_id == Some(11) && i.message.contains("source file does not exist")));
}
