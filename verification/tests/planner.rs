use smart_file_organizer::clock::Timestamp;
use smart_file_organizer::model::{
    BuildPlanInput, ClassificationResult, FileCategory, FileItem, FileOperationKind,
    FileRiskLevel, OrganizationMode,
};
use smart_file_organizer::planner::{choose_destination, two_decimals_of, DefaultPlanBuilder};

fn classified_pdf(root: &str) -> ClassificationResult {
    ClassificationResult {
        file: FileItem {
            id: 42,
            root: root.to_string(),
            path: format!("{root}/a.pdf"),
            relative_path: "a.pdf".to_string(),
            file_name: "a.pdf".to_string(),
            extension: Some("pdf".to_string()),
            size_bytes: 1,
            created_at: None,
            modified_at: None,
            accessed_at: None,
            is_hidden: false,
            is_symlink: false,
            mime_type: None,
            path_hash: "hash-a-pdf".to_string(),
            indexed_at: Timestamp { seconds: 0, nanos: 0 },
        },
        category: FileCategory::Pdf,
        confidence: 90,
        evidence: vec!["extension .pdf matched local rule".to_string()],
        risk: FileRiskLevel::Low,
    }
}

#[test]
fn builds_preview_only_plan() {
    let root = "/tmp/example";
    let plan = DefaultPlanBuilder.build_plan(BuildPlanInput {
        task_id: "task-1".to_string(),
        root_path: root.to_string(),
        mode: OrganizationMode::ByCategory,
        classifications: vec![classified_pdf(root)],
    });

    assert_eq!(plan.summary.files_considered, 1);
    assert_eq!(plan.summary.folders_to_create, 1);
    assert_eq!(plan.summary.files_to_move, 1);
    assert!(plan.operations.iter().any(|operation| {
        matches!(&operation.kind, FileOperationKind::CreateFolder { path } if path == "/tmp/example/PDF")
    }));
    assert_eq!(plan.operations[1].reason, "classified as Pdf with confidence 0.90");
}

#[test]
fn desktop_mode_builds_archive_plan_without_coordinate_operations() {
    let root = "/tmp/Desktop";
    let plan = DefaultPlanBuilder.build_plan(BuildPlanInput {
        task_id: "desktop-task".to_string(),
        root_path: root.to_string(),
        mode: OrganizationMode::Desktop,
        classifications: vec![classified_pdf(root)],
    });

    assert_eq!(plan.mode, OrganizationMode::Desktop);
    assert!(plan.operations.iter().all(|operation| matches!(
        operation.kind,
        FileOperationKind::CreateFolder { .. } | FileOperationKind::MoveFile { .. }
    )));
    assert!(plan.operations.iter().any(|operation| {
        matches!(&operation.kind, FileOperationKind::CreateFolder { path } if path == "/tmp/Desktop/Desktop Archive/PDF")
    }));
    assert!(plan.operations.iter().any(|operation| {
        matches!(&operation.kind, FileOperationKind::MoveFile { destination, .. } if destination == "/tmp/Desktop/Desktop Archive/PDF/a.pdf")
    }));
}

#[test]
fn folders_are_sorted_and_files_in_place_do_not_move() {
    let root = "/tmp/sorted-example";
    let mut in_place = classified_pdf(root);
    in_place.file.path = format!("{root}/PDF/a.pdf");
    let mut image = classified_pdf(root);
    image.category = FileCategory::Images;
    image.file.file_name = "b.png".to_string();
    image.file.path = format!("{root}/b.png");
    let mut code = classified_pdf(root);
    code.category = FileCategory::Code;
    code.file.file_name = "c.rs".to_string();
    code.file.path = format!("{root}/c.rs");
    let plan = DefaultPlanBuilder.build_plan(BuildPlanInput {
        task_id: "t".to_string(),
        root_path: root.to_string(),
        mode: OrganizationMode::ByCategory,
        classifications: vec![in_place, image, code],
    });
    let folders: Vec<String> = plan
        .operations
        .iter()
        .filter_map(|op| match &op.kind {
            FileOperationKind::CreateFolder { path } => Some(path.clone()),
            _ => None,
        })
        .collect();
    assert_eq!(folders, vec![format!("{root}/Code"), format!("{root}/Images"), format!("{root}/PDF")]);
    assert_eq!(plan.summary.files_to_move, 2);
    assert_eq!(plan.summary.folders_to_create, 3);
    assert_eq!(plan.summary.files_to_rename, 0);
}

#[test]
fn confidence_is_written_with_two_decimals() {
    assert_eq!(two_decimals_of(96), "0.96");
    assert_eq!(two_decimals_of(5), "0.05");
    assert_eq!(two_decimals_of(100), "1.00");
}

fn chars(s: &str) -> Vec<char> {
    s.chars().collect()
}

fn text(v: Vec<char>) -> String {
    v.into_iter().collect()
}

#[test]
fn free_natural_destination_is_chosen() {
    let dest = chars("/tmp/Desktop/Desktop Archive/PDF/a.pdf");
    let source = chars("/tmp/Desktop/a.pdf");
    assert_eq!(text(choose_destination(&dest, &source, &vec![false])), "/tmp/Desktop/Desktop Archive/PDF/a.pdf");
}

#[test]
fn taken_destinations_get_the_first_free_number() {
    let dest = chars("/r/PDF/a.pdf");
    let source = chars("/r/a.pdf");
    assert_eq!(text(choose_destination(&dest, &source, &vec![true, false])), "/r/PDF/a (1).pdf");
    assert_eq!(text(choose_destination(&dest, &source, &vec![true, true, true, false])), "/r/PDF/a (3).pdf");
}

#[test]
fn the_source_itself_is_never_a_numbered_choice() {
    let dest = chars("/r/PDF/a.pdf");
    let source = chars("/r/PDF/a (1).pdf");
    assert_eq!(text(choose_destination(&dest, &source, &vec![true, false, false])), "/r/PDF/a (2).pdf");
    let same = chars("/r/PDF/a.pdf");
    assert_eq!(text(choose_destination(&dest, &same, &vec![true])), "/r/PDF/a.pdf");
}
