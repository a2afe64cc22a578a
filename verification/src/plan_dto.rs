//! Plans as the front end sees them, and back: rows with stable keys,
//! selection, editable targets and validation issues.

use vstd::prelude::*;
use crate::clock::{rfc3339_text, rfc3339_time, writes_readably, Timestamp};
use crate::ids::{uuid_parsed, uuid_text};
use crate::keys::{mode_key, mode_named, operation_type};
use crate::model::{
    kind_destination, kind_source, FileOperationKind, FileOperationPlan, OperationRowDto,
    OrganizationPlan, OrganizationPlanDto, PlanSummary, PlanSummaryDto, PlanValidation, UserApproval,
    UserApprovalDto, ValidationIssue, ValidationIssueDto,
};
use crate::path::file_name;
use crate::skill_engine::opt_view;
use std::collections::HashMap;

verus! {

broadcast use {crate::text::lemma_chars_deep_view, vstd::std_specs::hash::group_hash_axioms};

/// The RFC 3339 text of a time, as `chrono` writes it; empty for a time
/// that `chrono` cannot represent.
pub open spec fn time_text(t: Timestamp) -> Seq<char> {
    match rfc3339_text(t.seconds, t.nanos) {
        Some(s) => s,
        None => Seq::empty(),
    }
}

/// The text of a time reads back as the time, when the time is one that
/// RFC 3339 writes readably.
pub open spec fn time_reads_back(text: Seq<char>, t: Timestamp) -> bool {
    writes_readably(t) ==> rfc3339_time(text) == Ok::<(i64, u32), Seq<char>>(
        (t.seconds, t.nanos),
    )
}

/// The RFC 3339 text of a time.
pub fn time_text_of(t: Timestamp) -> (r: String)
    ensures
        r@ == time_text(t),
        time_reads_back(r@, t),
{
    match crate::clock::rfc3339_of(t) {
        Some(s) => s,
        None => String::new(),
    }
}

/// The name shown for a path: its file name, or the whole path.
pub open spec fn display_name(p: Seq<char>) -> Seq<char> {
    match file_name(p) {
        Some(n) => n,
        None => p,
    }
}

/// The name shown for a path.
pub fn display_name_of(p: &str) -> (r: String)
    ensures
        r@ == display_name(p@),
{
    match crate::path::file_name_of(&crate::text::chars_of(p)) {
        Some(n) => crate::text::string_of(&n),
        None => String::from_str(p),
    }
}

/// The text of an optional id.
pub open spec fn id_text_opt(id: Option<u128>) -> Option<Seq<char>> {
    match id {
        Some(v) => Some(uuid_text(v)),
        None => None,
    }
}

/// The text of an optional id reads back as the id.
pub open spec fn id_reads_back(text: Option<String>, id: Option<u128>) -> bool {
    match id {
        Some(v) => text is Some && uuid_parsed(text->0@) == Ok::<u128, Seq<char>>(v),
        None => true,
    }
}

/// The text of an optional id.
pub fn id_text_opt_of(id: Option<u128>) -> (r: Option<String>)
    ensures
        opt_view(r) == id_text_opt(id),
        id_reads_back(r, id),
{
    match id {
        Some(v) => Some(crate::ids::id_text(v)),
        None => None,
    }
}

/// A validation issue for the front end, as id text and message.
pub open spec fn issue_dto_view(i: ValidationIssueDto) -> (Option<Seq<char>>, Seq<char>) {
    (opt_view(i.operation_id), i.message@)
}

/// What the front end is shown of a validation issue.
pub open spec fn issue_shown(i: ValidationIssue) -> (Option<Seq<char>>, Seq<char>) {
    (id_text_opt(i.operation_id), i.message@)
}

/// Validation issues for the front end, as id texts and messages.
pub open spec fn issue_dtos_view(v: Seq<ValidationIssueDto>) -> Seq<(Option<Seq<char>>, Seq<char>)> {
    v.map_values(|i: ValidationIssueDto| issue_dto_view(i))
}

/// A validation issue for the front end.
pub fn validation_issue_to_dto(issue: &ValidationIssue) -> (r: ValidationIssueDto)
    ensures
        issue_dto_view(r) == issue_shown(*issue),
{
    ValidationIssueDto { operation_id: id_text_opt_of(issue.operation_id), message: issue.message.clone() }
}

/// The first `k` issues that belong to operation `id`, as shown, in order.
pub open spec fn issues_of_operation(issues: Seq<ValidationIssue>, id: u128, k: int) -> Seq<(Option<Seq<char>>, Seq<char>)>
    decreases k,
{
    if k <= 0 {
        Seq::empty()
    } else {
        issues_of_operation(issues, id, k - 1) + if issues[k - 1].operation_id == Some(id) {
            seq![issue_shown(issues[k - 1])]
        } else {
            Seq::empty()
        }
    }
}

/// The risk recorded for a file, if any.
pub open spec fn risk_for(risks: Map<u128, String>, file_id: u128) -> Option<Seq<char>> {
    if risks.contains_key(file_id) {
        Some(risks[file_id]@)
    } else {
        None
    }
}

/// The risk recorded for a file.
fn risk_for_of(risks: &HashMap<u128, String>, file_id: u128) -> (r: Option<String>)
    ensures
        opt_view(r) == risk_for(risks@, file_id),
{
    match risks.get(&file_id) {
        Some(v) => Some(v.clone()),
        None => None,
    }
}

/// The title of a row: what the operation does, in Chinese, and the name
/// of the path it acts on.
pub open spec fn row_title(k: FileOperationKind) -> Seq<char> {
    match k {
        FileOperationKind::CreateFolder { path } => "创建文件夹 "@ + display_name(path@),
        FileOperationKind::MoveFile { source, .. } => "移动 "@ + display_name(source@),
        FileOperationKind::RenameFile { source, .. } => "重命名 "@ + display_name(source@),
    }
}

/// `row` is the preview row of `op`: keys and paths as texts, the
/// operation's issues, blocked and high risk when it has any, otherwise
/// the risk recorded for its file or low; selected, with its target as the
/// editable target.
pub open spec fn is_row_of(
    row: OperationRowDto,
    op: FileOperationPlan,
    issues: Seq<ValidationIssue>,
    risks: Map<u128, String>,
) -> bool {
    let shown = issues_of_operation(issues, op.operation_id, issues.len() as int);
    &&& row.operation_id@ == uuid_text(op.operation_id)
    &&& row.operation_type@ == operation_type(op.kind)
    &&& row.title@ == row_title(op.kind)
    &&& opt_view(row.source) == kind_source(op.kind)
    &&& row.target@ == kind_destination(op.kind)
    &&& row.reason@ == op.reason@
    &&& row.risk@ == if shown.len() > 0 {
        "high"@
    } else {
        match op.file_id {
            Some(f) => match risk_for(risks, f) {
                Some(r) => r,
                None => "low"@,
            },
            None => "low"@,
        }
    }
    &&& row.selected
    &&& row.editable_target@ == kind_destination(op.kind)
    &&& issue_dtos_view(row.validation_issues@) == shown
    &&& row.conflict_status@ == if shown.len() > 0 {
        "blocked"@
    } else {
        "none"@
    }
    &&& opt_view(row.file_id) == id_text_opt(op.file_id)
    &&& uuid_parsed(row.operation_id@) == Ok::<u128, Seq<char>>(op.operation_id)
    &&& id_reads_back(row.file_id, op.file_id)
}

/// The preview row of one operation.
pub fn operation_to_row_dto(
    operation: &FileOperationPlan,
    validation: &PlanValidation,
    risk_by_file_id: &HashMap<u128, String>,
) -> (r: OperationRowDto)
    ensures
        is_row_of(r, *operation, validation.issues@, risk_by_file_id@),
{
    let ghost issues = validation.issues@;
    let id = operation.operation_id;
    let mut operation_issues: Vec<ValidationIssueDto> = Vec::new();
    let mut i: usize = 0;
    while i < validation.issues.len()
        invariant
            i <= issues.len(),
            issues == validation.issues@,
            issue_dtos_view(operation_issues@) == issues_of_operation(issues, id, i as int),
        decreases validation.issues.len() - i,
    {
        if validation.issues[i].operation_id == Some(id) {
            let d = validation_issue_to_dto(&validation.issues[i]);
            let ghost before = operation_issues@;
            operation_issues.push(d);
            assert(issue_dtos_view(operation_issues@) =~= issue_dtos_view(before).push(issue_dto_view(d)));
        }
        assert(issue_dtos_view(operation_issues@) =~= issues_of_operation(issues, id, i + 1));
        i = i + 1;
    }
    let (kind_key, title, source, target) = match &operation.kind {
        FileOperationKind::CreateFolder { path } => (
            "create_folder",
            String::from_str("创建文件夹 ").concat(display_name_of(path.as_str()).as_str()),
            None,
            path.clone(),
        ),
        FileOperationKind::MoveFile { source, destination } => (
            "move_file",
            String::from_str("移动 ").concat(display_name_of(source.as_str()).as_str()),
            Some(source.clone()),
            destination.clone(),
        ),
        FileOperationKind::RenameFile { source, destination } => (
            "rename_file",
            String::from_str("重命名 ").concat(display_name_of(source.as_str()).as_str()),
            Some(source.clone()),
            destination.clone(),
        ),
    };
    let blocked = operation_issues.len() > 0;
    proof {
        assert(issue_dtos_view(operation_issues@).len() == operation_issues@.len());
    }
    let risk = if blocked {
        String::from_str("high")
    } else {
        match operation.file_id {
            Some(f) => match risk_for_of(risk_by_file_id, f) {
                Some(r) => r,
                None => String::from_str("low"),
            },
            None => String::from_str("low"),
        }
    };
    let conflict_status = if blocked {
        String::from_str("blocked")
    } else {
        String::from_str("none")
    };
    let editable_target = target.clone();
    OperationRowDto {
        operation_id: crate::ids::id_text(id),
        operation_type: String::from_str(kind_key),
        title,
        source,
        target,
        reason: operation.reason.clone(),
        risk,
        selected: true,
        editable_target,
        validation_issues: operation_issues,
        conflict_status,
        file_id: id_text_opt_of(operation.file_id),
    }
}

/// The counts of a plan as the front end shows them.
pub open spec fn summary_dto_of(s: PlanSummary) -> PlanSummaryDto {
    PlanSummaryDto {
        files_considered: s.files_considered,
        folders_to_create: s.folders_to_create,
        files_to_move: s.files_to_move,
        files_to_rename: s.files_to_rename,
    }
}

/// `d` is the preview of `plan`: ids, keys and times as texts, one row per
/// operation in order, and the plan's counts.
pub open spec fn is_plan_dto_of(
    d: OrganizationPlanDto,
    plan: OrganizationPlan,
    issues: Seq<ValidationIssue>,
    risks: Map<u128, String>,
) -> bool {
    &&& d.plan_id@ == uuid_text(plan.plan_id)
    &&& d.task_id@ == plan.task_id@
    &&& d.root_path@ == plan.root_path@
    &&& d.mode@ == mode_key(plan.mode)
    &&& d.rows@.len() == plan.operations@.len()
    &&& forall|k: int| 0 <= k < d.rows@.len() ==> is_row_of(#[trigger] d.rows@[k], plan.operations@[k], issues, risks)
    &&& d.summary == summary_dto_of(plan.summary)
    &&& d.created_at@ == time_text(plan.created_at)
    &&& uuid_parsed(d.plan_id@) == Ok::<u128, Seq<char>>(plan.plan_id)
    &&& time_reads_back(d.created_at@, plan.created_at)
}

/// The preview of a plan with its validation and the risks recorded for
/// its files.
pub fn plan_to_dto(
    plan: &OrganizationPlan,
    validation: &PlanValidation,
    risk_by_file_id: &HashMap<u128, String>,
) -> (r: OrganizationPlanDto)
    ensures
        is_plan_dto_of(r, *plan, validation.issues@, risk_by_file_id@),
{
    let mut rows: Vec<OperationRowDto> = Vec::new();
    let mut i: usize = 0;
    while i < plan.operations.len()
        invariant
            i <= plan.operations@.len(),
            rows@.len() == i,
            forall|k: int| 0 <= k < i ==> is_row_of(#[trigger] rows@[k], plan.operations@[k], validation.issues@, risk_by_file_id@),
        decreases plan.operations.len() - i,
    {
        rows.push(operation_to_row_dto(&plan.operations[i], validation, risk_by_file_id));
        i = i + 1;
    }
    OrganizationPlanDto {
        plan_id: crate::ids::id_text(plan.plan_id),
        task_id: plan.task_id.clone(),
        root_path: plan.root_path.clone(),
        mode: String::from_str(crate::keys::mode_key_of(&plan.mode)),
        rows,
        summary: PlanSummaryDto {
            files_considered: plan.summary.files_considered,
            folders_to_create: plan.summary.folders_to_create,
            files_to_move: plan.summary.files_to_move,
            files_to_rename: plan.summary.files_to_rename,
        },
        created_at: time_text_of(plan.created_at),
    }
}

/// Which of the three kinds an operation is.
pub open spec fn kind_rank(k: FileOperationKind) -> int {
    match k {
        FileOperationKind::CreateFolder { .. } => 0,
        FileOperationKind::MoveFile { .. } => 1,
        FileOperationKind::RenameFile { .. } => 2,
    }
}

/// The number of operations of one kind.
pub open spec fn count_kind(ops: Seq<FileOperationPlan>, rank: int) -> nat
    decreases ops.len(),
{
    if ops.len() == 0 {
        0
    } else {
        count_kind(ops.drop_last(), rank) + if kind_rank(ops.last().kind) == rank {
            1nat
        } else {
            0nat
        }
    }
}

/// The number of operations of one kind is at most their number.
pub proof fn lemma_count_kind_bound(ops: Seq<FileOperationPlan>, rank: int)
    ensures
        count_kind(ops, rank) <= ops.len(),
    decreases ops.len(),
{
    if ops.len() > 0 {
        lemma_count_kind_bound(ops.drop_last(), rank);
    }
}

/// The counts of a plan with these operations.
pub open spec fn is_summary_of(s: PlanSummary, files_considered: usize, ops: Seq<FileOperationPlan>) -> bool {
    &&& s.files_considered == files_considered
    &&& s.folders_to_create == count_kind(ops, 0)
    &&& s.files_to_move == count_kind(ops, 1)
    &&& s.files_to_rename == count_kind(ops, 2)
}

/// The counts of a plan: files considered as given, and the operations of
/// each kind.
pub fn summarize_operations(files_considered: usize, operations: &Vec<FileOperationPlan>) -> (r: PlanSummary)
    ensures
        is_summary_of(r, files_considered, operations@),
{
    let mut folders: usize = 0;
    let mut moves: usize = 0;
    let mut renames: usize = 0;
    let mut i: usize = 0;
    while i < operations.len()
        invariant
            i <= operations@.len(),
            folders == count_kind(operations@.subrange(0, i as int), 0),
            moves == count_kind(operations@.subrange(0, i as int), 1),
            renames == count_kind(operations@.subrange(0, i as int), 2),
        decreases operations.len() - i,
    {
        let ghost pre = operations@.subrange(0, i + 1);
        assert(pre.drop_last() =~= operations@.subrange(0, i as int));
        proof {
            lemma_count_kind_bound(operations@.subrange(0, i as int), 0);
            lemma_count_kind_bound(operations@.subrange(0, i as int), 1);
            lemma_count_kind_bound(operations@.subrange(0, i as int), 2);
        }
        match &operations[i].kind {
            FileOperationKind::CreateFolder { .. } => {
                folders = folders + 1;
            },
            FileOperationKind::MoveFile { .. } => {
                moves = moves + 1;
            },
            FileOperationKind::RenameFile { .. } => {
                renames = renames + 1;
            },
        }
        i = i + 1;
    }
    assert(operations@.subrange(0, operations@.len() as int) =~= operations@);
    PlanSummary {
        files_considered,
        folders_to_create: folders,
        files_to_move: moves,
        files_to_rename: renames,
    }
}

/// The target of a row: its editable target, unless that is empty.
pub open spec fn row_target(row: OperationRowDto) -> Seq<char> {
    if row.editable_target@.len() == 0 {
        row.target@
    } else {
        row.editable_target@
    }
}

/// Why a row's key and source describe no operation, if they do not.
pub open spec fn row_kind_error(row: OperationRowDto) -> Option<Seq<char>> {
    let t = row.operation_type@;
    if t == "create_folder"@ {
        None
    } else if t == "move_file"@ {
        if row.source is None {
            Some("move_file row missing source"@)
        } else {
            None
        }
    } else if t == "rename_file"@ {
        if row.source is None {
            Some("rename_file row missing source"@)
        } else {
            None
        }
    } else {
        Some("unsupported operation_type: "@ + t)
    }
}

/// Why a row is not an operation, if it is not: its id, then its file id,
/// then its key and source.
pub open spec fn row_error(row: OperationRowDto) -> Option<Seq<char>> {
    match uuid_parsed(row.operation_id@) {
        Err(e) => Some("invalid operation_id: "@ + e),
        Ok(_) => match row.file_id {
            Some(f) => match uuid_parsed(f@) {
                Err(e) => Some("invalid file_id: "@ + e),
                Ok(_) => row_kind_error(row),
            },
            None => row_kind_error(row),
        },
    }
}

/// `op` is the operation a row describes.
pub open spec fn is_operation_of_row(op: FileOperationPlan, row: OperationRowDto) -> bool {
    &&& uuid_parsed(row.operation_id@) == Ok::<u128, Seq<char>>(op.operation_id)
    &&& match row.file_id {
        Some(f) => uuid_parsed(f@) is Ok && op.file_id == Some(uuid_parsed(f@)->Ok_0),
        None => op.file_id is None,
    }
    &&& crate::keys::is_kind_from_parts(op.kind, row.operation_type@, opt_view(row.source), row_target(row))
    &&& op.reason@ == row.reason@
}

/// The operation a row describes.
pub fn row_dto_to_operation(row: &OperationRowDto) -> (r: Result<FileOperationPlan, String>)
    ensures
        match row_error(*row) {
            Some(m) => r matches Err(e) && e@ == m,
            None => r matches Ok(op) && is_operation_of_row(op, *row),
        },
{
    let operation_id = match crate::ids::parse_id(row.operation_id.as_str()) {
        Ok(v) => v,
        Err(e) => {
            return Err(String::from_str("invalid operation_id: ").concat(e.as_str()));
        },
    };
    let file_id = match &row.file_id {
        Some(f) => match crate::ids::parse_id(f.as_str()) {
            Ok(v) => Some(v),
            Err(e) => {
                return Err(String::from_str("invalid file_id: ").concat(e.as_str()));
            },
        },
        None => None,
    };
    let target = if row.editable_target.as_str().unicode_len() == 0 {
        row.target.clone()
    } else {
        row.editable_target.clone()
    };
    let t = crate::text::chars_of(row.operation_type.as_str());
    let kind = if crate::text::text_is(&t, "create_folder") {
        FileOperationKind::CreateFolder { path: target }
    } else if crate::text::text_is(&t, "move_file") {
        match &row.source {
            Some(s) => FileOperationKind::MoveFile { source: s.clone(), destination: target },
            None => {
                return Err(String::from_str("move_file row missing source"));
            },
        }
    } else if crate::text::text_is(&t, "rename_file") {
        match &row.source {
            Some(s) => FileOperationKind::RenameFile { source: s.clone(), destination: target },
            None => {
                return Err(String::from_str("rename_file row missing source"));
            },
        }
    } else {
        return Err(String::from_str("unsupported operation_type: ").concat(row.operation_type.as_str()));
    };
    Ok(FileOperationPlan { operation_id, kind, reason: row.reason.clone(), file_id })
}

/// The selected rows among the first `k`, in order.
pub open spec fn selected_rows(rows: Seq<OperationRowDto>, k: int) -> Seq<OperationRowDto>
    decreases k,
{
    if k <= 0 {
        Seq::empty()
    } else {
        selected_rows(rows, k - 1) + if rows[k - 1].selected {
            seq![rows[k - 1]]
        } else {
            Seq::empty()
        }
    }
}

/// The first failure among the selected rows of the first `k`.
pub open spec fn selected_error(rows: Seq<OperationRowDto>, k: int) -> Option<Seq<char>>
    decreases k,
{
    if k <= 0 {
        None
    } else {
        match selected_error(rows, k - 1) {
            Some(m) => Some(m),
            None => if rows[k - 1].selected {
                row_error(rows[k - 1])
            } else {
                None
            },
        }
    }
}

/// `ops` are the operations of the selected rows, in order.
pub open spec fn are_operations_of(ops: Seq<FileOperationPlan>, rows: Seq<OperationRowDto>) -> bool {
    let sel = selected_rows(rows, rows.len() as int);
    &&& ops.len() == sel.len()
    &&& forall|k: int| 0 <= k < ops.len() ==> is_operation_of_row(#[trigger] ops[k], sel[k])
}

/// The operations of the selected rows, in order; the first failure if
/// one of them is not an operation.
pub fn operations_from_rows(rows: &Vec<OperationRowDto>) -> (r: Result<Vec<FileOperationPlan>, String>)
    ensures
        match selected_error(rows@, rows@.len() as int) {
            Some(m) => r matches Err(e) && e@ == m,
            None => r matches Ok(ops) && are_operations_of(ops@, rows@),
        },
{
    let mut ops: Vec<FileOperationPlan> = Vec::new();
    let mut i: usize = 0;
    while i < rows.len()
        invariant
            i <= rows@.len(),
            selected_error(rows@, i as int) is None,
            ops@.len() == selected_rows(rows@, i as int).len(),
            forall|k: int| 0 <= k < ops@.len() ==> is_operation_of_row(#[trigger] ops@[k], selected_rows(rows@, i as int)[k]),
        decreases rows.len() - i,
    {
        if rows[i].selected {
            match row_dto_to_operation(&rows[i]) {
                Ok(op) => {
                    ops.push(op);
                },
                Err(e) => {
                    proof {
                        lemma_selected_error_stays(rows@, i + 1, rows@.len() as int);
                    }
                    return Err(e);
                },
            }
        }
        proof {
            let a = selected_rows(rows@, i as int);
            let b = selected_rows(rows@, i + 1);
            assert(forall|k: int| 0 <= k < a.len() ==> b[k] == a[k]);
        }
        i = i + 1;
    }
    Ok(ops)
}

/// Once a selected row fails, later rows do not change the failure.
proof fn lemma_selected_error_stays(rows: Seq<OperationRowDto>, k: int, n: int)
    requires
        0 <= k <= n,
        selected_error(rows, k) is Some,
    ensures
        selected_error(rows, n) == selected_error(rows, k),
    decreases n - k,
{
    if k < n {
        lemma_selected_error_stays(rows, k + 1, n);
    }
}

/// Why a plan preview is not a plan, if it is not: its id, its mode, its
/// selected rows, then its creation time.
pub open spec fn plan_dto_error(d: OrganizationPlanDto) -> Option<Seq<char>> {
    match uuid_parsed(d.plan_id@) {
        Err(e) => Some("invalid plan_id: "@ + e),
        Ok(_) => match mode_named(d.mode@) {
            None => Some("unsupported organization mode: "@ + d.mode@),
            Some(_) => match selected_error(d.rows@, d.rows@.len() as int) {
                Some(m) => Some(m),
                None => match rfc3339_time(d.created_at@) {
                    Err(e) => Some("invalid plan created_at: "@ + e),
                    Ok(_) => None,
                },
            },
        },
    }
}

/// `plan` is the plan a preview describes: only its selected rows become
/// operations, and the counts are those of these operations.
pub open spec fn is_plan_of_dto(plan: OrganizationPlan, d: OrganizationPlanDto) -> bool {
    &&& uuid_parsed(d.plan_id@) == Ok::<u128, Seq<char>>(plan.plan_id)
    &&& plan.task_id@ == d.task_id@
    &&& plan.root_path@ == d.root_path@
    &&& mode_named(d.mode@) == Some(plan.mode)
    &&& are_operations_of(plan.operations@, d.rows@)
    &&& is_summary_of(plan.summary, d.summary.files_considered, plan.operations@)
    &&& rfc3339_time(d.created_at@) == Ok::<(i64, u32), Seq<char>>((plan.created_at.seconds, plan.created_at.nanos))
}

/// The plan that a preview describes, as the executor takes it.
pub fn plan_dto_to_core(plan: &OrganizationPlanDto) -> (r: Result<OrganizationPlan, String>)
    ensures
        match plan_dto_error(*plan) {
            Some(m) => r matches Err(e) && e@ == m,
            None => r matches Ok(p) && is_plan_of_dto(p, *plan),
        },
{
    let plan_id = match crate::ids::parse_id(plan.plan_id.as_str()) {
        Ok(v) => v,
        Err(e) => {
            return Err(String::from_str("invalid plan_id: ").concat(e.as_str()));
        },
    };
    let mode = match crate::keys::parse_mode(plan.mode.as_str()) {
        Ok(m) => m,
        Err(e) => {
            return Err(e);
        },
    };
    let operations = match operations_from_rows(&plan.rows) {
        Ok(ops) => ops,
        Err(e) => {
            return Err(e);
        },
    };
    let summary = summarize_operations(plan.summary.files_considered, &operations);
    let created_at = match crate::clock::parse_rfc3339(plan.created_at.as_str()) {
        Ok(t) => t,
        Err(e) => {
            return Err(String::from_str("invalid plan created_at: ").concat(e.as_str()));
        },
    };
    Ok(OrganizationPlan {
        plan_id,
        task_id: plan.task_id.clone(),
        root_path: plan.root_path.clone(),
        mode,
        operations,
        summary,
        created_at,
    })
}

/// Why an approval from the front end is not one, if it is not.
pub open spec fn approval_dto_error(a: UserApprovalDto) -> Option<Seq<char>> {
    match uuid_parsed(a.approved_plan_id@) {
        Err(e) => Some("invalid approved_plan_id: "@ + e),
        Ok(_) => match rfc3339_time(a.approved_at@) {
            Err(e) => Some("invalid approved_at: "@ + e),
            Ok(_) => None,
        },
    }
}

/// The approval that the front end sent.
pub fn approval_dto_to_core(approval: &UserApprovalDto) -> (r: Result<UserApproval, String>)
    ensures
        match approval_dto_error(*approval) {
            Some(m) => r matches Err(e) && e@ == m,
            None => r matches Ok(a) && a.approved == approval.approved && uuid_parsed(approval.approved_plan_id@)
                == Ok::<u128, Seq<char>>(a.approved_plan_id) && rfc3339_time(approval.approved_at@) == Ok::<
                (i64, u32),
                Seq<char>,
            >((a.approved_at.seconds, a.approved_at.nanos)) && a.actor == approval.actor,
        },
{
    let approved_plan_id = match crate::ids::parse_id(approval.approved_plan_id.as_str()) {
        Ok(v) => v,
        Err(e) => {
            return Err(String::from_str("invalid approved_plan_id: ").concat(e.as_str()));
        },
    };
    let approved_at = match crate::clock::parse_rfc3339(approval.approved_at.as_str()) {
        Ok(t) => t,
        Err(e) => {
            return Err(String::from_str("invalid approved_at: ").concat(e.as_str()));
        },
    };
    Ok(UserApproval {
        approved: approval.approved,
        approved_plan_id,
        approved_at,
        actor: crate::model::copy_opt_text(&approval.actor),
    })
}

/// The first row among the first `k` whose key is not one of the three
/// kinds, as a failure.
pub open spec fn unsupported_row(rows: Seq<OperationRowDto>, k: int) -> Option<Seq<char>>
    decreases k,
{
    if k <= 0 {
        None
    } else {
        match unsupported_row(rows, k - 1) {
            Some(m) => Some(m),
            None => {
                let t = rows[k - 1].operation_type@;
                if t == "create_folder"@ || t == "move_file"@ || t == "rename_file"@ {
                    None
                } else {
                    Some("unsupported operation_type: "@ + t)
                }
            },
        }
    }
}

/// Refuses a preview with a row of another kind than the three.
pub fn validate_supported_plan_rows(plan: &OrganizationPlanDto) -> (r: Result<(), String>)
    ensures
        match unsupported_row(plan.rows@, plan.rows@.len() as int) {
            Some(m) => r matches Err(e) && e@ == m,
            None => r is Ok,
        },
{
    let mut i: usize = 0;
    while i < plan.rows.len()
        invariant
            i <= plan.rows@.len(),
            unsupported_row(plan.rows@, i as int) is None,
        decreases plan.rows.len() - i,
    {
        let t = crate::text::chars_of(plan.rows[i].operation_type.as_str());
        if !(crate::text::text_is(&t, "create_folder") || crate::text::text_is(&t, "move_file")
            || crate::text::text_is(&t, "rename_file")) {
            proof {
                lemma_unsupported_row_stays(plan.rows@, i + 1, plan.rows@.len() as int);
            }
            return Err(String::from_str("unsupported operation_type: ").concat(plan.rows[i].operation_type.as_str()));
        }
        i = i + 1;
    }
    Ok(())
}

/// Once a row is of an unknown kind, later rows do not change the failure.
proof fn lemma_unsupported_row_stays(rows: Seq<OperationRowDto>, k: int, n: int)
    requires
        0 <= k <= n,
        unsupported_row(rows, k) is Some,
    ensures
        unsupported_row(rows, n) == unsupported_row(rows, k),
    decreases n - k,
{
    if k < n {
        lemma_unsupported_row_stays(rows, k + 1, n);
    }
}

/// A change of some rows of a preview.
#[derive(Debug, Clone, PartialEq, Eq)]
pub struct PlanPatchDto {
    pub operations: Vec<OperationPatchDto>,
}

/// A change of one row: whether it is selected, and its target.
#[derive(Debug, Clone, PartialEq, Eq)]
pub struct OperationPatchDto {
    pub operation_id: String,
    pub selected: Option<bool>,
    pub editable_target: Option<String>,
}

/// The first row among the first `k` with this operation id.
pub open spec fn first_row_with(rows: Seq<OperationRowDto>, id: Seq<char>, k: int) -> Option<int>
    decreases k,
{
    if k <= 0 {
        None
    } else {
        match first_row_with(rows, id, k - 1) {
            Some(j) => Some(j),
            None => if rows[k - 1].operation_id@ == id {
                Some(k - 1)
            } else {
                None
            },
        }
    }
}

/// The selection and target of each row.
pub open spec fn row_choices(rows: Seq<OperationRowDto>) -> Seq<(bool, Seq<char>)> {
    rows.map_values(|r: OperationRowDto| (r.selected, r.editable_target@))
}

/// The selection and target of each row after the first `k` changes, each
/// applied to the first row with its operation id; or the first change
/// that names no row.
pub open spec fn patched_choices(rows: Seq<OperationRowDto>, patches: Seq<OperationPatchDto>, k: int) -> Result<
    Seq<(bool, Seq<char>)>,
    Seq<char>,
>
    decreases k,
{
    if k <= 0 {
        Ok(row_choices(rows))
    } else {
        match patched_choices(rows, patches, k - 1) {
            Err(m) => Err(m),
            Ok(st) => {
                let p = patches[k - 1];
                match first_row_with(rows, p.operation_id@, rows.len() as int) {
                    None => Err("operation not found: "@ + p.operation_id@),
                    Some(j) => Ok(
                        st.update(
                            j,
                            (
                                match p.selected {
                                    Some(b) => b,
                                    None => st[j].0,
                                },
                                match p.editable_target {
                                    Some(t) => t@,
                                    None => st[j].1,
                                },
                            ),
                        ),
                    ),
                }
            },
        }
    }
}

/// Row `a` equals row `b` in all that a review does not change.
pub open spec fn same_row_identity(a: OperationRowDto, b: OperationRowDto) -> bool {
    &&& a.operation_id@ == b.operation_id@
    &&& a.operation_type@ == b.operation_type@
    &&& a.title@ == b.title@
    &&& opt_view(a.source) == opt_view(b.source)
    &&& a.target@ == b.target@
    &&& a.reason@ == b.reason@
    &&& opt_view(a.file_id) == opt_view(b.file_id)
}

/// The first row with an operation id.
fn first_row_with_of(rows: &Vec<OperationRowDto>, id: &String) -> (r: Option<usize>)
    ensures
        match r {
            Some(j) => first_row_with(rows@, id@, rows@.len() as int) == Some(j as int),
            None => first_row_with(rows@, id@, rows@.len() as int) is None,
        },
{
    let mut i: usize = 0;
    while i < rows.len()
        invariant
            i <= rows@.len(),
            first_row_with(rows@, id@, i as int) is None,
        decreases rows.len() - i,
    {
        if rows[i].operation_id == *id {
            assert(first_row_with(rows@, id@, i + 1) == Some(i as int));
            proof {
                lemma_first_row_stays(rows@, id@, i + 1, rows@.len() as int);
            }
            return Some(i);
        }
        i = i + 1;
    }
    None
}

/// The first row with an id is one of the rows looked at.
proof fn lemma_first_row_range(rows: Seq<OperationRowDto>, id: Seq<char>, k: int)
    ensures
        match first_row_with(rows, id, k) {
            Some(j) => 0 <= j < k && rows[j].operation_id@ == id,
            None => true,
        },
    decreases k,
{
    if k > 0 {
        lemma_first_row_range(rows, id, k - 1);
    }
}

/// Once a row with the id is found, later rows do not change it.
proof fn lemma_first_row_stays(rows: Seq<OperationRowDto>, id: Seq<char>, k: int, n: int)
    requires
        0 <= k <= n,
        first_row_with(rows, id, k) is Some,
    ensures
        first_row_with(rows, id, n) == first_row_with(rows, id, k),
    decreases n - k,
{
    if k < n {
        lemma_first_row_stays(rows, id, k + 1, n);
    }
}

/// `after` is `before` with the rows' selections and targets set as in
/// `choices`, all else kept.
pub open spec fn is_patched(after: OrganizationPlanDto, before: OrganizationPlanDto, choices: Seq<(bool, Seq<char>)>) -> bool {
    &&& after.plan_id == before.plan_id
    &&& after.task_id == before.task_id
    &&& after.root_path == before.root_path
    &&& after.mode == before.mode
    &&& after.summary == before.summary
    &&& after.created_at == before.created_at
    &&& after.rows@.len() == before.rows@.len()
    &&& forall|k: int| 0 <= k < after.rows@.len() ==> {
        &&& same_row_identity(#[trigger] after.rows@[k], before.rows@[k])
        &&& after.rows@[k].risk == before.rows@[k].risk
        &&& after.rows@[k].conflict_status == before.rows@[k].conflict_status
        &&& after.rows@[k].validation_issues == before.rows@[k].validation_issues
        &&& after.rows@[k].selected == choices[k].0
        &&& after.rows@[k].editable_target@ == choices[k].1
    }
}

/// Applies the user's changes to a preview: rows of unknown kinds are
/// refused, and each change goes to the first row with its operation id;
/// a change that names no row is refused.
pub fn apply_plan_patch(plan: OrganizationPlanDto, patch: &PlanPatchDto) -> (r: Result<OrganizationPlanDto, String>)
    ensures
        match unsupported_row(plan.rows@, plan.rows@.len() as int) {
            Some(m) => r matches Err(e) && e@ == m,
            None => match patched_choices(plan.rows@, patch.operations@, patch.operations@.len() as int) {
                Err(m) => r matches Err(e) && e@ == m,
                Ok(st) => r matches Ok(p) && is_patched(p, plan, st),
            },
        },
{
    match validate_supported_plan_rows(&plan) {
        Ok(()) => {},
        Err(e) => {
            return Err(e);
        },
    }
    let ghost rows0 = plan.rows@;
    let n = plan.rows.len();
    let mut selected: Vec<bool> = Vec::new();
    let mut targets: Vec<String> = Vec::new();
    let mut i: usize = 0;
    while i < n
        invariant
            i <= n,
            n == rows0.len(),
            rows0 == plan.rows@,
            selected@.len() == i,
            targets@.len() == i,
            forall|k: int| 0 <= k < i ==> #[trigger] selected@[k] == rows0[k].selected,
            forall|k: int| 0 <= k < i ==> #[trigger] targets@[k]@ == rows0[k].editable_target@,
        decreases n - i,
    {
        selected.push(plan.rows[i].selected);
        targets.push(plan.rows[i].editable_target.clone());
        i = i + 1;
    }
    let ghost ops = patch.operations@;
    let mut p: usize = 0;
    while p < patch.operations.len()
        invariant
            p <= ops.len(),
            ops == patch.operations@,
            unsupported_row(rows0, n as int) is None,
            n == rows0.len(),
            rows0 == plan.rows@,
            selected@.len() == n,
            targets@.len() == n,
            patched_choices(rows0, ops, p as int) is Ok,
            forall|k: int| 0 <= k < n ==> (#[trigger] patched_choices(rows0, ops, p as int)->Ok_0[k]) == (
                selected@[k],
                targets@[k]@,
            ),
            patched_choices(rows0, ops, p as int)->Ok_0.len() == n,
        decreases patch.operations.len() - p,
    {
        let change = &patch.operations[p];
        match first_row_with_of(&plan.rows, &change.operation_id) {
            None => {
                proof {
                    lemma_patch_error_stays(rows0, ops, p + 1, ops.len() as int);
                }
                return Err(String::from_str("operation not found: ").concat(change.operation_id.as_str()));
            },
            Some(j) => {
                proof {
                    lemma_first_row_range(rows0, change.operation_id@, n as int);
                }
                match change.selected {
                    Some(b) => {
                        selected.set(j, b);
                    },
                    None => {},
                }
                match &change.editable_target {
                    Some(t) => {
                        targets.set(j, t.clone());
                    },
                    None => {},
                }
                proof {
                    let st = patched_choices(rows0, ops, p as int)->Ok_0;
                    let st2 = patched_choices(rows0, ops, p + 1)->Ok_0;
                    assert forall|k: int| 0 <= k < n implies (#[trigger] st2[k]) == (selected@[k], targets@[k]@) by {
                        if k != j {
                            assert(st2[k] == st[k]);
                        }
                    }
                }
            },
        }
        p = p + 1;
    }
    let ghost choices = patched_choices(rows0, ops, ops.len() as int)->Ok_0;
    let mut old_rows: Vec<OperationRowDto> = Vec::new();
    let mut plan = plan;
    std::mem::swap(&mut old_rows, &mut plan.rows);
    let mut rows: Vec<OperationRowDto> = Vec::new();
    let mut i: usize = 0;
    while i < n
        invariant
            i <= n,
            n == rows0.len(),
            old_rows@ == rows0.subrange(i as int, n as int),
            selected@.len() == n,
            targets@.len() == n,
            choices.len() == n,
            forall|k: int| 0 <= k < n ==> (#[trigger] choices[k]) == (selected@[k], targets@[k]@),
            rows@.len() == i,
            forall|k: int| 0 <= k < i ==> {
                &&& same_row_identity(#[trigger] rows@[k], rows0[k])
                &&& rows@[k].risk == rows0[k].risk
                &&& rows@[k].conflict_status == rows0[k].conflict_status
                &&& rows@[k].validation_issues == rows0[k].validation_issues
                &&& rows@[k].selected == choices[k].0
                &&& rows@[k].editable_target@ == choices[k].1
            },
        decreases n - i,
    {
        let row = old_rows.remove(0);
        assert(row == rows0[i as int]);
        let new_row = OperationRowDto {
            operation_id: row.operation_id,
            operation_type: row.operation_type,
            title: row.title,
            source: row.source,
            target: row.target,
            reason: row.reason,
            risk: row.risk,
            selected: selected[i],
            editable_target: targets[i].clone(),
            validation_issues: row.validation_issues,
            conflict_status: row.conflict_status,
            file_id: row.file_id,
        };
        rows.push(new_row);
        assert(old_rows@ =~= rows0.subrange(i + 1, n as int));
        i = i + 1;
    }
    plan.rows = rows;
    Ok(plan)
}

/// Once a change names no row, later changes do not change the failure.
proof fn lemma_patch_error_stays(rows: Seq<OperationRowDto>, patches: Seq<OperationPatchDto>, k: int, n: int)
    requires
        0 <= k <= n,
        patched_choices(rows, patches, k) is Err,
    ensures
        patched_choices(rows, patches, n) == patched_choices(rows, patches, k),
    decreases n - k,
{
    if k < n {
        lemma_patch_error_stays(rows, patches, k + 1, n);
    }
}

/// The first `k` issues of the operation whose id text is `id`, as shown.
pub open spec fn issues_with_id_text(issues: Seq<ValidationIssue>, id: Seq<char>, k: int) -> Seq<
    (Option<Seq<char>>, Seq<char>),
>
    decreases k,
{
    if k <= 0 {
        Seq::empty()
    } else {
        issues_with_id_text(issues, id, k - 1) + match issues[k - 1].operation_id {
            Some(v) => if uuid_text(v) == id {
                seq![issue_shown(issues[k - 1])]
            } else {
                Seq::empty()
            },
            None => Seq::empty(),
        }
    }
}

/// Row `k` receives its operation's issues: it is selected, and no earlier
/// selected row has its operation id.
pub open spec fn receives_issues(rows: Seq<OperationRowDto>, k: int) -> bool {
    rows[k].selected && forall|j: int| 0 <= j < k ==> !(#[trigger] rows[j].selected && rows[j].operation_id@ == rows[k].operation_id@)
}

/// The issues shown on row `k`.
pub open spec fn row_issues(rows: Seq<OperationRowDto>, issues: Seq<ValidationIssue>, k: int) -> Seq<
    (Option<Seq<char>>, Seq<char>),
> {
    if receives_issues(rows, k) {
        issues_with_id_text(issues, rows[k].operation_id@, issues.len() as int)
    } else {
        Seq::empty()
    }
}

/// `after` is `before` with each row showing its issues: blocked and high
/// risk when it has any, otherwise unblocked with its risk kept.
pub open spec fn is_reviewed(after: OrganizationPlanDto, before: OrganizationPlanDto, issues: Seq<ValidationIssue>) -> bool {
    &&& after.plan_id == before.plan_id
    &&& after.task_id == before.task_id
    &&& after.root_path == before.root_path
    &&& after.mode == before.mode
    &&& after.summary == before.summary
    &&& after.created_at == before.created_at
    &&& after.rows@.len() == before.rows@.len()
    &&& forall|k: int| 0 <= k < after.rows@.len() ==> {
        let shown = row_issues(before.rows@, issues, k);
        &&& same_row_identity(#[trigger] after.rows@[k], before.rows@[k])
        &&& after.rows@[k].selected == before.rows@[k].selected
        &&& after.rows@[k].editable_target == before.rows@[k].editable_target
        &&& issue_dtos_view(after.rows@[k].validation_issues@) == shown
        &&& after.rows@[k].conflict_status@ == if shown.len() > 0 {
            "blocked"@
        } else {
            "none"@
        }
        &&& after.rows@[k].risk@ == if shown.len() > 0 {
            "high"@
        } else {
            before.rows@[k].risk@
        }
    }
}

/// Shows a validation on a preview: each selected row gets the issues of
/// its operation (the first such row, when several share an id), is
/// blocked and of high risk when there are any; other rows show none.
pub fn apply_validation_to_plan_dto(plan: &mut OrganizationPlanDto, validation: &PlanValidation)
    ensures
        is_reviewed(*final(plan), *old(plan), validation.issues@),
{
    let ghost before = *plan;
    let ghost issues = validation.issues@;
    let mut texts: Vec<Option<String>> = Vec::new();
    let mut i: usize = 0;
    while i < validation.issues.len()
        invariant
            i <= issues.len(),
            issues == validation.issues@,
            texts@.len() == i,
            forall|k: int| 0 <= k < i ==> opt_view(#[trigger] texts@[k]) == id_text_opt(issues[k].operation_id),
        decreases validation.issues.len() - i,
    {
        texts.push(id_text_opt_of(validation.issues[i].operation_id));
        i = i + 1;
    }
    let n = plan.rows.len();
    let mut ids: Vec<(bool, String)> = Vec::new();
    let mut i: usize = 0;
    while i < n
        invariant
            i <= n,
            n == before.rows@.len(),
            before == *plan,
            ids@.len() == i,
            forall|k: int| 0 <= k < i ==> (#[trigger] ids@[k]).0 == before.rows@[k].selected && ids@[k].1@
                == before.rows@[k].operation_id@,
        decreases n - i,
    {
        ids.push((plan.rows[i].selected, plan.rows[i].operation_id.clone()));
        i = i + 1;
    }
    let mut old_rows: Vec<OperationRowDto> = Vec::new();
    std::mem::swap(&mut old_rows, &mut plan.rows);
    let mut rows: Vec<OperationRowDto> = Vec::new();
    let mut i: usize = 0;
    while i < n
        invariant
            i <= n,
            n == before.rows@.len(),
            issues == validation.issues@,
            texts@.len() == issues.len(),
            forall|k: int| 0 <= k < issues.len() ==> opt_view(#[trigger] texts@[k]) == id_text_opt(issues[k].operation_id),
            ids@.len() == n,
            forall|k: int| 0 <= k < n ==> (#[trigger] ids@[k]).0 == before.rows@[k].selected && ids@[k].1@
                == before.rows@[k].operation_id@,
            old_rows@ == before.rows@.subrange(i as int, n as int),
            rows@.len() == i,
            forall|k: int| 0 <= k < i ==> {
                let shown = row_issues(before.rows@, issues, k);
                &&& same_row_identity(#[trigger] rows@[k], before.rows@[k])
                &&& rows@[k].selected == before.rows@[k].selected
                &&& rows@[k].editable_target == before.rows@[k].editable_target
                &&& issue_dtos_view(rows@[k].validation_issues@) == shown
                &&& rows@[k].conflict_status@ == if shown.len() > 0 {
                    "blocked"@
                } else {
                    "none"@
                }
                &&& rows@[k].risk@ == if shown.len() > 0 {
                    "high"@
                } else {
                    before.rows@[k].risk@
                }
            },
        decreases n - i,
    {
        let row = old_rows.remove(0);
        assert(row == before.rows@[i as int]);
        let mut receives = row.selected;
        let mut j: usize = 0;
        while j < i
            invariant
                j <= i < n,
                ids@.len() == n,
                forall|k: int| 0 <= k < n ==> (#[trigger] ids@[k]).0 == before.rows@[k].selected && ids@[k].1@
                    == before.rows@[k].operation_id@,
                row == before.rows@[i as int],
                receives == (row.selected && forall|t: int| 0 <= t < j ==> !(#[trigger] before.rows@[t].selected
                    && before.rows@[t].operation_id@ == row.operation_id@)),
            decreases i - j,
        {
            assert(ids@[j as int].0 == before.rows@[j as int].selected);
            if ids[j].0 && ids[j].1 == row.operation_id {
                receives = false;
            }
            j = j + 1;
        }
        assert(receives == receives_issues(before.rows@, i as int));
        let mut found: Vec<ValidationIssueDto> = Vec::new();
        if receives {
            let mut t: usize = 0;
            while t < validation.issues.len()
                invariant
                    t <= issues.len(),
                    issues == validation.issues@,
                    texts@.len() == issues.len(),
                    forall|k: int| 0 <= k < issues.len() ==> opt_view(#[trigger] texts@[k]) == id_text_opt(issues[k].operation_id),
                    issue_dtos_view(found@) == issues_with_id_text(issues, row.operation_id@, t as int),
                decreases validation.issues.len() - t,
            {
                assert(opt_view(texts@[t as int]) == id_text_opt(issues[t as int].operation_id));
                let matches = match &texts[t] {
                    Some(x) => *x == row.operation_id,
                    None => false,
                };
                if matches {
                    let d = validation_issue_to_dto(&validation.issues[t]);
                    let ghost pre = found@;
                    found.push(d);
                    assert(issue_dtos_view(found@) =~= issue_dtos_view(pre).push(issue_dto_view(d)));
                }
                assert(issue_dtos_view(found@) =~= issues_with_id_text(issues, row.operation_id@, t + 1));
                t = t + 1;
            }
        } else {
            assert(issue_dtos_view(found@) =~= Seq::<(Option<Seq<char>>, Seq<char>)>::empty());
        }
        let blocked = found.len() > 0;
        proof {
            assert(issue_dtos_view(found@).len() == found@.len());
        }
        let new_row = OperationRowDto {
            operation_id: row.operation_id,
            operation_type: row.operation_type,
            title: row.title,
            source: row.source,
            target: row.target,
            reason: row.reason,
            risk: if blocked {
                String::from_str("high")
            } else {
                row.risk
            },
            selected: row.selected,
            editable_target: row.editable_target,
            validation_issues: found,
            conflict_status: if blocked {
                String::from_str("blocked")
            } else {
                String::from_str("none")
            },
            file_id: row.file_id,
        };
        rows.push(new_row);
        assert(old_rows@ =~= before.rows@.subrange(i + 1, n as int));
        i = i + 1;
    }
    plan.rows = rows;
}

/// The counts of a preview: files considered as before, and the
/// operations of its selected rows by kind; the first failure of a
/// selected row otherwise.
pub fn summarize_plan_dto(plan: &OrganizationPlanDto) -> (r: Result<PlanSummaryDto, String>)
    ensures
        match selected_error(plan.rows@, plan.rows@.len() as int) {
            Some(m) => r matches Err(e) && e@ == m,
            None => r matches Ok(s) && exists|ops: Seq<FileOperationPlan>| are_operations_of(ops, plan.rows@) && {
                &&& s.files_considered == plan.summary.files_considered
                &&& s.folders_to_create == count_kind(ops, 0)
                &&& s.files_to_move == count_kind(ops, 1)
                &&& s.files_to_rename == count_kind(ops, 2)
            },
        },
{
    let operations = match operations_from_rows(&plan.rows) {
        Ok(ops) => ops,
        Err(e) => {
            return Err(e);
        },
    };
    let summary = summarize_operations(plan.summary.files_considered, &operations);
    let r = PlanSummaryDto {
        files_considered: summary.files_considered,
        folders_to_create: summary.folders_to_create,
        files_to_move: summary.files_to_move,
        files_to_rename: summary.files_to_rename,
    };
    assert(are_operations_of(operations@, plan.rows@));
    Ok(r)
}

} // verus!
