//! The shared domain model: files, classifications, plans, approvals,
//! execution batches, rollback records and habit rules ("skills").
//! Identifiers are UUIDs held as their 128-bit value; paths are texts.

use vstd::prelude::*;
use crate::clock::Timestamp;

verus! {

/// Metadata of one scanned file; never its contents.
#[derive(Debug, PartialEq, Eq)]
pub struct FileItem {
    pub id: u128,
    pub root: String,
    pub path: String,
    pub relative_path: String,
    pub file_name: String,
    pub extension: Option<String>,
    pub size_bytes: u64,
    pub created_at: Option<Timestamp>,
    pub modified_at: Option<Timestamp>,
    pub accessed_at: Option<Timestamp>,
    pub is_hidden: bool,
    pub is_symlink: bool,
    pub mime_type: Option<String>,
    pub path_hash: String,
    pub indexed_at: Timestamp,
}

/// A copy of an optional text.
pub fn copy_opt_text(s: &Option<String>) -> (r: Option<String>)
    ensures
        r == *s,
{
    match s {
        Some(t) => Some(t.clone()),
        None => None,
    }
}

impl Clone for FileItem {
    fn clone(&self) -> (r: Self)
        ensures
            r == *self,
    {
        FileItem {
            id: self.id,
            root: self.root.clone(),
            path: self.path.clone(),
            relative_path: self.relative_path.clone(),
            file_name: self.file_name.clone(),
            extension: copy_opt_text(&self.extension),
            size_bytes: self.size_bytes,
            created_at: self.created_at,
            modified_at: self.modified_at,
            accessed_at: self.accessed_at,
            is_hidden: self.is_hidden,
            is_symlink: self.is_symlink,
            mime_type: copy_opt_text(&self.mime_type),
            path_hash: self.path_hash.clone(),
            indexed_at: self.indexed_at,
        }
    }
}

/// What a scan should visit.
#[derive(Debug, Clone, PartialEq, Eq)]
pub struct ScanOptions {
    pub root: String,
    pub recursive: bool,
    pub max_depth: Option<usize>,
    pub include_hidden: bool,
    pub follow_symlinks: bool,
}

/// Options of a classifier.
#[derive(Debug, Clone, Copy, Default, PartialEq, Eq)]
pub struct ClassifierOptions {
    pub prefer_extension_rules: bool,
}

/// The category a file is sorted into.
#[derive(Debug, Clone, Copy, PartialEq, Eq, Structural)]
pub enum FileCategory {
    Documents,
    Images,
    Videos,
    Audio,
    Archives,
    Installers,
    Code,
    Spreadsheets,
    Presentations,
    Pdf,
    Other,
}

/// The folder name of a category.
pub open spec fn category_folder(c: FileCategory) -> Seq<char> {
    match c {
        FileCategory::Documents => "Documents"@,
        FileCategory::Images => "Images"@,
        FileCategory::Videos => "Videos"@,
        FileCategory::Audio => "Audio"@,
        FileCategory::Archives => "Archives"@,
        FileCategory::Installers => "Installers"@,
        FileCategory::Code => "Code"@,
        FileCategory::Spreadsheets => "Spreadsheets"@,
        FileCategory::Presentations => "Presentations"@,
        FileCategory::Pdf => "PDF"@,
        FileCategory::Other => "Other"@,
    }
}

impl Default for FileCategory {
    fn default() -> (r: Self)
        ensures
            r == FileCategory::Other,
    {
        FileCategory::Other
    }
}

impl FileCategory {
    /// The name of the folder that holds files of this category.
    pub fn folder_name(&self) -> (r: &'static str)
        ensures
            r@ == category_folder(*self),
    {
        match self {
            FileCategory::Documents => "Documents",
            FileCategory::Images => "Images",
            FileCategory::Videos => "Videos",
            FileCategory::Audio => "Audio",
            FileCategory::Archives => "Archives",
            FileCategory::Installers => "Installers",
            FileCategory::Code => "Code",
            FileCategory::Spreadsheets => "Spreadsheets",
            FileCategory::Presentations => "Presentations",
            FileCategory::Pdf => "PDF",
            FileCategory::Other => "Other",
        }
    }
}


/// A copy of a list of texts.
pub fn copy_texts(v: &Vec<String>) -> (r: Vec<String>)
    ensures
        r@ == v@,
{
    let r = v.clone();
    assert(r@ =~= v@);
    r
}

/// How sure a classification may be judged; other levels than the lowest
/// mark files that need a second look.
#[derive(Debug, Clone, Copy, PartialEq, Eq, Structural)]
pub enum FileRiskLevel {
    Low,
    Medium,
    High,
}

/// The field of a file that a rule condition reads.
#[derive(Debug, Clone, Copy, PartialEq, Eq, Structural)]
pub enum RuleField {
    FileName,
    Extension,
    MimeType,
    RelativePath,
}

/// How a rule condition compares the field with its value.
#[derive(Debug, Clone, Copy, PartialEq, Eq, Structural)]
pub enum RuleOperator {
    Equals,
    Contains,
    StartsWith,
    EndsWith,
    In,
}

/// The value of a rule condition: a text, a list of texts (entries that
/// are not texts never match and are not kept), or any other value.
#[derive(Debug, Clone, PartialEq, Eq)]
pub enum RuleValue {
    Text(String),
    List(Vec<String>),
    Other,
}

/// One condition of a classification rule.
#[derive(Debug, Clone, PartialEq, Eq)]
pub struct RuleCondition {
    pub field: RuleField,
    pub operator: RuleOperator,
    pub value: RuleValue,
}

/// A user rule: when every condition holds, files go to the target category.
#[derive(Debug, Clone, PartialEq, Eq)]
pub struct ClassificationRule {
    pub rule_id: String,
    pub name: String,
    pub priority: i32,
    pub enabled: bool,
    pub conditions: Vec<RuleCondition>,
    pub target_category: FileCategory,
}

/// The matcher of a skill and what it suggests.
#[derive(Debug, Clone, Default, PartialEq, Eq)]
pub struct SkillRule {
    pub extension: Option<String>,
    pub file_name_contains: Option<String>,
    pub mime_prefix: Option<String>,
    pub category: FileCategory,
    pub destination_hint: Option<String>,
}

/// A long-lived habit rule that the user can see and disable.
#[derive(Debug, Clone, PartialEq, Eq)]
pub struct Skill {
    pub id: u128,
    pub name: String,
    pub enabled: bool,
    pub rule: SkillRule,
    pub created_at: Timestamp,
}

/// What a classifier may consult besides the file itself.
#[derive(Debug, Clone, Default, PartialEq, Eq)]
pub struct ClassificationContext {
    pub root_path: String,
    pub existing_folders: Vec<String>,
    pub skills: Vec<Skill>,
    pub rules: Vec<ClassificationRule>,
    pub use_ai: bool,
}

/// The outcome of classifying one file. `confidence` is in hundredths
/// (96 stands for 0.96).
#[derive(Debug, PartialEq, Eq)]
pub struct ClassificationResult {
    pub file: FileItem,
    pub category: FileCategory,
    pub confidence: u32,
    pub evidence: Vec<String>,
    pub risk: FileRiskLevel,
}

/// How a plan arranges files.
#[derive(Debug, Clone, Copy, PartialEq, Eq, Structural)]
pub enum OrganizationMode {
    ByCategory,
    ByExtension,
    Desktop,
}

/// What a plan is built from.
#[derive(Debug, PartialEq, Eq)]
pub struct BuildPlanInput {
    pub task_id: String,
    pub root_path: String,
    pub mode: OrganizationMode,
    pub classifications: Vec<ClassificationResult>,
}

/// A request to generate a plan, as the front end sends it.
#[derive(Debug, Clone, PartialEq, Eq)]
pub struct GeneratePlanRequestDto {
    pub task_id: String,
    pub root_path: String,
    pub mode: String,
    pub classifications: Option<Vec<ClassificationInputDto>>,
}

/// A classification as the front end sends it; `confidence` in hundredths.
#[derive(Debug, Clone, PartialEq, Eq)]
pub struct ClassificationInputDto {
    pub file_id: String,
    pub category: String,
    pub category_key: Option<String>,
    pub confidence: u32,
    pub evidence: Vec<String>,
    pub risk: String,
}

/// A file operation of a plan.
#[derive(Debug, PartialEq, Eq)]
pub enum FileOperationKind {
    CreateFolder { path: String },
    MoveFile { source: String, destination: String },
    RenameFile { source: String, destination: String },
}

impl Clone for FileOperationKind {
    fn clone(&self) -> (r: Self)
        ensures
            r == *self,
    {
        match self {
            FileOperationKind::CreateFolder { path } => FileOperationKind::CreateFolder {
                path: path.clone(),
            },
            FileOperationKind::MoveFile { source, destination } => FileOperationKind::MoveFile {
                source: source.clone(),
                destination: destination.clone(),
            },
            FileOperationKind::RenameFile { source, destination } => FileOperationKind::RenameFile {
                source: source.clone(),
                destination: destination.clone(),
            },
        }
    }
}

/// The path an operation reads from, if any.
pub open spec fn kind_source(k: FileOperationKind) -> Option<Seq<char>> {
    match k {
        FileOperationKind::CreateFolder { .. } => None,
        FileOperationKind::MoveFile { source, .. } => Some(source@),
        FileOperationKind::RenameFile { source, .. } => Some(source@),
    }
}

/// The path an operation creates or writes to.
pub open spec fn kind_destination(k: FileOperationKind) -> Seq<char> {
    match k {
        FileOperationKind::CreateFolder { path } => path@,
        FileOperationKind::MoveFile { destination, .. } => destination@,
        FileOperationKind::RenameFile { destination, .. } => destination@,
    }
}

impl FileOperationKind {
    /// The path the operation reads from, if any.
    pub fn source(&self) -> (r: Option<&String>)
        ensures
            match r {
                Some(s) => kind_source(*self) == Some(s@),
                None => kind_source(*self) is None,
            },
    {
        match self {
            FileOperationKind::CreateFolder { .. } => None,
            FileOperationKind::MoveFile { source, .. } => Some(source),
            FileOperationKind::RenameFile { source, .. } => Some(source),
        }
    }

    /// The path the operation creates or writes to.
    pub fn destination(&self) -> (r: &String)
        ensures
            r@ == kind_destination(*self),
    {
        match self {
            FileOperationKind::CreateFolder { path } => path,
            FileOperationKind::MoveFile { destination, .. } => destination,
            FileOperationKind::RenameFile { destination, .. } => destination,
        }
    }
}

/// One planned operation.
#[derive(Debug, PartialEq, Eq)]
pub struct FileOperationPlan {
    pub operation_id: u128,
    pub kind: FileOperationKind,
    pub reason: String,
    pub file_id: Option<u128>,
}

impl Clone for FileOperationPlan {
    fn clone(&self) -> (r: Self)
        ensures
            r == *self,
    {
        FileOperationPlan {
            operation_id: self.operation_id,
            kind: self.kind.clone(),
            reason: self.reason.clone(),
            file_id: self.file_id,
        }
    }
}

/// Counts of a plan.
#[derive(Debug, Clone, Copy, PartialEq, Eq, Structural)]
pub struct PlanSummary {
    pub files_considered: usize,
    pub folders_to_create: usize,
    pub files_to_move: usize,
    pub files_to_rename: usize,
}

/// A plan: the only carrier of changes the executor may make.
#[derive(Debug, PartialEq, Eq)]
pub struct OrganizationPlan {
    pub plan_id: u128,
    pub task_id: String,
    pub root_path: String,
    pub mode: OrganizationMode,
    pub operations: Vec<FileOperationPlan>,
    pub summary: PlanSummary,
    pub created_at: Timestamp,
}

/// A plan as the front end shows it.
#[derive(Debug, Clone, PartialEq, Eq)]
pub struct OrganizationPlanDto {
    pub plan_id: String,
    pub task_id: String,
    pub root_path: String,
    pub mode: String,
    pub rows: Vec<OperationRowDto>,
    pub summary: PlanSummaryDto,
    pub created_at: String,
}

/// Counts of a plan as the front end shows them.
#[derive(Debug, Clone, Copy, PartialEq, Eq, Structural)]
pub struct PlanSummaryDto {
    pub files_considered: usize,
    pub folders_to_create: usize,
    pub files_to_move: usize,
    pub files_to_rename: usize,
}

/// One row of a plan preview.
#[derive(Debug, Clone, PartialEq, Eq)]
pub struct OperationRowDto {
    pub operation_id: String,
    pub operation_type: String,
    pub title: String,
    pub source: Option<String>,
    pub target: String,
    pub reason: String,
    pub risk: String,
    pub selected: bool,
    pub editable_target: String,
    pub validation_issues: Vec<ValidationIssueDto>,
    pub conflict_status: String,
    pub file_id: Option<String>,
}

/// A validation issue as the front end shows it.
#[derive(Debug, Clone, PartialEq, Eq)]
pub struct ValidationIssueDto {
    pub operation_id: Option<String>,
    pub message: String,
}

/// The user's confirmation of one plan.
#[derive(Debug, Clone, PartialEq, Eq)]
pub struct UserApproval {
    pub approved: bool,
    pub approved_plan_id: u128,
    pub approved_at: Timestamp,
    pub actor: Option<String>,
}

/// The user's confirmation as the front end sends it.
#[derive(Debug, Clone, PartialEq, Eq)]
pub struct UserApprovalDto {
    pub approved: bool,
    pub approved_plan_id: String,
    pub approved_at: String,
    pub actor: Option<String>,
}

/// A problem that blocks a plan.
#[derive(Debug, PartialEq, Eq)]
pub struct ValidationIssue {
    pub operation_id: Option<u128>,
    pub message: String,
}

/// The outcome of validating a plan.
#[derive(Debug, PartialEq, Eq)]
pub struct PlanValidation {
    pub valid: bool,
    pub issues: Vec<ValidationIssue>,
}

impl PlanValidation {
    /// A validation without issues.
    pub fn ok() -> (r: Self)
        ensures
            r.valid,
            r.issues@.len() == 0,
    {
        PlanValidation { valid: true, issues: Vec::new() }
    }

    /// A validation that holds exactly these issues; valid when there are none.
    pub fn from_issues(issues: Vec<ValidationIssue>) -> (r: Self)
        ensures
            r.issues == issues,
            r.valid == (issues@.len() == 0),
    {
        let valid = issues.len() == 0;
        PlanValidation { valid, issues }
    }
}

/// How an execution batch ended.
#[derive(Debug, Clone, Copy, PartialEq, Eq, Structural)]
pub enum ExecutionStatus {
    Completed,
    PartiallyFailed,
    Rejected,
}

/// An operation that was carried out.
#[derive(Debug, PartialEq, Eq)]
pub struct ExecutedOperation {
    pub operation_id: u128,
    pub kind: FileOperationKind,
    pub completed_at: Timestamp,
}

/// An operation that failed.
#[derive(Debug, PartialEq, Eq)]
pub struct ExecutionError {
    pub operation_id: Option<u128>,
    pub message: String,
}

/// How to undo one carried-out operation.
#[derive(Debug, PartialEq, Eq)]
pub enum RollbackAction {
    RemoveCreatedFolder { path: String },
    MoveFileBack { from: String, to: String },
    RenameFileBack { from: String, to: String },
}

impl Clone for RollbackAction {
    fn clone(&self) -> (r: Self)
        ensures
            r == *self,
    {
        match self {
            RollbackAction::RemoveCreatedFolder { path } => RollbackAction::RemoveCreatedFolder {
                path: path.clone(),
            },
            RollbackAction::MoveFileBack { from, to } => RollbackAction::MoveFileBack {
                from: from.clone(),
                to: to.clone(),
            },
            RollbackAction::RenameFileBack { from, to } => RollbackAction::RenameFileBack {
                from: from.clone(),
                to: to.clone(),
            },
        }
    }
}

/// A rollback record of one batch.
#[derive(Debug, PartialEq, Eq)]
pub struct RollbackEntry {
    pub batch_id: u128,
    pub operation_id: u128,
    pub action: RollbackAction,
    pub created_at: Timestamp,
}

impl Clone for RollbackEntry {
    fn clone(&self) -> (r: Self)
        ensures
            r == *self,
    {
        RollbackEntry {
            batch_id: self.batch_id,
            operation_id: self.operation_id,
            action: self.action.clone(),
            created_at: self.created_at,
        }
    }
}

/// What one execution of a confirmed plan did.
#[derive(Debug, PartialEq, Eq)]
pub struct ExecutionBatch {
    pub batch_id: u128,
    pub plan_id: u128,
    pub status: ExecutionStatus,
    pub executed_operations: Vec<ExecutedOperation>,
    pub rollback_entries: Vec<RollbackEntry>,
    pub errors: Vec<ExecutionError>,
    pub started_at: Timestamp,
    pub finished_at: Timestamp,
}

/// An execution batch as the front end shows it.
#[derive(Debug, Clone, PartialEq, Eq)]
pub struct ExecutionBatchDto {
    pub batch_id: String,
    pub plan_id: String,
    pub status: String,
    pub executed_operations: Vec<ExecutedOperationDto>,
    pub rollback_entries: Vec<RollbackEntryDto>,
    pub errors: Vec<ExecutionErrorDto>,
    pub started_at: String,
    pub finished_at: String,
}

/// A carried-out operation as the front end shows it.
#[derive(Debug, Clone, PartialEq, Eq)]
pub struct ExecutedOperationDto {
    pub operation_id: String,
    pub operation_type: String,
    pub source: Option<String>,
    pub target: String,
    pub completed_at: String,
}

/// A failed operation as the front end shows it.
#[derive(Debug, Clone, PartialEq, Eq)]
pub struct ExecutionErrorDto {
    pub operation_id: Option<String>,
    pub message: String,
}

/// A rollback record as the front end shows it.
#[derive(Debug, Clone, PartialEq, Eq)]
pub struct RollbackEntryDto {
    pub batch_id: String,
    pub operation_id: String,
    pub action: String,
    pub from: Option<String>,
    pub to: Option<String>,
    pub created_at: String,
}

/// One line of the execution history.
#[derive(Debug, Clone, PartialEq, Eq)]
pub struct HistorySummaryDto {
    pub batch_id: String,
    pub plan_id: String,
    pub status: String,
    pub operation_count: usize,
    pub error_count: usize,
    pub started_at: String,
    pub finished_at: String,
}

/// What undoing a batch achieved.
#[derive(Debug, PartialEq, Eq)]
pub struct RollbackResult {
    pub batch_id: u128,
    pub rolled_back: Vec<u128>,
    pub errors: Vec<ExecutionError>,
}

/// Which skills to list.
#[derive(Debug, Clone, Default, PartialEq, Eq)]
pub struct SkillQuery {
    pub root_path: Option<String>,
}

/// A skill as the front end shows it.
#[derive(Debug, Clone, PartialEq, Eq)]
pub struct SkillDto {
    pub id: String,
    pub name: String,
    pub enabled: bool,
    pub rule: SkillRule,
    pub created_at: String,
}

/// A skill the user may adopt, learned from decisions.
#[derive(Debug, Clone, PartialEq, Eq)]
pub struct SkillUpdateProposal {
    pub name: String,
    pub rule: SkillRule,
    pub enabled: bool,
    pub evidence: Vec<String>,
    pub source_event_ids: Vec<u128>,
}

/// A proposed skill as the front end shows it.
#[derive(Debug, Clone, PartialEq, Eq)]
pub struct SkillUpdateProposalDto {
    pub name: String,
    pub rule: SkillRule,
    pub enabled: bool,
    pub evidence: Vec<String>,
    pub source_event_ids: Vec<String>,
}

/// What the user did with a suggestion.
#[derive(Debug, Clone, Copy, PartialEq, Eq, Structural)]
pub enum UserDecision {
    Accepted,
    Rejected,
    EditedDestination,
    RenamedFolder,
    RenamedCategory,
}

/// One decision of the user about one file.
#[derive(Debug, Clone, PartialEq, Eq)]
pub struct UserDecisionEvent {
    pub event_id: u128,
    pub file_name: String,
    pub extension: Option<String>,
    pub mime_type: Option<String>,
    pub decision: UserDecision,
    pub original_category: Option<FileCategory>,
    pub final_category: Option<FileCategory>,
    pub original_destination: Option<String>,
    pub final_destination: Option<String>,
    pub occurred_at: Timestamp,
}

/// Model settings without any credential.
#[derive(Debug, Clone, PartialEq, Eq)]
pub struct ModelSettingsDto {
    pub provider: String,
    pub cloud_enabled: bool,
    pub model: Option<String>,
}

/// Why the organizer refused a request.
#[derive(Debug, Clone, PartialEq, Eq)]
pub enum OrganizerError {
    ApprovalRequired,
    ApprovalPlanMismatch,
    ValidationFailed(String),
    Message(String),
}

/// The message of an organizer error.
pub open spec fn organizer_error_text(e: OrganizerError) -> Seq<char> {
    match e {
        OrganizerError::ApprovalRequired => "approval is required before executing a plan"@,
        OrganizerError::ApprovalPlanMismatch => "approval does not match plan id"@,
        OrganizerError::ValidationFailed(m) => "plan validation failed: "@ + m@,
        OrganizerError::Message(m) => m@,
    }
}

impl OrganizerError {
    /// The message of the error.
    pub fn message(&self) -> (r: String)
        ensures
            r@ == organizer_error_text(*self),
    {
        match self {
            OrganizerError::ApprovalRequired => String::from_str(
                "approval is required before executing a plan",
            ),
            OrganizerError::ApprovalPlanMismatch => String::from_str(
                "approval does not match plan id",
            ),
            OrganizerError::ValidationFailed(m) => String::from_str("plan validation failed: ").concat(m.as_str()),
            OrganizerError::Message(m) => m.clone(),
        }
    }
}

} // verus!
