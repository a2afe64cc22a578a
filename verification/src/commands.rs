//! The desktop commands' own logic, between the front end's requests and
//! the library: scan responses, classification input, risks for a plan,
//! skills, model settings and the checks of a provider's settings.
//!
//! Windows, dialogs, the store and the file system stay with the caller.

use vstd::prelude::*;
use crate::ai_gateway::{
    config_check, gateway_error_text, ProviderConfig, ProviderCredentials, ProviderDescriptor,
    ProviderKind, SanitizedAiRequest, SanitizedFileInput, SizeBucket, StructuredPlanSuggestion,
};
use crate::classifier::{classification_of, BasicClassifier};
use crate::ids::uuid_text;
use crate::keys::{category_named, risk_label, risk_named};
use crate::model::{
    ClassificationContext, ClassificationInputDto, ClassificationResult, FileItem, FileRiskLevel, Skill,
    SkillDto, SkillUpdateProposal, SkillUpdateProposalDto,
};
use crate::plan_dto::{risk_for, time_text, time_text_of};
use std::collections::HashMap;
use crate::scanner::{ScanReport, ScanStatus};
use crate::skill_engine::opt_view;
use crate::storage::AiProviderSettings;

verus! {

broadcast use {crate::text::lemma_chars_deep_view, vstd::std_specs::hash::group_hash_axioms};

/// A request to scan a folder.
#[derive(Debug, Clone, PartialEq, Eq)]
pub struct ScanFolderRequest {
    pub task_id: Option<String>,
    pub root_path: String,
    pub recursive: bool,
    pub max_depth: Option<usize>,
    pub include_hidden: bool,
    pub follow_symlinks: bool,
}

/// How a scan command ended.
#[derive(Debug, Clone, Copy, PartialEq, Eq, Structural)]
pub enum ScanFolderStatus {
    Completed,
    Cancelled,
}

/// A scanned file as the front end shows it.
#[derive(Debug, Clone, PartialEq, Eq)]
pub struct FileItemDto {
    pub id: String,
    pub name: String,
    pub path: String,
    pub extension: Option<String>,
    pub size_bytes: u64,
    pub size_label: String,
    pub modified_at: Option<String>,
    pub kind: String,
}

/// The answer to a scan command.
#[derive(Debug, Clone, PartialEq, Eq)]
pub struct ScanFolderResponse {
    pub task_id: String,
    pub root_path: String,
    pub files: Vec<FileItemDto>,
    pub status: ScanFolderStatus,
    pub skipped_count: usize,
    pub error_count: usize,
}

/// The answer to a request to cancel a scan.
#[derive(Debug, Clone, PartialEq, Eq)]
pub struct CancelScanResponse {
    pub task_id: String,
    pub cancelled: bool,
}

/// A request to classify the files of a scan.
#[derive(Debug, Clone, PartialEq, Eq)]
pub struct ClassifyFilesRequest {
    pub task_id: String,
    pub root_path: String,
}

/// A supported provider as the front end shows it.
#[derive(Debug, Clone, PartialEq, Eq)]
pub struct ModelProviderDto {
    pub provider: String,
    pub label: String,
    pub requires_base_url: bool,
    pub requires_api_key: bool,
    pub cloud: bool,
}

/// A provider's settings as the front end edits them; never a key.
#[derive(Debug, Clone, PartialEq, Eq)]
pub struct ModelSettingsDto {
    pub provider: String,
    pub base_url: Option<String>,
    pub model: Option<String>,
    pub cloud_enabled: bool,
}

/// The supported providers and the saved settings.
#[derive(Debug, Clone, PartialEq, Eq)]
pub struct ModelSettingsListDto {
    pub providers: Vec<ModelProviderDto>,
    pub saved_settings: Vec<ModelSettingsDto>,
}

/// A request to try a provider, with a key for this call only.
#[derive(Debug, Clone, PartialEq, Eq)]
pub struct TestModelRequest {
    pub settings: ModelSettingsDto,
    pub api_key: Option<String>,
}

/// The answer to a connection test.
#[derive(Debug, Clone, PartialEq, Eq)]
pub struct TestModelConnectionResponse {
    pub provider: String,
    pub request_valid: bool,
    pub message: String,
}

/// The answer to a test of a provider's JSON output.
#[derive(Debug, Clone, PartialEq, Eq)]
pub struct TestModelJsonOutputResponse {
    pub provider: String,
    pub valid: bool,
    pub summary: String,
    pub categories_count: usize,
}

/// The scans under way, each with its cancellation flag; a task id occurs
/// at most once.
#[derive(Debug, Default)]
pub struct ScanRegistry {
    tasks: Vec<(String, bool)>,
}

/// The entries as a map from task id to cancellation, later entries
/// overriding earlier ones.
pub open spec fn entries_map(tasks: Seq<(String, bool)>) -> Map<Seq<char>, bool>
    decreases tasks.len(),
{
    if tasks.len() == 0 {
        Map::empty()
    } else {
        entries_map(tasks.drop_last()).insert(tasks.last().0@, tasks.last().1)
    }
}

/// No task id occurs twice among the entries.
pub open spec fn distinct_tasks(tasks: Seq<(String, bool)>) -> bool {
    forall|a: int, b: int| 0 <= a < b < tasks.len() ==> (#[trigger] tasks[a]).0@ != (#[trigger] tasks[b]).0@
}

/// The map holds exactly the entries' task ids, each with its flag.
proof fn lemma_entries_map(tasks: Seq<(String, bool)>)
    requires
        distinct_tasks(tasks),
    ensures
        forall|id: Seq<char>| #[trigger] entries_map(tasks).contains_key(id) <==> exists|k: int| 0 <= k < tasks.len() && tasks[k].0@ == id,
        forall|k: int| 0 <= k < tasks.len() ==> entries_map(tasks)[#[trigger] tasks[k].0@] == tasks[k].1,
    decreases tasks.len(),
{
    if tasks.len() > 0 {
        let rest = tasks.drop_last();
        assert(distinct_tasks(rest)) by {
            assert forall|a: int, b: int| 0 <= a < b < rest.len() implies (#[trigger] rest[a]).0@ != (#[trigger] rest[b]).0@ by {
                assert(rest[a] == tasks[a]);
                assert(rest[b] == tasks[b]);
            }
        }
        lemma_entries_map(rest);
        assert forall|id: Seq<char>| #[trigger] entries_map(tasks).contains_key(id) <==> exists|k: int| 0 <= k < tasks.len() && tasks[k].0@ == id by {
            if entries_map(tasks).contains_key(id) && id != tasks.last().0@ {
                assert(entries_map(rest).contains_key(id));
                let k = choose|k: int| 0 <= k < rest.len() && rest[k].0@ == id;
                assert(tasks[k] == rest[k]);
            }
            if exists|k: int| 0 <= k < tasks.len() && tasks[k].0@ == id {
                let k = choose|k: int| 0 <= k < tasks.len() && tasks[k].0@ == id;
                if k < tasks.len() - 1 {
                    assert(rest[k] == tasks[k]);
                    assert(entries_map(rest).contains_key(id));
                }
            }
        }
        assert forall|k: int| 0 <= k < tasks.len() implies entries_map(tasks)[#[trigger] tasks[k].0@] == tasks[k].1 by {
            if k < tasks.len() - 1 {
                assert(rest[k] == tasks[k]);
                assert(tasks[k].0@ != tasks[tasks.len() - 1].0@);
            }
        }
    }
}

impl ScanRegistry {
    /// The scans under way: each task id with whether it was cancelled.
    pub closed spec fn view(&self) -> Map<Seq<char>, bool> {
        entries_map(self.tasks@)
    }

    /// No task id occurs twice.
    pub closed spec fn wf(&self) -> bool {
        distinct_tasks(self.tasks@)
    }

    /// An empty registry.
    pub fn new() -> (r: Self)
        ensures
            r.wf(),
            r.view() == Map::<Seq<char>, bool>::empty(),
    {
        ScanRegistry { tasks: Vec::new() }
    }

    /// The index of a task.
    fn find(&self, task_id: &str) -> (r: Option<usize>)
        requires
            self.wf(),
        ensures
            match r {
                Some(i) => i < self.tasks@.len() && self.tasks@[i as int].0@ == task_id@,
                None => forall|k: int| 0 <= k < self.tasks@.len() ==> self.tasks@[k].0@ != task_id@,
            },
    {
        let mut i: usize = 0;
        while i < self.tasks.len()
            invariant
                i <= self.tasks@.len(),
                forall|k: int| 0 <= k < i ==> self.tasks@[k].0@ != task_id@,
            decreases self.tasks.len() - i,
        {
            if crate::text::text_is(&crate::text::chars_of(self.tasks[i].0.as_str()), task_id) {
                return Some(i);
            }
            i = i + 1;
        }
        None
    }

    /// Registers a scan, not cancelled, unless it is under way already.
    pub fn register(&mut self, task_id: &str)
        requires
            old(self).wf(),
        ensures
            final(self).wf(),
            final(self).view() == if old(self).view().contains_key(task_id@) {
                old(self).view()
            } else {
                old(self).view().insert(task_id@, false)
            },
    {
        proof {
            lemma_entries_map(self.tasks@);
        }
        match self.find(task_id) {
            Some(i) => {
                assert(self.view().contains_key(task_id@));
            },
            None => {
                let ghost before = self.tasks@;
                assert(!self.view().contains_key(task_id@));
                self.tasks.push((String::from_str(task_id), false));
                proof {
                    assert(self.tasks@.drop_last() =~= before);
                    assert forall|a: int, b: int| 0 <= a < b < self.tasks@.len() implies (#[trigger] self.tasks@[a]).0@
                        != (#[trigger] self.tasks@[b]).0@ by {
                        if b == self.tasks@.len() - 1 {
                            assert(self.tasks@[a] == before[a]);
                        } else {
                            assert(self.tasks@[a] == before[a]);
                            assert(self.tasks@[b] == before[b]);
                        }
                    }
                }
            },
        }
    }

    /// Marks a scan as cancelled; whether it was under way.
    pub fn cancel(&mut self, task_id: &str) -> (r: bool)
        requires
            old(self).wf(),
        ensures
            final(self).wf(),
            r == old(self).view().contains_key(task_id@),
            final(self).view() == if r {
                old(self).view().insert(task_id@, true)
            } else {
                old(self).view()
            },
    {
        proof {
            lemma_entries_map(self.tasks@);
        }
        match self.find(task_id) {
            Some(i) => {
                let ghost before = self.tasks@;
                let ghost old_view = self.view();
                let name = self.tasks[i].0.clone();
                self.tasks.set(i, (name, true));
                proof {
                    let after = self.tasks@;
                    assert forall|a: int, b: int| 0 <= a < b < after.len() implies (#[trigger] after[a]).0@
                        != (#[trigger] after[b]).0@ by {
                        assert(after[a].0@ == before[a].0@);
                        assert(after[b].0@ == before[b].0@);
                    }
                    lemma_entries_map(after);
                    assert forall|id: Seq<char>| entries_map(after).contains_key(id) <==> old_view.insert(task_id@, true).contains_key(id) by {
                        if exists|k: int| 0 <= k < after.len() && after[k].0@ == id {
                            let k = choose|k: int| 0 <= k < after.len() && after[k].0@ == id;
                            assert(before[k].0@ == id);
                        }
                        if exists|k: int| 0 <= k < before.len() && before[k].0@ == id {
                            let k = choose|k: int| 0 <= k < before.len() && before[k].0@ == id;
                            assert(after[k].0@ == id);
                        }
                    }
                    assert forall|id: Seq<char>| entries_map(after).contains_key(id) implies entries_map(after)[id] == old_view.insert(
                        task_id@,
                        true,
                    )[id] by {
                        let k = choose|k: int| 0 <= k < after.len() && after[k].0@ == id;
                        assert(entries_map(after)[after[k].0@] == after[k].1);
                        if k != i {
                            assert(after[k] == before[k]);
                            assert(old_view[before[k].0@] == before[k].1);
                        }
                    }
                    assert(entries_map(after) =~= old_view.insert(task_id@, true));
                }
                true
            },
            None => false,
        }
    }

    /// Whether a scan was cancelled.
    pub fn is_cancelled(&self, task_id: &str) -> (r: bool)
        requires
            self.wf(),
        ensures
            r == (self.view().contains_key(task_id@) && self.view()[task_id@]),
    {
        proof {
            lemma_entries_map(self.tasks@);
        }
        match self.find(task_id) {
            Some(i) => {
                assert(self.view()[self.tasks@[i as int].0@] == self.tasks@[i as int].1);
                self.tasks[i].1
            },
            None => false,
        }
    }

    /// Forgets a scan.
    pub fn finish(&mut self, task_id: &str)
        requires
            old(self).wf(),
        ensures
            final(self).wf(),
            final(self).view() == old(self).view().remove(task_id@),
    {
        proof {
            lemma_entries_map(self.tasks@);
        }
        match self.find(task_id) {
            Some(i) => {
                let ghost before = self.tasks@;
                let ghost old_view = self.view();
                self.tasks.remove(i);
                proof {
                    let after = self.tasks@;
                    assert(after =~= before.remove(i as int));
                    assert forall|a: int, b: int| 0 <= a < b < after.len() implies (#[trigger] after[a]).0@
                        != (#[trigger] after[b]).0@ by {
                        let a2 = if a < i { a } else { a + 1 };
                        let b2 = if b < i { b } else { b + 1 };
                        assert(after[a] == before[a2]);
                        assert(after[b] == before[b2]);
                    }
                    lemma_entries_map(after);
                    assert forall|id: Seq<char>| entries_map(after).contains_key(id) <==> old_view.remove(task_id@).contains_key(id) by {
                        if exists|k: int| 0 <= k < after.len() && after[k].0@ == id {
                            let k = choose|k: int| 0 <= k < after.len() && after[k].0@ == id;
                            let k2 = if k < i { k } else { k + 1 };
                            assert(before[k2] == after[k]);
                            assert(k2 != i);
                        }
                        if exists|k: int| 0 <= k < before.len() && before[k].0@ == id && id != task_id@ {
                            let k = choose|k: int| 0 <= k < before.len() && before[k].0@ == id && id != task_id@;
                            assert(k != i);
                            let k2 = if k < i { k } else { k - 1 };
                            assert(after[k2] == before[k]);
                        }
                    }
                    assert forall|id: Seq<char>| entries_map(after).contains_key(id) implies entries_map(after)[id] == old_view[id] by {
                        let k = choose|k: int| 0 <= k < after.len() && after[k].0@ == id;
                        let k2 = if k < i { k } else { k + 1 };
                        assert(before[k2] == after[k]);
                        assert(entries_map(after)[after[k].0@] == after[k].1);
                        assert(old_view[before[k2].0@] == before[k2].1);
                    }
                    assert(entries_map(after) =~= old_view.remove(task_id@));
                }
            },
            None => {
                assert(!self.view().contains_key(task_id@));
                assert(self.view() =~= self.view().remove(task_id@));
            },
        }
    }
}

/// The task id of a scan: the one requested, or `scan-` and a new UUID.
pub fn scan_task_id(requested: Option<String>) -> (r: String)
    ensures
        match requested {
            Some(t) => r == t,
            None => exists|v: u128| r@ == "scan-"@ + #[trigger] uuid_text(v),
        },
{
    match requested {
        Some(t) => t,
        None => {
            let v = crate::ids::new_id();
            let id = crate::ids::id_text(v);
            let r = String::from_str("scan-").concat(id.as_str());
            assert(r@ == "scan-"@ + uuid_text(v));
            r
        },
    }
}

/// The options of the scan a request asks for.
pub fn scan_options(request: &ScanFolderRequest) -> (r: crate::model::ScanOptions)
    ensures
        r.root@ == request.root_path@,
        r.recursive == request.recursive,
        r.max_depth == request.max_depth,
        r.include_hidden == request.include_hidden,
        r.follow_symlinks == request.follow_symlinks,
{
    crate::model::ScanOptions {
        root: request.root_path.clone(),
        recursive: request.recursive,
        max_depth: request.max_depth,
        include_hidden: request.include_hidden,
        follow_symlinks: request.follow_symlinks,
    }
}

/// The status a scan task is stored with when the scan ended.
pub open spec fn scan_status_key(s: ScanStatus) -> Seq<char> {
    match s {
        ScanStatus::Completed => "completed"@,
        ScanStatus::Cancelled => "cancelled"@,
    }
}

/// The status a scan task is stored with when the scan ended.
pub fn scan_status_key_of(s: ScanStatus) -> (r: &'static str)
    ensures
        r@ == scan_status_key(s),
{
    match s {
        ScanStatus::Completed => "completed",
        ScanStatus::Cancelled => "cancelled",
    }
}

/// What to do when a scan ended: whether its files are stored (only a
/// completed scan's are), and the status its task is stored with.
pub fn scan_outcome(status: ScanStatus) -> (r: (bool, String))
    ensures
        r.0 == (status == ScanStatus::Completed),
        r.1@ == scan_status_key(status),
{
    (status == ScanStatus::Completed, String::from_str(scan_status_key_of(status)))
}

/// The kind shown for a file: its extension after a dot, or a Chinese
/// "no extension".
pub open spec fn file_kind(extension: Option<Seq<char>>) -> Seq<char> {
    match extension {
        Some(e) => "."@ + e,
        None => "无扩展名"@,
    }
}

/// `d` shows file `f` with the size label `label`.
pub open spec fn is_file_dto_of(d: FileItemDto, f: FileItem, label: Seq<char>) -> bool {
    &&& d.id@ == uuid_text(f.id)
    &&& d.name@ == f.file_name@
    &&& d.path@ == f.path@
    &&& d.extension == f.extension
    &&& d.size_bytes == f.size_bytes
    &&& d.size_label@ == label
    &&& opt_view(d.modified_at) == match f.modified_at {
        Some(t) => Some(time_text(t)),
        None => None,
    }
    &&& d.kind@ == file_kind(opt_view(f.extension))
}

/// A scanned file as the front end shows it, with its size written by the
/// caller.
pub fn file_to_dto(file: &FileItem, size_label: String) -> (r: FileItemDto)
    ensures
        is_file_dto_of(r, *file, size_label@),
{
    FileItemDto {
        id: crate::ids::id_text(file.id),
        name: file.file_name.clone(),
        path: file.path.clone(),
        extension: crate::model::copy_opt_text(&file.extension),
        size_bytes: file.size_bytes,
        size_label,
        modified_at: match file.modified_at {
            Some(t) => Some(time_text_of(t)),
            None => None,
        },
        kind: match &file.extension {
            Some(e) => String::from_str(".").concat(e.as_str()),
            None => String::from_str("无扩展名"),
        },
    }
}

/// The answer to a scan: the task, the root, each file shown with its size
/// label, the status and the counts.
pub fn scan_folder_response(
    task_id: String,
    root_path: String,
    report: &ScanReport,
    size_labels: &Vec<String>,
) -> (r: ScanFolderResponse)
    requires
        size_labels@.len() == report.files@.len(),
    ensures
        r.task_id == task_id,
        r.root_path == root_path,
        r.files@.len() == report.files@.len(),
        forall|k: int| 0 <= k < r.files@.len() ==> is_file_dto_of(#[trigger] r.files@[k], report.files@[k], size_labels@[k]@),
        r.status == match report.status {
            ScanStatus::Completed => ScanFolderStatus::Completed,
            ScanStatus::Cancelled => ScanFolderStatus::Cancelled,
        },
        r.skipped_count == report.skipped_count,
        r.error_count == report.error_count,
{
    let mut files: Vec<FileItemDto> = Vec::new();
    let mut i: usize = 0;
    while i < report.files.len()
        invariant
            i <= report.files@.len(),
            size_labels@.len() == report.files@.len(),
            files@.len() == i,
            forall|k: int| 0 <= k < i ==> is_file_dto_of(#[trigger] files@[k], report.files@[k], size_labels@[k]@),
        decreases report.files.len() - i,
    {
        files.push(file_to_dto(&report.files[i], size_labels[i].clone()));
        i = i + 1;
    }
    ScanFolderResponse {
        task_id,
        root_path,
        files,
        status: match report.status {
            ScanStatus::Completed => ScanFolderStatus::Completed,
            ScanStatus::Cancelled => ScanFolderStatus::Cancelled,
        },
        skipped_count: report.skipped_count,
        error_count: report.error_count,
    }
}

/// What the classifier consults for a root: the enabled skills of the
/// store, nothing else.
pub fn classification_context(root_path: &str, skills: Vec<Skill>) -> (r: ClassificationContext)
    ensures
        r.root_path@ == root_path@,
        r.existing_folders@.len() == 0,
        r.skills == skills,
        r.rules@.len() == 0,
        !r.use_ai,
{
    ClassificationContext {
        root_path: String::from_str(root_path),
        existing_folders: Vec::new(),
        skills,
        rules: Vec::new(),
        use_ai: false,
    }
}

/// Classifies each file, in order.
pub fn classify_all(files: &Vec<FileItem>, context: &ClassificationContext) -> (r: Vec<ClassificationResult>)
    ensures
        r@.len() == files@.len(),
        forall|k: int| 0 <= k < r@.len() ==> {
            &&& (#[trigger] r@[k]).file == files@[k]
            &&& (r@[k].category, r@[k].confidence, r@[k].evidence.deep_view()) == classification_of(files@[k], *context)
            &&& r@[k].risk == (if files@[k].is_symlink {
                FileRiskLevel::Medium
            } else {
                FileRiskLevel::Low
            })
        },
{
    let classifier = BasicClassifier;
    let mut out: Vec<ClassificationResult> = Vec::new();
    let mut i: usize = 0;
    while i < files.len()
        invariant
            i <= files@.len(),
            out@.len() == i,
            forall|k: int| 0 <= k < i ==> {
                &&& (#[trigger] out@[k]).file == files@[k]
                &&& (out@[k].category, out@[k].confidence, out@[k].evidence.deep_view()) == classification_of(files@[k], *context)
                &&& out@[k].risk == (if files@[k].is_symlink {
                    FileRiskLevel::Medium
                } else {
                    FileRiskLevel::Low
                })
            },
        decreases files.len() - i,
    {
        out.push(classifier.classify(&files[i], context));
        i = i + 1;
    }
    out
}

/// The risk key recorded for a file among the classifications: that of
/// the last classification of the file.
pub open spec fn risk_of(cs: Seq<ClassificationResult>, id: u128) -> Option<Seq<char>>
    decreases cs.len(),
{
    if cs.len() == 0 {
        None
    } else if cs.last().file.id == id {
        Some(risk_label(cs.last().risk))
    } else {
        risk_of(cs.drop_last(), id)
    }
}

/// The risk key of each classified file, for the plan preview; a file
/// classified twice keeps its last risk.
pub fn risk_by_file_id(classifications: &Vec<ClassificationResult>) -> (r: HashMap<u128, String>)
    ensures
        forall|id: u128| #[trigger] risk_for(r@, id) == risk_of(classifications@, id),
{
    let ghost cs = classifications@;
    let mut out: HashMap<u128, String> = HashMap::new();
    let mut i: usize = 0;
    assert(cs.subrange(0, 0) =~= Seq::<ClassificationResult>::empty());
    while i < classifications.len()
        invariant
            i <= cs.len(),
            cs == classifications@,
            forall|id: u128| #[trigger] risk_for(out@, id) == risk_of(cs.subrange(0, i as int), id),
        decreases classifications.len() - i,
    {
        let c = &classifications[i];
        let v = String::from_str(crate::keys::risk_label_of(&c.risk));
        let ghost before = out@;
        out.insert(c.file.id, v);
        proof {
            let next = cs.subrange(0, i + 1);
            assert(next.drop_last() =~= cs.subrange(0, i as int));
            assert(next.last() == cs[i as int]);
            assert forall|id: u128| #[trigger] risk_for(out@, id) == risk_of(next, id) by {
                if id != c.file.id {
                    assert(risk_for(before, id) == risk_of(cs.subrange(0, i as int), id));
                }
            }
        }
        i = i + 1;
    }
    assert(cs.subrange(0, cs.len() as int) =~= cs);
    out
}

/// A classification as the front end shows it; `confidence` in hundredths.
#[derive(Debug, Clone, PartialEq, Eq)]
pub struct ClassificationResultDto {
    pub file_id: String,
    pub category: String,
    pub category_key: String,
    pub confidence: u32,
    pub evidence: Vec<String>,
    pub risk: String,
}

/// A classification for the front end: the file's id text, the category's
/// label and key, and the risk's key.
pub fn classification_to_dto(result: ClassificationResult) -> (r: ClassificationResultDto)
    ensures
        r.file_id@ == uuid_text(result.file.id),
        r.category@ == crate::keys::category_label(result.category),
        r.category_key@ == crate::platform::category_key(result.category),
        r.confidence == result.confidence,
        r.evidence == result.evidence,
        r.risk@ == risk_label(result.risk),
{
    ClassificationResultDto {
        file_id: crate::ids::id_text(result.file.id),
        category: String::from_str(crate::keys::category_label_of(&result.category)),
        category_key: String::from_str(crate::platform::category_key_of(&result.category)),
        confidence: result.confidence,
        evidence: result.evidence,
        risk: String::from_str(crate::keys::risk_label_of(&result.risk)),
    }
}

/// The file with this id text among the first `k`: the last one.
pub open spec fn file_with_id(files: Seq<FileItem>, id: Seq<char>, k: int) -> Option<FileItem>
    decreases k,
{
    if k <= 0 {
        None
    } else if uuid_text(files[k - 1].id) == id {
        Some(files[k - 1])
    } else {
        file_with_id(files, id, k - 1)
    }
}

/// The file with this id text.
fn file_with_id_of(files: &Vec<FileItem>, id: &String) -> (r: Option<FileItem>)
    ensures
        r == file_with_id(files@, id@, files@.len() as int),
{
    let mut i: usize = files.len();
    while i > 0
        invariant
            i <= files@.len(),
            file_with_id(files@, id@, files@.len() as int) == file_with_id(files@, id@, i as int),
        decreases i,
    {
        let t = crate::ids::id_text(files[i - 1].id);
        if t == *id {
            return Some(files[i - 1].clone());
        }
        i = i - 1;
    }
    None
}

/// Why a classification from the front end cannot be used, if it cannot:
/// its file, then its category (the key when given), then its risk.
pub open spec fn input_error(files: Seq<FileItem>, d: ClassificationInputDto) -> Option<Seq<char>> {
    let category = match d.category_key {
        Some(k) => k@,
        None => d.category@,
    };
    if file_with_id(files, d.file_id@, files.len() as int) is None {
        Some("classification file not found: "@ + d.file_id@)
    } else if category_named(category) is None {
        Some("unsupported category: "@ + category)
    } else if risk_named(d.risk@) is None {
        Some("unsupported risk: "@ + d.risk@)
    } else {
        None
    }
}

/// `c` is the classification a front-end input stands for.
pub open spec fn is_classification_of_input(c: ClassificationResult, files: Seq<FileItem>, d: ClassificationInputDto) -> bool {
    let category = match d.category_key {
        Some(k) => k@,
        None => d.category@,
    };
    &&& Some(c.file) == file_with_id(files, d.file_id@, files.len() as int)
    &&& Some(c.category) == category_named(category)
    &&& c.confidence == d.confidence
    &&& c.evidence@ == d.evidence@
    &&& Some(c.risk) == risk_named(d.risk@)
}

/// The classifications the front end sent, with their files found among
/// the stored ones by id; the first that cannot be used refuses them all.
pub fn classifications_from_dto(files: &Vec<FileItem>, dtos: &Vec<ClassificationInputDto>) -> (r: Result<
    Vec<ClassificationResult>,
    String,
>)
    ensures
        match crate::batch_dto::first_error(dtos@, |d: ClassificationInputDto| input_error(files@, d), dtos@.len() as int) {
            Some(m) => r matches Err(e) && e@ == m,
            None => r matches Ok(out) && out@.len() == dtos@.len() && forall|k: int| 0 <= k < out@.len()
                ==> is_classification_of_input(#[trigger] out@[k], files@, dtos@[k]),
        },
{
    let ghost f = |d: ClassificationInputDto| input_error(files@, d);
    let mut out: Vec<ClassificationResult> = Vec::new();
    let mut i: usize = 0;
    while i < dtos.len()
        invariant
            i <= dtos@.len(),
            f == (|d: ClassificationInputDto| input_error(files@, d)),
            crate::batch_dto::first_error(dtos@, f, i as int) is None,
            out@.len() == i,
            forall|k: int| 0 <= k < i ==> is_classification_of_input(#[trigger] out@[k], files@, dtos@[k]),
        decreases dtos.len() - i,
    {
        let d = &dtos[i];
        let file = match file_with_id_of(files, &d.file_id) {
            Some(x) => x,
            None => {
                proof {
                    crate::batch_dto::lemma_first_error_stays(dtos@, f, i + 1, dtos@.len() as int);
                }
                return Err(String::from_str("classification file not found: ").concat(d.file_id.as_str()));
            },
        };
        let category_text = match &d.category_key {
            Some(k) => k.as_str(),
            None => d.category.as_str(),
        };
        let category = match crate::keys::parse_category(category_text) {
            Ok(c) => c,
            Err(e) => {
                proof {
                    crate::batch_dto::lemma_first_error_stays(dtos@, f, i + 1, dtos@.len() as int);
                }
                return Err(e);
            },
        };
        let risk = match crate::keys::parse_risk(d.risk.as_str()) {
            Ok(x) => x,
            Err(e) => {
                proof {
                    crate::batch_dto::lemma_first_error_stays(dtos@, f, i + 1, dtos@.len() as int);
                }
                return Err(e);
            },
        };
        out.push(
            ClassificationResult {
                file,
                category,
                confidence: d.confidence,
                evidence: crate::model::copy_texts(&d.evidence),
                risk,
            },
        );
        i = i + 1;
    }
    Ok(out)
}

/// A skill as the front end shows it.
pub fn skill_to_dto(skill: &Skill) -> (r: SkillDto)
    ensures
        r.id@ == uuid_text(skill.id),
        r.name == skill.name,
        r.enabled == skill.enabled,
        r.created_at@ == time_text(skill.created_at),
{
    SkillDto {
        id: crate::ids::id_text(skill.id),
        name: skill.name.clone(),
        enabled: skill.enabled,
        rule: skill.rule.clone(),
        created_at: time_text_of(skill.created_at),
    }
}

/// A proposed skill as the front end shows it: event ids as texts.
pub fn skill_proposal_to_dto(proposal: SkillUpdateProposal) -> (r: SkillUpdateProposalDto)
    ensures
        r.name == proposal.name,
        r.rule == proposal.rule,
        r.enabled == proposal.enabled,
        r.evidence == proposal.evidence,
        r.source_event_ids@.len() == proposal.source_event_ids@.len(),
        forall|k: int| 0 <= k < r.source_event_ids@.len() ==> (#[trigger] r.source_event_ids@[k])@ == uuid_text(
            proposal.source_event_ids@[k],
        ),
{
    let mut ids: Vec<String> = Vec::new();
    let mut i: usize = 0;
    while i < proposal.source_event_ids.len()
        invariant
            i <= proposal.source_event_ids@.len(),
            ids@.len() == i,
            forall|k: int| 0 <= k < i ==> (#[trigger] ids@[k])@ == uuid_text(proposal.source_event_ids@[k]),
        decreases proposal.source_event_ids.len() - i,
    {
        ids.push(crate::ids::id_text(proposal.source_event_ids[i]));
        i = i + 1;
    }
    SkillUpdateProposalDto {
        name: proposal.name,
        rule: proposal.rule,
        enabled: proposal.enabled,
        evidence: proposal.evidence,
        source_event_ids: ids,
    }
}

/// A supported provider as the front end shows it.
pub fn provider_to_dto(p: ProviderDescriptor) -> (r: ModelProviderDto)
    ensures
        r.provider == p.provider,
        r.label == p.label,
        r.requires_base_url == p.requires_base_url,
        r.requires_api_key == p.requires_api_key,
        r.cloud == p.cloud,
{
    ModelProviderDto {
        provider: p.provider,
        label: p.label,
        requires_base_url: p.requires_base_url,
        requires_api_key: p.requires_api_key,
        cloud: p.cloud,
    }
}

/// Saved settings as the front end edits them.
pub fn storage_model_settings_to_dto(settings: AiProviderSettings) -> (r: ModelSettingsDto)
    ensures
        r.provider == settings.provider,
        r.base_url == settings.base_url,
        r.model == settings.model,
        r.cloud_enabled == settings.cloud_enabled,
{
    ModelSettingsDto {
        provider: settings.provider,
        base_url: settings.base_url,
        model: settings.model,
        cloud_enabled: settings.cloud_enabled,
    }
}

/// The gateway's config for settings from the front end.
pub fn model_settings_to_provider_config(settings: &ModelSettingsDto) -> (r: ProviderConfig)
    ensures
        r.provider == settings.provider,
        r.base_url == settings.base_url,
        r.model == settings.model,
        r.cloud_enabled == settings.cloud_enabled,
{
    ProviderConfig {
        provider: settings.provider.clone(),
        base_url: crate::model::copy_opt_text(&settings.base_url),
        model: crate::model::copy_opt_text(&settings.model),
        cloud_enabled: settings.cloud_enabled,
    }
}

/// The supported providers and the saved settings, for the front end.
pub fn model_settings_list(saved: Vec<AiProviderSettings>) -> (r: ModelSettingsListDto)
    ensures
        r.providers@.len() == 3,
        r.providers@[0].provider@ == "mock"@,
        r.providers@[1].provider@ == "ollama"@,
        r.providers@[2].provider@ == "openai-compatible"@ && r.providers@[2].requires_base_url
            && r.providers@[2].requires_api_key && r.providers@[2].cloud,
        r.saved_settings@.len() == saved@.len(),
        forall|k: int| 0 <= k < saved@.len() ==> {
            &&& (#[trigger] r.saved_settings@[k]).provider == saved@[k].provider
            &&& r.saved_settings@[k].base_url == saved@[k].base_url
            &&& r.saved_settings@[k].model == saved@[k].model
            &&& r.saved_settings@[k].cloud_enabled == saved@[k].cloud_enabled
        },
{
    let mut registry = crate::ai_gateway::provider_registry();
    let ghost reg = registry@;
    let mut providers: Vec<ModelProviderDto> = Vec::new();
    while registry.len() > 0
        invariant
            registry@.len() + providers@.len() == 3,
            reg.len() == 3,
            registry@ == reg.subrange(providers@.len() as int, 3),
            forall|k: int| 0 <= k < providers@.len() ==> (#[trigger] providers@[k]).provider == reg[k].provider
                && providers@[k].requires_base_url == reg[k].requires_base_url && providers@[k].requires_api_key
                == reg[k].requires_api_key && providers@[k].cloud == reg[k].cloud,
        decreases registry.len(),
    {
        let d = registry.remove(0);
        providers.push(provider_to_dto(d));
        assert(registry@ =~= reg.subrange(providers@.len() as int, 3));
    }
    let mut saved = saved;
    let ghost sv = saved@;
    let mut saved_settings: Vec<ModelSettingsDto> = Vec::new();
    while saved.len() > 0
        invariant
            saved@.len() + saved_settings@.len() == sv.len(),
            saved@ == sv.subrange(saved_settings@.len() as int, sv.len() as int),
            forall|k: int| 0 <= k < saved_settings@.len() ==> {
                &&& (#[trigger] saved_settings@[k]).provider == sv[k].provider
                &&& saved_settings@[k].base_url == sv[k].base_url
                &&& saved_settings@[k].model == sv[k].model
                &&& saved_settings@[k].cloud_enabled == sv[k].cloud_enabled
            },
        decreases saved.len(),
    {
        let s = saved.remove(0);
        saved_settings.push(storage_model_settings_to_dto(s));
        assert(saved@ =~= sv.subrange(saved_settings@.len() as int, sv.len() as int));
    }
    ModelSettingsListDto { providers, saved_settings }
}

/// Checks settings from the front end before they are saved: refused as
/// `validate_provider_config` refuses (with its message); otherwise the
/// record to save, which holds no key.
pub fn settings_to_save(settings: &ModelSettingsDto) -> (r: Result<AiProviderSettings, String>)
    ensures
        match config_check(model_config(*settings)) {
            Err(e) => r matches Err(m) && m@ == gateway_error_text(e),
            Ok(_) => r matches Ok(s) && s.provider == settings.provider && s.base_url == settings.base_url
                && s.cloud_enabled == settings.cloud_enabled && s.model == settings.model,
        },
{
    let config = model_settings_to_provider_config(settings);
    match crate::ai_gateway::validate_provider_config(&config) {
        Err(e) => Err(e.message()),
        Ok(_) => Ok(
            AiProviderSettings {
                provider: settings.provider.clone(),
                base_url: crate::model::copy_opt_text(&settings.base_url),
                cloud_enabled: settings.cloud_enabled,
                model: crate::model::copy_opt_text(&settings.model),
            },
        ),
    }
}

/// The gateway's config for settings, as a specification value.
pub open spec fn model_config(settings: ModelSettingsDto) -> ProviderConfig {
    ProviderConfig {
        provider: settings.provider,
        base_url: settings.base_url,
        model: settings.model,
        cloud_enabled: settings.cloud_enabled,
    }
}

/// Credentials for a key that is not blank; none otherwise.
pub fn credentials_for(api_key: &Option<String>) -> (r: Option<ProviderCredentials>)
    ensures
        match api_key {
            Some(k) => if crate::text::trim(k@).len() > 0 {
                r matches Some(c) && c.key() == k@
            } else {
                r is None
            },
            None => r is None,
        },
{
    match api_key {
        Some(k) => {
            if crate::text::trim_chars(&crate::text::chars_of(k.as_str())).len() > 0 {
                Some(ProviderCredentials::new(k.clone()))
            } else {
                None
            }
        },
        None => None,
    }
}

/// The key of a request, when it is not blank.
pub open spec fn request_key(api_key: Option<String>) -> Option<Seq<char>> {
    match api_key {
        Some(k) => if crate::text::trim(k@).len() > 0 {
            Some(k@)
        } else {
            None
        },
        None => None,
    }
}

/// The message a settings check fails with, if it fails: an unknown
/// provider, a cloud provider not enabled or without base URL, or an
/// OpenAI-compatible provider without a key.
pub open spec fn settings_failure(settings: ModelSettingsDto, api_key: Option<String>) -> Option<Seq<char>> {
    match config_check(model_config(settings)) {
        Err(e) => Some(gateway_error_text(e)),
        Ok(ProviderKind::OpenAiCompatible) => if request_key(api_key) is None {
            Some(gateway_error_text(crate::ai_gateway::GatewayError::MissingApiKey))
        } else {
            None
        },
        Ok(_) => None,
    }
}

/// The URL a provider's request would go to, for a checked config.
pub open spec fn settings_endpoint(settings: ModelSettingsDto, kind: ProviderKind) -> Seq<char> {
    match kind {
        ProviderKind::Ollama => crate::provider_http::endpoint(
            crate::provider_http::text_or(settings.base_url, crate::provider_http::DEFAULT_OLLAMA_BASE_URL@),
            "/api/generate"@,
        ),
        _ => crate::provider_http::endpoint(
            crate::provider_http::text_or(
                settings.base_url,
                crate::provider_http::DEFAULT_OPENAI_COMPATIBLE_BASE_URL@,
            ),
            "/chat/completions"@,
        ),
    }
}

/// Tries a provider's settings with the key of the request, if it is not
/// blank: ready for the mock provider, otherwise the method and URL of the
/// request it would make; the check's message when it fails.
pub fn test_model_connection(request: &TestModelRequest) -> (r: Result<TestModelConnectionResponse, String>)
    ensures
        match settings_failure(request.settings, request.api_key) {
            Some(m) => r matches Err(e) && e@ == m,
            None => r matches Ok(t) && t.provider@ == request.settings.provider@ && t.request_valid && t.message@
                == match config_check(model_config(request.settings)) {
                Ok(ProviderKind::Mock) => "mock provider ready"@,
                Ok(kind) => "request shape valid: POST "@ + settings_endpoint(request.settings, kind),
                Err(_) => Seq::empty(),
            },
        },
{
    let config = model_settings_to_provider_config(&request.settings);
    let credentials = credentials_for(&request.api_key);
    let c = match &credentials {
        Some(c) => Some(c),
        None => None,
    };
    proof {
        assert(model_config(request.settings) == config);
    }
    match crate::provider_http::test_provider_connection(&config, c) {
        Ok(t) => Ok(TestModelConnectionResponse { provider: t.provider, request_valid: t.request_valid, message: t.message }),
        Err(e) => Err(e.message()),
    }
}

/// The sanitized request used to try a provider's JSON output.
pub fn sample_sanitized_ai_request() -> (r: SanitizedAiRequest)
    ensures
        r.prompt@ == "Return a JSON suggestion for this sanitized file list."@,
        r.files@.len() == 1,
        r.files@[0].token@ == "file_test"@,
        opt_view(r.files@[0].extension) == Some("txt"@),
        opt_view(r.files@[0].mime) == Some("text/plain"@),
        r.files@[0].size_bucket == SizeBucket::Small,
        r.files@[0].path_depth == 1,
{
    let mut files: Vec<SanitizedFileInput> = Vec::new();
    files.push(
        SanitizedFileInput {
            token: String::from_str("file_test"),
            extension: Some(String::from_str("txt")),
            mime: Some(String::from_str("text/plain")),
            size_bucket: SizeBucket::Small,
            path_depth: 1,
        },
    );
    SanitizedAiRequest { prompt: String::from_str("Return a JSON suggestion for this sanitized file list."), files }
}

/// The structured suggestion a provider is expected to send in the JSON
/// output test, as `serde_json` writes it (keys in order).
pub open spec fn sample_content() -> Seq<char> {
    "{\"categories\":[{\"category\":\"Documents\",\"confidence\":90,\"file_token\":\"file_test\"}],\"summary\":\"JSON output validation passed.\"}"@
}

/// The raw response a provider of this kind would send with the sample
/// content: wrapped as a chat completion, as an Ollama response, or bare.
pub open spec fn sample_response(kind: Option<ProviderKind>) -> Seq<char> {
    match kind {
        Some(ProviderKind::OpenAiCompatible) => "{\"choices\":[{\"message\":{\"content\":"@ + crate::json::json_str(
            sample_content(),
        ) + "}}]}"@,
        Some(ProviderKind::Ollama) => "{\"response\":"@ + crate::json::json_str(sample_content()) + "}"@,
        _ => sample_content(),
    }
}

/// The raw response a provider would send in the JSON output test.
pub fn sample_provider_json_response(provider: &str) -> (r: String)
    ensures
        r@ == sample_response(crate::ai_gateway::provider_kind(provider@)),
{
    let content = "{\"categories\":[{\"category\":\"Documents\",\"confidence\":90,\"file_token\":\"file_test\"}],\"summary\":\"JSON output validation passed.\"}";
    match crate::ai_gateway::parse_provider_kind(provider) {
        Ok(ProviderKind::OpenAiCompatible) => String::from_str("{\"choices\":[{\"message\":{\"content\":").concat(
            crate::text::string_of(&crate::json::json_str_of(content)).as_str(),
        ).concat("}}]}"),
        Ok(ProviderKind::Ollama) => String::from_str("{\"response\":").concat(
            crate::text::string_of(&crate::json::json_str_of(content)).as_str(),
        ).concat("}"),
        _ => String::from_str(content),
    }
}

/// `r` answers the JSON output test for lookups `l` of the structured text.
pub open spec fn json_output_as(
    r: Result<TestModelJsonOutputResponse, String>,
    provider: Seq<char>,
    l: crate::suggestion::SuggestionLookups,
    tokens: Seq<Seq<char>>,
) -> bool {
    match crate::suggestion::suggestion_outcome(l, tokens) {
        Ok((s, v)) => r matches Ok(x) && x.provider@ == provider && x.valid && x.summary@ == s && x.categories_count
            == v.len(),
        Err(m) => r matches Err(e) && e@ == m,
    }
}

/// Tries a provider's JSON output without calling it: the request must be
/// buildable, and the sample response must read as a structured suggestion
/// for the sample request. The answer carries the provider, the summary and
/// the number of category suggestions; otherwise the message of the first
/// failure.
pub fn test_model_json_output(request: &TestModelRequest) -> (r: Result<TestModelJsonOutputResponse, String>)
    ensures
        match settings_failure(request.settings, request.api_key) {
            Some(m) => r matches Err(e) && e@ == m,
            None => match config_check(model_config(request.settings)) {
                Ok(kind) => match crate::suggestion::structured_text(kind, sample_response(Some(kind))) {
                    Err(m) => r matches Err(e) && e@ == m,
                    Ok(t) => exists|l: crate::suggestion::SuggestionLookups|
                        crate::suggestion::is_read_of(l, t) && json_output_as(
                            r,
                            request.settings.provider@,
                            l,
                            seq!["file_test"@],
                        ),
                },
                Err(_) => true,
            },
        },
{
    let config = model_settings_to_provider_config(&request.settings);
    let credentials = credentials_for(&request.api_key);
    let c = match &credentials {
        Some(c) => Some(c),
        None => None,
    };
    proof {
        assert(model_config(request.settings) == config);
    }
    let sanitized = sample_sanitized_ai_request();
    match crate::provider_http::build_provider_request(&config, &sanitized, c) {
        Ok(_) => {},
        Err(e) => {
            return Err(e.message());
        },
    }
    let raw = sample_provider_json_response(request.settings.provider.as_str());
    proof {
        assert(crate::suggestion::request_tokens(sanitized) =~= seq!["file_test"@]);
    }
    let r = match crate::suggestion::parse_provider_response(request.settings.provider.as_str(), raw.as_str(), &sanitized) {
        Ok(s) => {
            let count = s.categories.len();
            Ok(TestModelJsonOutputResponse { provider: s.provider, valid: true, summary: s.summary, categories_count: count })
        },
        Err(e) => Err(e.message()),
    };
    r
}

} // verus!
