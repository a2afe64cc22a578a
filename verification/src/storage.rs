//! What the local store keeps and how its rows are read back: file rows,
//! history lines read from stored batch records, saved skills and provider
//! settings (never a credential).

use vstd::prelude::*;
use vstd::string::StringSliceAdditionalSpecFns;
use crate::clock::{chrono_represents, Timestamp};
use crate::hashing::{hex_text, sha256_of};
use crate::ids::uuid_parsed;
use crate::model::{FileItem, HistorySummaryDto, Skill, SkillRule};
use crate::suggestion::{json_at, JsonFound, JsonLookup};

verus! {

broadcast use crate::text::lemma_chars_deep_view;

/// Saved settings of one provider, without any credential.
#[derive(Debug, Clone, PartialEq, Eq)]
pub struct AiProviderSettings {
    pub provider: String,
    pub base_url: Option<String>,
    pub cloud_enabled: bool,
    pub model: Option<String>,
}

/// A scan task as stored.
#[derive(Debug, Clone, PartialEq, Eq)]
pub struct ScanTaskRecord {
    pub task_id: String,
    pub root_path: String,
    pub mode: String,
    pub os: String,
    pub status: String,
}

/// A skill as stored: its id as text.
#[derive(Debug, Clone, PartialEq, Eq)]
pub struct StoredSkill {
    pub id: String,
    pub name: String,
    pub enabled: bool,
    pub rule: SkillRule,
}

/// A skill as the classifier uses it: the stored id when it reads as a
/// UUID (a new one otherwise), stamped with the current time.
pub fn stored_skill_to_core(skill: StoredSkill) -> (r: Skill)
    ensures
        uuid_parsed(skill.id@) is Ok ==> r.id == uuid_parsed(skill.id@)->Ok_0,
        r.name == skill.name,
        r.enabled == skill.enabled,
        r.rule == skill.rule,
{
    let id = match crate::ids::parse_id(skill.id.as_str()) {
        Ok(v) => v,
        Err(_) => crate::ids::new_id(),
    };
    Skill { id, name: skill.name, enabled: skill.enabled, rule: skill.rule, created_at: crate::clock::now() }
}

/// The hash a path is stored under.
pub fn hash_path(path: &str) -> (r: String)
    ensures
        r@ == hex_text(sha256_of(path.spec_bytes())),
{
    crate::hashing::sha256_hex(path)
}

/// A size as the store keeps it: sizes beyond `i64::MAX` are kept as
/// `i64::MAX`.
pub fn size_to_i64(value: u64) -> (r: i64)
    ensures
        r == if value <= i64::MAX as u64 {
            value as i64
        } else {
            i64::MAX
        },
{
    if value <= 9223372036854775807u64 {
        value as i64
    } else {
        i64::MAX
    }
}

/// The time stored as whole seconds, when `chrono` can represent it.
pub open spec fn stored_time(seconds: Option<i64>) -> Option<Timestamp> {
    match seconds {
        Some(s) => if chrono_represents(s, 0) {
            Some(Timestamp { seconds: s, nanos: 0 })
        } else {
            None
        },
        None => None,
    }
}

/// The time stored as whole seconds.
pub fn stored_time_of(seconds: Option<i64>) -> (r: Option<Timestamp>)
    ensures
        r == stored_time(seconds),
{
    match seconds {
        Some(s) => if crate::clock::represents(s, 0) {
            Some(Timestamp { seconds: s, nanos: 0 })
        } else {
            None
        },
        None => None,
    }
}

/// A file row as the store returns it.
#[derive(Debug, Clone, PartialEq, Eq)]
pub struct StoredFileRow {
    pub id: String,
    pub root_path: String,
    pub relative_path: String,
    pub path: String,
    pub file_name: String,
    pub extension: Option<String>,
    pub size_bytes: i64,
    pub created_at: Option<i64>,
    pub modified_at: Option<i64>,
    pub accessed_at: Option<i64>,
    pub is_hidden: i64,
    pub is_symlink: i64,
    pub mime_type: Option<String>,
    pub path_hash: String,
    pub indexed_at: i64,
}

/// `f` is the file a row describes: negative sizes read as zero, flags as
/// non-zero, times as whole seconds (the indexing time, when it cannot be
/// represented, is any time).
pub open spec fn is_file_of_row(f: FileItem, row: StoredFileRow) -> bool {
    &&& uuid_parsed(row.id@) == Ok::<u128, Seq<char>>(f.id)
    &&& f.root == row.root_path
    &&& f.path == row.path
    &&& f.relative_path == row.relative_path
    &&& f.file_name == row.file_name
    &&& f.extension == row.extension
    &&& f.size_bytes == if row.size_bytes < 0 {
        0
    } else {
        row.size_bytes as u64
    }
    &&& f.created_at == stored_time(row.created_at)
    &&& f.modified_at == stored_time(row.modified_at)
    &&& f.accessed_at == stored_time(row.accessed_at)
    &&& f.is_hidden == (row.is_hidden != 0)
    &&& f.is_symlink == (row.is_symlink != 0)
    &&& f.mime_type == row.mime_type
    &&& f.path_hash == row.path_hash
    &&& (stored_time(Some(row.indexed_at)) is Some ==> Some(f.indexed_at) == stored_time(Some(row.indexed_at)))
}

/// The file a stored row describes; the id must read as a UUID, else the
/// error's message.
pub fn row_to_file_item(row: StoredFileRow) -> (r: Result<FileItem, String>)
    ensures
        match uuid_parsed(row.id@) {
            Err(e) => r matches Err(m) && m@ == e,
            Ok(_) => r matches Ok(f) && is_file_of_row(f, row),
        },
{
    let id = match crate::ids::parse_id(row.id.as_str()) {
        Ok(v) => v,
        Err(e) => {
            return Err(e);
        },
    };
    let indexed_at = match stored_time_of(Some(row.indexed_at)) {
        Some(t) => t,
        None => crate::clock::now(),
    };
    Ok(FileItem {
        id,
        root: row.root_path,
        path: row.path,
        relative_path: row.relative_path,
        file_name: row.file_name,
        extension: row.extension,
        size_bytes: if row.size_bytes < 0 {
            0
        } else {
            row.size_bytes as u64
        },
        created_at: stored_time_of(row.created_at),
        modified_at: stored_time_of(row.modified_at),
        accessed_at: stored_time_of(row.accessed_at),
        is_hidden: row.is_hidden != 0,
        is_symlink: row.is_symlink != 0,
        mime_type: row.mime_type,
        path_hash: row.path_hash,
        indexed_at,
    })
}

/// The length of an array found in a stored record.
pub open spec fn array_len(f: JsonFound) -> Option<nat> {
    match f {
        JsonFound::Items(n) => Some(n),
        _ => None,
    }
}

/// A string found in a stored record.
pub open spec fn found_text(f: JsonFound) -> Option<Seq<char>> {
    match f {
        JsonFound::Text(t) => Some(t),
        _ => None,
    }
}

/// The number of operations in a stored batch record (written in camel
/// case, or else in snake case); zero when neither is an array.
pub open spec fn stored_operation_count(raw: Seq<char>) -> nat {
    match array_len(json_at(raw, "/executedOperations"@)) {
        Some(n) => n,
        None => match array_len(json_at(raw, "/executed_operations"@)) {
            Some(n) => n,
            None => 0,
        },
    }
}

/// A time in a stored batch record under its camel-case key, or else its
/// snake-case key; the row's creation time when the key found is not a
/// string.
pub open spec fn stored_time_text(raw: Seq<char>, camel: Seq<char>, snake: Seq<char>, created_at: Seq<char>) -> Seq<char> {
    let first = json_at(raw, camel);
    let chosen = if first is Missing {
        json_at(raw, snake)
    } else {
        first
    };
    match found_text(chosen) {
        Some(t) => t,
        None => created_at,
    }
}

/// The length of an array lookup.
fn array_len_of(l: &JsonLookup) -> (r: Option<usize>)
    ensures
        match r {
            Some(n) => array_len(crate::suggestion::found(*l)) == Some(n as nat),
            None => array_len(crate::suggestion::found(*l)) is None,
        },
{
    match l {
        JsonLookup::Items(n) => Some(*n),
        _ => None,
    }
}

/// A time in a stored batch record.
fn stored_time_text_of(raw: &str, camel: &str, snake: &str, created_at: &String) -> (r: String)
    ensures
        r@ == stored_time_text(raw@, camel@, snake@, created_at@),
{
    let first = crate::suggestion::json_lookup(raw, camel);
    let chosen = match first {
        JsonLookup::Missing => crate::suggestion::json_lookup(raw, snake),
        other => other,
    };
    match chosen {
        JsonLookup::Text(t) => t,
        _ => created_at.clone(),
    }
}

/// A line of the execution history, read from a stored batch record: the
/// counts of its operations and errors, and its times (the row's creation
/// time where the record has none). A record that is not JSON is refused
/// as the store reports a column it cannot convert: the column (text, at
/// index 3) and the parser's message.
pub fn row_to_history_summary(
    batch_id: String,
    plan_id: String,
    status: String,
    rollback_json: String,
    created_at: String,
) -> (r: Result<HistorySummaryDto, String>)
    ensures
        match json_at(rollback_json@, "/executedOperations"@) {
            JsonFound::Invalid(e) => r matches Err(m) && m@ == "Conversion error from type Text at index: 3, "@ + e,
            _ => r matches Ok(h) && {
                &&& h.batch_id == batch_id
                &&& h.plan_id == plan_id
                &&& h.status == status
                &&& h.operation_count == stored_operation_count(rollback_json@)
                &&& h.error_count == match array_len(json_at(rollback_json@, "/errors"@)) {
                    Some(n) => n,
                    None => 0,
                }
                &&& h.started_at@ == stored_time_text(rollback_json@, "/startedAt"@, "/started_at"@, created_at@)
                &&& h.finished_at@ == stored_time_text(
                    rollback_json@,
                    "/finishedAt"@,
                    "/finished_at"@,
                    created_at@,
                )
            },
        },
{
    let raw = rollback_json.as_str();
    let camel = crate::suggestion::json_lookup(raw, "/executedOperations");
    match &camel {
        JsonLookup::Invalid(e) => {
            return Err(String::from_str("Conversion error from type Text at index: 3, ").concat(e.as_str()));
        },
        _ => {},
    }
    let operation_count: usize = match array_len_of(&camel) {
        Some(n) => n,
        None => match array_len_of(&crate::suggestion::json_lookup(raw, "/executed_operations")) {
            Some(n) => n,
            None => 0,
        },
    };
    let error_count: usize = match array_len_of(&crate::suggestion::json_lookup(raw, "/errors")) {
        Some(n) => n,
        None => 0,
    };
    let started_at = stored_time_text_of(raw, "/startedAt", "/started_at", &created_at);
    let finished_at = stored_time_text_of(raw, "/finishedAt", "/finished_at", &created_at);
    Ok(HistorySummaryDto { batch_id, plan_id, status, operation_count, error_count, started_at, finished_at })
}

} // verus!
