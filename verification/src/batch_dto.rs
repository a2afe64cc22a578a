//! Execution batches as the front end and the history store see them, and
//! back: every id and time as text, every operation and rollback action as
//! a stable key with its paths.

use vstd::prelude::*;
use crate::clock::rfc3339_time;
use crate::ids::{uuid_parsed, uuid_text};
use crate::keys::{execution_status_key, execution_status_named, is_kind_from_parts, operation_type, parts_error};
use crate::model::{
    kind_destination, kind_source, ExecutedOperation, ExecutedOperationDto, ExecutionBatch,
    ExecutionBatchDto, ExecutionError, ExecutionErrorDto, RollbackAction, RollbackEntry,
    RollbackEntryDto,
};
use crate::plan_dto::{id_reads_back, id_text_opt, id_text_opt_of, time_reads_back, time_text, time_text_of};
use crate::skill_engine::opt_view;

verus! {

broadcast use crate::text::lemma_chars_deep_view;

/// The first failure among the first `k` items.
pub open spec fn first_error<T>(s: Seq<T>, err: spec_fn(T) -> Option<Seq<char>>, k: int) -> Option<Seq<char>>
    decreases k,
{
    if k <= 0 {
        None
    } else {
        match first_error(s, err, k - 1) {
            Some(m) => Some(m),
            None => err(s[k - 1]),
        }
    }
}

/// Once an item fails, later items do not change the failure.
pub proof fn lemma_first_error_stays<T>(s: Seq<T>, err: spec_fn(T) -> Option<Seq<char>>, k: int, n: int)
    requires
        0 <= k <= n,
        first_error(s, err, k) is Some,
    ensures
        first_error(s, err, n) == first_error(s, err, k),
    decreases n - k,
{
    if k < n {
        lemma_first_error_stays(s, err, k + 1, n);
    }
}

/// The key and paths of a rollback action: the folder to remove, or where
/// a file goes back from and to.
pub open spec fn action_parts(a: RollbackAction) -> (Seq<char>, Option<Seq<char>>, Option<Seq<char>>) {
    match a {
        RollbackAction::RemoveCreatedFolder { path } => ("remove_created_folder"@, Some(path@), None),
        RollbackAction::MoveFileBack { from, to } => ("move_file_back"@, Some(from@), Some(to@)),
        RollbackAction::RenameFileBack { from, to } => ("rename_file_back"@, Some(from@), Some(to@)),
    }
}

/// `d` shows rollback record `e`.
pub open spec fn is_entry_dto_of(d: RollbackEntryDto, e: RollbackEntry) -> bool {
    &&& d.batch_id@ == uuid_text(e.batch_id)
    &&& d.operation_id@ == uuid_text(e.operation_id)
    &&& (d.action@, opt_view(d.from), opt_view(d.to)) == action_parts(e.action)
    &&& d.created_at@ == time_text(e.created_at)
    &&& uuid_parsed(d.batch_id@) == Ok::<u128, Seq<char>>(e.batch_id)
    &&& uuid_parsed(d.operation_id@) == Ok::<u128, Seq<char>>(e.operation_id)
    &&& time_reads_back(d.created_at@, e.created_at)
}

/// A rollback record as the front end shows it.
pub fn rollback_to_dto(entry: &RollbackEntry) -> (r: RollbackEntryDto)
    ensures
        is_entry_dto_of(r, *entry),
{
    let (action, from, to) = match &entry.action {
        RollbackAction::RemoveCreatedFolder { path } => ("remove_created_folder", Some(path.clone()), None),
        RollbackAction::MoveFileBack { from, to } => ("move_file_back", Some(from.clone()), Some(to.clone())),
        RollbackAction::RenameFileBack { from, to } => ("rename_file_back", Some(from.clone()), Some(to.clone())),
    };
    RollbackEntryDto {
        batch_id: crate::ids::id_text(entry.batch_id),
        operation_id: crate::ids::id_text(entry.operation_id),
        action: String::from_str(action),
        from,
        to,
        created_at: time_text_of(entry.created_at),
    }
}

/// Why a shown rollback action is not one, if it is not.
pub open spec fn action_error(d: RollbackEntryDto) -> Option<Seq<char>> {
    let a = d.action@;
    if a == "remove_created_folder"@ {
        if d.from is None {
            Some("remove_created_folder rollback missing path"@)
        } else {
            None
        }
    } else if a == "move_file_back"@ {
        if d.from is None {
            Some("move_file_back rollback missing from"@)
        } else if d.to is None {
            Some("move_file_back rollback missing to"@)
        } else {
            None
        }
    } else if a == "rename_file_back"@ {
        if d.from is None {
            Some("rename_file_back rollback missing from"@)
        } else if d.to is None {
            Some("rename_file_back rollback missing to"@)
        } else {
            None
        }
    } else {
        Some("unsupported rollback action: "@ + a)
    }
}

/// Why a shown rollback record is not one, if it is not: its action, its
/// batch id, its operation id, then its time.
pub open spec fn entry_dto_error(d: RollbackEntryDto) -> Option<Seq<char>> {
    match action_error(d) {
        Some(m) => Some(m),
        None => match uuid_parsed(d.batch_id@) {
            Err(e) => Some("invalid batch_id: "@ + e),
            Ok(_) => match uuid_parsed(d.operation_id@) {
                Err(e) => Some("invalid operation_id: "@ + e),
                Ok(_) => match rfc3339_time(d.created_at@) {
                    Err(e) => Some("invalid rollback created_at: "@ + e),
                    Ok(_) => None,
                },
            },
        },
    }
}

/// `e` is the rollback record that `d` shows: the action by its key (a
/// folder to remove ignores `to`).
pub open spec fn is_entry_of_dto(e: RollbackEntry, d: RollbackEntryDto) -> bool {
    &&& uuid_parsed(d.batch_id@) == Ok::<u128, Seq<char>>(e.batch_id)
    &&& uuid_parsed(d.operation_id@) == Ok::<u128, Seq<char>>(e.operation_id)
    &&& action_parts(e.action).0 == d.action@
    &&& action_parts(e.action).1 == opt_view(d.from)
    &&& (d.action@ != "remove_created_folder"@ ==> action_parts(e.action).2 == opt_view(d.to))
    &&& rfc3339_time(d.created_at@) == Ok::<(i64, u32), Seq<char>>((e.created_at.seconds, e.created_at.nanos))
}

/// The rollback record that the front end or the history store shows.
pub fn rollback_entry_dto_to_core(entry: &RollbackEntryDto) -> (r: Result<RollbackEntry, String>)
    ensures
        match entry_dto_error(*entry) {
            Some(m) => r matches Err(e) && e@ == m,
            None => r matches Ok(x) && is_entry_of_dto(x, *entry),
        },
{
    let a = crate::text::chars_of(entry.action.as_str());
    let action = if crate::text::text_is(&a, "remove_created_folder") {
        match &entry.from {
            Some(p) => RollbackAction::RemoveCreatedFolder { path: p.clone() },
            None => {
                return Err(String::from_str("remove_created_folder rollback missing path"));
            },
        }
    } else if crate::text::text_is(&a, "move_file_back") {
        let from = match &entry.from {
            Some(p) => p.clone(),
            None => {
                return Err(String::from_str("move_file_back rollback missing from"));
            },
        };
        let to = match &entry.to {
            Some(p) => p.clone(),
            None => {
                return Err(String::from_str("move_file_back rollback missing to"));
            },
        };
        RollbackAction::MoveFileBack { from, to }
    } else if crate::text::text_is(&a, "rename_file_back") {
        let from = match &entry.from {
            Some(p) => p.clone(),
            None => {
                return Err(String::from_str("rename_file_back rollback missing from"));
            },
        };
        let to = match &entry.to {
            Some(p) => p.clone(),
            None => {
                return Err(String::from_str("rename_file_back rollback missing to"));
            },
        };
        RollbackAction::RenameFileBack { from, to }
    } else {
        return Err(String::from_str("unsupported rollback action: ").concat(entry.action.as_str()));
    };
    let batch_id = match crate::ids::parse_id(entry.batch_id.as_str()) {
        Ok(v) => v,
        Err(e) => {
            return Err(String::from_str("invalid batch_id: ").concat(e.as_str()));
        },
    };
    let operation_id = match crate::ids::parse_id(entry.operation_id.as_str()) {
        Ok(v) => v,
        Err(e) => {
            return Err(String::from_str("invalid operation_id: ").concat(e.as_str()));
        },
    };
    let created_at = match crate::clock::parse_rfc3339(entry.created_at.as_str()) {
        Ok(t) => t,
        Err(e) => {
            return Err(String::from_str("invalid rollback created_at: ").concat(e.as_str()));
        },
    };
    Ok(RollbackEntry { batch_id, operation_id, action, created_at })
}

/// `d` shows carried-out operation `o`.
pub open spec fn is_executed_dto_of(d: ExecutedOperationDto, o: ExecutedOperation) -> bool {
    &&& d.operation_id@ == uuid_text(o.operation_id)
    &&& d.operation_type@ == operation_type(o.kind)
    &&& opt_view(d.source) == kind_source(o.kind)
    &&& d.target@ == kind_destination(o.kind)
    &&& d.completed_at@ == time_text(o.completed_at)
    &&& uuid_parsed(d.operation_id@) == Ok::<u128, Seq<char>>(o.operation_id)
    &&& time_reads_back(d.completed_at@, o.completed_at)
}

/// Why a shown operation is not one, if it is not: its kind, its id, then
/// its time.
pub open spec fn executed_dto_error(d: ExecutedOperationDto) -> Option<Seq<char>> {
    match parts_error(d.operation_type@, opt_view(d.source)) {
        Some(m) => Some(m),
        None => match uuid_parsed(d.operation_id@) {
            Err(e) => Some("invalid operation_id: "@ + e),
            Ok(_) => match rfc3339_time(d.completed_at@) {
                Err(e) => Some("invalid completed_at: "@ + e),
                Ok(_) => None,
            },
        },
    }
}

/// `o` is the carried-out operation that `d` shows.
pub open spec fn is_executed_of_dto(o: ExecutedOperation, d: ExecutedOperationDto) -> bool {
    &&& uuid_parsed(d.operation_id@) == Ok::<u128, Seq<char>>(o.operation_id)
    &&& is_kind_from_parts(o.kind, d.operation_type@, opt_view(d.source), d.target@)
    &&& rfc3339_time(d.completed_at@) == Ok::<(i64, u32), Seq<char>>((o.completed_at.seconds, o.completed_at.nanos))
}

/// The carried-out operation that a record shows.
pub fn executed_operation_dto_to_core(operation: &ExecutedOperationDto) -> (r: Result<ExecutedOperation, String>)
    ensures
        match executed_dto_error(*operation) {
            Some(m) => r matches Err(e) && e@ == m,
            None => r matches Ok(o) && is_executed_of_dto(o, *operation),
        },
{
    let source = match &operation.source {
        Some(s) => Some(s.as_str()),
        None => None,
    };
    let kind = match crate::keys::operation_kind_from_parts(
        operation.operation_type.as_str(),
        source,
        operation.target.as_str(),
    ) {
        Ok(k) => k,
        Err(e) => {
            return Err(e);
        },
    };
    let operation_id = match crate::ids::parse_id(operation.operation_id.as_str()) {
        Ok(v) => v,
        Err(e) => {
            return Err(String::from_str("invalid operation_id: ").concat(e.as_str()));
        },
    };
    let completed_at = match crate::clock::parse_rfc3339(operation.completed_at.as_str()) {
        Ok(t) => t,
        Err(e) => {
            return Err(String::from_str("invalid completed_at: ").concat(e.as_str()));
        },
    };
    Ok(ExecutedOperation { operation_id, kind, completed_at })
}

/// An execution error as the front end shows it.
pub open spec fn error_dto_view(d: ExecutionErrorDto) -> (Option<Seq<char>>, Seq<char>) {
    (opt_view(d.operation_id), d.message@)
}

/// `d` shows batch `b`: ids, status and times as texts, each operation,
/// rollback record and error in order.
pub open spec fn is_batch_dto_of(d: ExecutionBatchDto, b: ExecutionBatch) -> bool {
    &&& d.batch_id@ == uuid_text(b.batch_id)
    &&& d.plan_id@ == uuid_text(b.plan_id)
    &&& d.status@ == execution_status_key(b.status)
    &&& d.executed_operations@.len() == b.executed_operations@.len()
    &&& forall|k: int| 0 <= k < d.executed_operations@.len() ==> is_executed_dto_of(
        #[trigger] d.executed_operations@[k],
        b.executed_operations@[k],
    )
    &&& d.rollback_entries@.len() == b.rollback_entries@.len()
    &&& forall|k: int| 0 <= k < d.rollback_entries@.len() ==> is_entry_dto_of(
        #[trigger] d.rollback_entries@[k],
        b.rollback_entries@[k],
    )
    &&& d.errors@.len() == b.errors@.len()
    &&& forall|k: int| 0 <= k < d.errors@.len() ==> error_dto_view(#[trigger] d.errors@[k]) == (
        id_text_opt(b.errors@[k].operation_id),
        b.errors@[k].message@,
    ) && id_reads_back(d.errors@[k].operation_id, b.errors@[k].operation_id)
    &&& d.started_at@ == time_text(b.started_at)
    &&& d.finished_at@ == time_text(b.finished_at)
    &&& uuid_parsed(d.batch_id@) == Ok::<u128, Seq<char>>(b.batch_id)
    &&& uuid_parsed(d.plan_id@) == Ok::<u128, Seq<char>>(b.plan_id)
    &&& time_reads_back(d.started_at@, b.started_at)
    &&& time_reads_back(d.finished_at@, b.finished_at)
}

/// A batch as the front end shows it.
pub fn execution_batch_to_dto(batch: &ExecutionBatch) -> (r: ExecutionBatchDto)
    ensures
        is_batch_dto_of(r, *batch),
{
    let mut executed_operations: Vec<ExecutedOperationDto> = Vec::new();
    let mut i: usize = 0;
    while i < batch.executed_operations.len()
        invariant
            i <= batch.executed_operations@.len(),
            executed_operations@.len() == i,
            forall|k: int| 0 <= k < i ==> is_executed_dto_of(#[trigger] executed_operations@[k], batch.executed_operations@[k]),
        decreases batch.executed_operations.len() - i,
    {
        let o = &batch.executed_operations[i];
        let (key, source, target) = crate::keys::operation_kind_parts(&o.kind);
        executed_operations.push(
            ExecutedOperationDto {
                operation_id: crate::ids::id_text(o.operation_id),
                operation_type: String::from_str(key),
                source,
                target,
                completed_at: time_text_of(o.completed_at),
            },
        );
        i = i + 1;
    }
    let mut rollback_entries: Vec<RollbackEntryDto> = Vec::new();
    let mut i: usize = 0;
    while i < batch.rollback_entries.len()
        invariant
            i <= batch.rollback_entries@.len(),
            rollback_entries@.len() == i,
            forall|k: int| 0 <= k < i ==> is_entry_dto_of(#[trigger] rollback_entries@[k], batch.rollback_entries@[k]),
        decreases batch.rollback_entries.len() - i,
    {
        rollback_entries.push(rollback_to_dto(&batch.rollback_entries[i]));
        i = i + 1;
    }
    let mut errors: Vec<ExecutionErrorDto> = Vec::new();
    let mut i: usize = 0;
    while i < batch.errors.len()
        invariant
            i <= batch.errors@.len(),
            errors@.len() == i,
            forall|k: int| 0 <= k < i ==> error_dto_view(#[trigger] errors@[k]) == (
                id_text_opt(batch.errors@[k].operation_id),
                batch.errors@[k].message@,
            ) && id_reads_back(errors@[k].operation_id, batch.errors@[k].operation_id),
        decreases batch.errors.len() - i,
    {
        let e = &batch.errors[i];
        errors.push(ExecutionErrorDto { operation_id: id_text_opt_of(e.operation_id), message: e.message.clone() });
        i = i + 1;
    }
    ExecutionBatchDto {
        batch_id: crate::ids::id_text(batch.batch_id),
        plan_id: crate::ids::id_text(batch.plan_id),
        status: String::from_str(crate::keys::execution_status_key_of(&batch.status)),
        executed_operations,
        rollback_entries,
        errors,
        started_at: time_text_of(batch.started_at),
        finished_at: time_text_of(batch.finished_at),
    }
}

/// Why a shown error is not one, if it is not.
pub open spec fn error_dto_error(d: ExecutionErrorDto) -> Option<Seq<char>> {
    match d.operation_id {
        Some(id) => match uuid_parsed(id@) {
            Err(e) => Some("invalid operation_id: "@ + e),
            Ok(_) => None,
        },
        None => None,
    }
}

/// Why a shown batch is not one, if it is not: its ids, its status, its
/// operations, records and errors in order, then its times.
pub open spec fn batch_dto_error(d: ExecutionBatchDto) -> Option<Seq<char>> {
    match uuid_parsed(d.batch_id@) {
        Err(e) => Some("invalid batch_id: "@ + e),
        Ok(_) => match uuid_parsed(d.plan_id@) {
            Err(e) => Some("invalid plan_id: "@ + e),
            Ok(_) => match execution_status_named(d.status@) {
                None => Some("unsupported execution status: "@ + d.status@),
                Some(_) => match first_error(
                    d.executed_operations@,
                    |o: ExecutedOperationDto| executed_dto_error(o),
                    d.executed_operations@.len() as int,
                ) {
                    Some(m) => Some(m),
                    None => match first_error(
                        d.rollback_entries@,
                        |x: RollbackEntryDto| entry_dto_error(x),
                        d.rollback_entries@.len() as int,
                    ) {
                        Some(m) => Some(m),
                        None => match first_error(
                            d.errors@,
                            |x: ExecutionErrorDto| error_dto_error(x),
                            d.errors@.len() as int,
                        ) {
                            Some(m) => Some(m),
                            None => match rfc3339_time(d.started_at@) {
                                Err(e) => Some("invalid started_at: "@ + e),
                                Ok(_) => match rfc3339_time(d.finished_at@) {
                                    Err(e) => Some("invalid finished_at: "@ + e),
                                    Ok(_) => None,
                                },
                            },
                        },
                    },
                },
            },
        },
    }
}

/// `b` is the batch that `d` shows.
pub open spec fn is_batch_of_dto(b: ExecutionBatch, d: ExecutionBatchDto) -> bool {
    &&& uuid_parsed(d.batch_id@) == Ok::<u128, Seq<char>>(b.batch_id)
    &&& uuid_parsed(d.plan_id@) == Ok::<u128, Seq<char>>(b.plan_id)
    &&& execution_status_named(d.status@) == Some(b.status)
    &&& b.executed_operations@.len() == d.executed_operations@.len()
    &&& forall|k: int| 0 <= k < b.executed_operations@.len() ==> is_executed_of_dto(
        #[trigger] b.executed_operations@[k],
        d.executed_operations@[k],
    )
    &&& b.rollback_entries@.len() == d.rollback_entries@.len()
    &&& forall|k: int| 0 <= k < b.rollback_entries@.len() ==> is_entry_of_dto(
        #[trigger] b.rollback_entries@[k],
        d.rollback_entries@[k],
    )
    &&& b.errors@.len() == d.errors@.len()
    &&& forall|k: int| 0 <= k < b.errors@.len() ==> {
        &&& (#[trigger] b.errors@[k]).message@ == d.errors@[k].message@
        &&& match d.errors@[k].operation_id {
            Some(id) => uuid_parsed(id@) is Ok && b.errors@[k].operation_id == Some(uuid_parsed(id@)->Ok_0),
            None => b.errors@[k].operation_id is None,
        }
    }
    &&& rfc3339_time(d.started_at@) == Ok::<(i64, u32), Seq<char>>((b.started_at.seconds, b.started_at.nanos))
    &&& rfc3339_time(d.finished_at@) == Ok::<(i64, u32), Seq<char>>((b.finished_at.seconds, b.finished_at.nanos))
}

/// The carried-out operations a batch record shows.
fn executed_from_dtos(v: &Vec<ExecutedOperationDto>) -> (r: Result<Vec<ExecutedOperation>, String>)
    ensures
        match first_error(v@, |o: ExecutedOperationDto| executed_dto_error(o), v@.len() as int) {
            Some(m) => r matches Err(e) && e@ == m,
            None => r matches Ok(out) && out@.len() == v@.len() && forall|k: int| 0 <= k < out@.len() ==> is_executed_of_dto(
                #[trigger] out@[k],
                v@[k],
            ),
        },
{
    let ghost f = |o: ExecutedOperationDto| executed_dto_error(o);
    let mut out: Vec<ExecutedOperation> = Vec::new();
    let mut i: usize = 0;
    while i < v.len()
        invariant
            i <= v@.len(),
            f == (|o: ExecutedOperationDto| executed_dto_error(o)),
            first_error(v@, f, i as int) is None,
            out@.len() == i,
            forall|k: int| 0 <= k < i ==> is_executed_of_dto(#[trigger] out@[k], v@[k]),
        decreases v.len() - i,
    {
        match executed_operation_dto_to_core(&v[i]) {
            Ok(o) => {
                out.push(o);
            },
            Err(e) => {
                proof {
                    lemma_first_error_stays(v@, f, i + 1, v@.len() as int);
                }
                return Err(e);
            },
        }
        i = i + 1;
    }
    Ok(out)
}

/// The rollback records a batch record shows.
fn entries_from_dtos(v: &Vec<RollbackEntryDto>) -> (r: Result<Vec<RollbackEntry>, String>)
    ensures
        match first_error(v@, |x: RollbackEntryDto| entry_dto_error(x), v@.len() as int) {
            Some(m) => r matches Err(e) && e@ == m,
            None => r matches Ok(out) && out@.len() == v@.len() && forall|k: int| 0 <= k < out@.len() ==> is_entry_of_dto(
                #[trigger] out@[k],
                v@[k],
            ),
        },
{
    let ghost f = |x: RollbackEntryDto| entry_dto_error(x);
    let mut out: Vec<RollbackEntry> = Vec::new();
    let mut i: usize = 0;
    while i < v.len()
        invariant
            i <= v@.len(),
            f == (|x: RollbackEntryDto| entry_dto_error(x)),
            first_error(v@, f, i as int) is None,
            out@.len() == i,
            forall|k: int| 0 <= k < i ==> is_entry_of_dto(#[trigger] out@[k], v@[k]),
        decreases v.len() - i,
    {
        match rollback_entry_dto_to_core(&v[i]) {
            Ok(x) => {
                out.push(x);
            },
            Err(e) => {
                proof {
                    lemma_first_error_stays(v@, f, i + 1, v@.len() as int);
                }
                return Err(e);
            },
        }
        i = i + 1;
    }
    Ok(out)
}

/// The errors a batch record shows.
fn errors_from_dtos(v: &Vec<ExecutionErrorDto>) -> (r: Result<Vec<ExecutionError>, String>)
    ensures
        match first_error(v@, |x: ExecutionErrorDto| error_dto_error(x), v@.len() as int) {
            Some(m) => r matches Err(e) && e@ == m,
            None => r matches Ok(out) && out@.len() == v@.len() && forall|k: int| 0 <= k < out@.len() ==> {
                &&& (#[trigger] out@[k]).message@ == v@[k].message@
                &&& match v@[k].operation_id {
                    Some(id) => uuid_parsed(id@) is Ok && out@[k].operation_id == Some(uuid_parsed(id@)->Ok_0),
                    None => out@[k].operation_id is None,
                }
            },
        },
{
    let ghost f = |x: ExecutionErrorDto| error_dto_error(x);
    let mut out: Vec<ExecutionError> = Vec::new();
    let mut i: usize = 0;
    while i < v.len()
        invariant
            i <= v@.len(),
            f == (|x: ExecutionErrorDto| error_dto_error(x)),
            first_error(v@, f, i as int) is None,
            out@.len() == i,
            forall|k: int| 0 <= k < i ==> {
                &&& (#[trigger] out@[k]).message@ == v@[k].message@
                &&& match v@[k].operation_id {
                    Some(id) => uuid_parsed(id@) is Ok && out@[k].operation_id == Some(uuid_parsed(id@)->Ok_0),
                    None => out@[k].operation_id is None,
                }
            },
        decreases v.len() - i,
    {
        let d = &v[i];
        let operation_id = match &d.operation_id {
            Some(id) => match crate::ids::parse_id(id.as_str()) {
                Ok(x) => Some(x),
                Err(e) => {
                    proof {
                        lemma_first_error_stays(v@, f, i + 1, v@.len() as int);
                    }
                    return Err(String::from_str("invalid operation_id: ").concat(e.as_str()));
                },
            },
            None => None,
        };
        out.push(ExecutionError { operation_id, message: d.message.clone() });
        i = i + 1;
    }
    Ok(out)
}

/// The batch that the front end or the history store shows.
pub fn execution_batch_dto_to_core(batch: &ExecutionBatchDto) -> (r: Result<ExecutionBatch, String>)
    ensures
        match batch_dto_error(*batch) {
            Some(m) => r matches Err(e) && e@ == m,
            None => r matches Ok(b) && is_batch_of_dto(b, *batch),
        },
{
    let batch_id = match crate::ids::parse_id(batch.batch_id.as_str()) {
        Ok(v) => v,
        Err(e) => {
            return Err(String::from_str("invalid batch_id: ").concat(e.as_str()));
        },
    };
    let plan_id = match crate::ids::parse_id(batch.plan_id.as_str()) {
        Ok(v) => v,
        Err(e) => {
            return Err(String::from_str("invalid plan_id: ").concat(e.as_str()));
        },
    };
    let status = match crate::keys::parse_execution_status(batch.status.as_str()) {
        Ok(s) => s,
        Err(e) => {
            return Err(e);
        },
    };
    let executed_operations = match executed_from_dtos(&batch.executed_operations) {
        Ok(v) => v,
        Err(e) => {
            return Err(e);
        },
    };
    let rollback_entries = match entries_from_dtos(&batch.rollback_entries) {
        Ok(v) => v,
        Err(e) => {
            return Err(e);
        },
    };
    let errors = match errors_from_dtos(&batch.errors) {
        Ok(v) => v,
        Err(e) => {
            return Err(e);
        },
    };
    let started_at = match crate::clock::parse_rfc3339(batch.started_at.as_str()) {
        Ok(t) => t,
        Err(e) => {
            return Err(String::from_str("invalid started_at: ").concat(e.as_str()));
        },
    };
    let finished_at = match crate::clock::parse_rfc3339(batch.finished_at.as_str()) {
        Ok(t) => t,
        Err(e) => {
            return Err(String::from_str("invalid finished_at: ").concat(e.as_str()));
        },
    };
    Ok(ExecutionBatch { batch_id, plan_id, status, executed_operations, rollback_entries, errors, started_at, finished_at })
}

} // verus!
