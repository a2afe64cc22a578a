//! Undoing an execution batch: its rollback entries are undone newest
//! first, each on its own, and every failure is kept with its entry.
//!
//! The caller changes the file system: `RollbackRun` names the next step
//! and takes back what came of it.

use vstd::prelude::*;
use crate::model::{ExecutionBatch, ExecutionError, RollbackAction, RollbackEntry, RollbackResult};
use crate::path::{parent_components, render};

verus! {

broadcast use crate::text::lemma_chars_deep_view;

/// A rollback record of operation `operation_id` in batch `batch_id`,
/// stamped with the current time.
pub fn rollback_entry(batch_id: u128, operation_id: u128, action: RollbackAction) -> (r: RollbackEntry)
    ensures
        r.batch_id == batch_id,
        r.operation_id == operation_id,
        r.action == action,
{
    RollbackEntry { batch_id, operation_id, action, created_at: crate::clock::now() }
}

/// The canonical text of the parent of a path, as `Path::parent` on the
/// canonical text of the path.
pub open spec fn parent_text(p: Seq<char>) -> Option<Seq<char>> {
    match parent_components(p) {
        Some(cs) => Some(render(cs)),
        None => None,
    }
}

/// The parent folder of a path, as text.
pub fn parent_text_of(p: &str) -> (r: Option<String>)
    ensures
        match r {
            Some(s) => parent_text(p@) == Some(s@),
            None => parent_text(p@) is None,
        },
{
    let cs = crate::path::components_of(&crate::text::chars_of(p));
    proof {
        reveal(crate::path::components);
    }
    if cs.len() == 0 || (cs[cs.len() - 1].len() == 1 && cs[cs.len() - 1][0] == '/') {
        proof {
            if cs@.len() > 0 {
                assert(cs.deep_view().last() =~= seq!['/']);
            }
        }
        return None;
    }
    proof {
        if cs.deep_view().last() == seq!['/'] {
            assert(cs@[cs@.len() - 1]@.len() == 1);
        }
    }
    let mut parent: Vec<Vec<char>> = Vec::new();
    let mut i: usize = 0;
    while i + 1 < cs.len()
        invariant
            i + 1 <= cs@.len(),
            parent.deep_view() == cs.deep_view().subrange(0, i as int),
        decreases cs.len() - i,
    {
        let ghost before = parent.deep_view();
        parent.push(cs[i].clone());
        proof {
            assert(parent.deep_view() =~= before.push(cs.deep_view()[i as int]));
            assert(cs.deep_view().subrange(0, i + 1) =~= cs.deep_view().subrange(0, i as int).push(
                cs.deep_view()[i as int],
            ));
        }
        i = i + 1;
    }
    assert(parent.deep_view() =~= cs.deep_view().drop_last());
    Some(crate::text::string_of(&crate::path::render_of(&parent)))
}

/// What the caller is to do to undo one entry.
#[derive(Debug, PartialEq, Eq)]
pub enum UndoStep {
    /// Remove the folder `path`, if it exists.
    RemoveFolder { path: String },
    /// Create `parent` with its ancestors, when there is one, then move
    /// `from` back to `to`.
    MoveBack { from: String, to: String, parent: Option<String> },
}

/// What came of undoing one entry.
#[derive(Debug, Clone, Copy, PartialEq, Eq, Structural)]
pub enum UndoOutcome {
    /// The entry was undone (a folder that no longer existed counts).
    Undone,
    /// The created folder could not be removed.
    FolderNotRemoved,
    /// The parent folder of the original place could not be created.
    ParentNotRecreated,
    /// The file could not be moved back.
    NotMovedBack,
}

/// An outcome can come of undoing an action: removing a folder is undone
/// or fails; moving back is undone, fails to recreate an existing parent,
/// or fails to move.
pub open spec fn undo_fits(a: RollbackAction, o: UndoOutcome) -> bool {
    match a {
        RollbackAction::RemoveCreatedFolder { .. } => o == UndoOutcome::Undone || o == UndoOutcome::FolderNotRemoved,
        RollbackAction::MoveFileBack { to, .. } => o == UndoOutcome::Undone || o == UndoOutcome::NotMovedBack
            || (o == UndoOutcome::ParentNotRecreated && parent_text(to@) is Some),
        RollbackAction::RenameFileBack { to, .. } => o == UndoOutcome::Undone || o
            == UndoOutcome::NotMovedBack || (o == UndoOutcome::ParentNotRecreated && parent_text(
            to@,
        ) is Some),
    }
}

/// The message of a failure to undo a move or rename from `from` to `to`.
pub open spec fn move_back_failure(from: Seq<char>, to: Seq<char>, o: UndoOutcome) -> Seq<char> {
    if o == UndoOutcome::ParentNotRecreated {
        "failed to recreate "@ + parent_text(to)->0
    } else {
        "failed to move "@ + from + " back to "@ + to
    }
}

/// The message of a failure to undo an action.
pub open spec fn undo_failure(a: RollbackAction, o: UndoOutcome) -> Seq<char> {
    match a {
        RollbackAction::RemoveCreatedFolder { path } => "failed to remove created folder "@ + path@,
        RollbackAction::MoveFileBack { from, to } => move_back_failure(from@, to@, o),
        RollbackAction::RenameFileBack { from, to } => move_back_failure(from@, to@, o),
    }
}

/// An execution error as an operation id and a message.
pub open spec fn error_view(e: ExecutionError) -> (Option<u128>, Seq<char>) {
    (e.operation_id, e.message@)
}

/// Execution errors as operation ids and messages.
pub open spec fn errors_view(v: Seq<ExecutionError>) -> Seq<(Option<u128>, Seq<char>)> {
    v.map_values(|e: ExecutionError| error_view(e))
}

/// The ids of the first `k` entries whose undoing succeeded, in order.
pub open spec fn undone_ids(entries: Seq<RollbackEntry>, outcomes: Seq<UndoOutcome>, k: int) -> Seq<u128>
    decreases k,
{
    if k <= 0 {
        Seq::empty()
    } else {
        undone_ids(entries, outcomes, k - 1) + if outcomes[k - 1] == UndoOutcome::Undone {
            seq![entries[k - 1].operation_id]
        } else {
            Seq::empty()
        }
    }
}

/// The failures of the first `k` entries, in order.
pub open spec fn undo_errors(entries: Seq<RollbackEntry>, outcomes: Seq<UndoOutcome>, k: int) -> Seq<
    (Option<u128>, Seq<char>),
>
    decreases k,
{
    if k <= 0 {
        Seq::empty()
    } else {
        undo_errors(entries, outcomes, k - 1) + if outcomes[k - 1] == UndoOutcome::Undone {
            Seq::empty()
        } else {
            seq![(Some(entries[k - 1].operation_id), undo_failure(entries[k - 1].action, outcomes[k - 1]))]
        }
    }
}

/// Undoing one batch, newest entry first.
pub struct RollbackRun {
    batch_id: u128,
    entries: Vec<RollbackEntry>,
    position: usize,
    rolled_back: Vec<u128>,
    errors: Vec<ExecutionError>,
    outcomes: Ghost<Seq<UndoOutcome>>,
}

impl RollbackRun {
    /// The batch being undone.
    pub closed spec fn batch(&self) -> u128 {
        self.batch_id
    }

    /// The entries to undo, in the order in which they are undone.
    pub closed spec fn entries(&self) -> Seq<RollbackEntry> {
        self.entries@
    }

    /// What came of each entry undone so far.
    pub closed spec fn outcomes(&self) -> Seq<UndoOutcome> {
        self.outcomes@
    }

    /// The run is consistent: the outcomes so far belong to the first
    /// entries, and the results recorded follow from them.
    pub closed spec fn wf(&self) -> bool {
        &&& self.position == self.outcomes@.len()
        &&& self.position <= self.entries@.len()
        &&& forall|k: int| 0 <= k < self.position ==> undo_fits(#[trigger] self.entries@[k].action, self.outcomes@[k])
        &&& self.rolled_back@ == undone_ids(self.entries@, self.outcomes@, self.position as int)
        &&& errors_view(self.errors@) == undo_errors(self.entries@, self.outcomes@, self.position as int)
    }

    /// Every entry has been undone or has failed.
    pub closed spec fn done(&self) -> bool {
        self.outcomes@.len() >= self.entries@.len()
    }

    /// A run over the rollback entries of `batch`, newest first.
    pub fn start(batch: &ExecutionBatch) -> (r: Self)
        ensures
            r.wf(),
            r.batch() == batch.batch_id,
            r.entries() == batch.rollback_entries@.reverse(),
            r.outcomes().len() == 0,
    {
        let mut entries: Vec<RollbackEntry> = Vec::new();
        let n = batch.rollback_entries.len();
        let mut i: usize = n;
        while i > 0
            invariant
                i <= n,
                n == batch.rollback_entries@.len(),
                entries@ == batch.rollback_entries@.subrange(i as int, n as int).reverse(),
            decreases i,
        {
            i = i - 1;
            entries.push(batch.rollback_entries[i].clone());
            assert(entries@ =~= batch.rollback_entries@.subrange(i as int, n as int).reverse());
        }
        assert(batch.rollback_entries@.subrange(0, n as int) =~= batch.rollback_entries@);
        let r = RollbackRun {
            batch_id: batch.batch_id,
            entries,
            position: 0,
            rolled_back: Vec::new(),
            errors: Vec::new(),
            outcomes: Ghost(Seq::empty()),
        };
        assert(errors_view(r.errors@) =~= Seq::<(Option<u128>, Seq<char>)>::empty());
        r
    }

    /// The step that undoes the next entry; none once every entry is done.
    pub fn next_step(&self) -> (r: Option<UndoStep>)
        requires
            self.wf(),
        ensures
            self.done() ==> r is None,
            !self.done() ==> r is Some && match r->0 {
                UndoStep::RemoveFolder { path } => self.entries()[self.outcomes().len() as int].action
                    == (RollbackAction::RemoveCreatedFolder { path }),
                UndoStep::MoveBack { from, to, parent } => {
                    let a = self.entries()[self.outcomes().len() as int].action;
                    &&& (a == (RollbackAction::MoveFileBack { from, to }) || a == (
                    RollbackAction::RenameFileBack { from, to }))
                    &&& match parent {
                        Some(p) => parent_text(to@) == Some(p@),
                        None => parent_text(to@) is None,
                    }
                },
            },
    {
        if self.position >= self.entries.len() {
            return None;
        }
        match &self.entries[self.position].action {
            RollbackAction::RemoveCreatedFolder { path } => Some(UndoStep::RemoveFolder { path: path.clone() }),
            RollbackAction::MoveFileBack { from, to } => Some(
                UndoStep::MoveBack { from: from.clone(), to: to.clone(), parent: parent_text_of(to.as_str()) },
            ),
            RollbackAction::RenameFileBack { from, to } => Some(
                UndoStep::MoveBack { from: from.clone(), to: to.clone(), parent: parent_text_of(to.as_str()) },
            ),
        }
    }

    /// Records what came of undoing the next entry.
    pub fn record(&mut self, outcome: UndoOutcome)
        requires
            old(self).wf(),
            !old(self).done(),
            undo_fits(old(self).entries()[old(self).outcomes().len() as int].action, outcome),
        ensures
            final(self).wf(),
            final(self).batch() == old(self).batch(),
            final(self).entries() == old(self).entries(),
            final(self).outcomes() == old(self).outcomes().push(outcome),
    {
        let ghost old_outcomes = self.outcomes@;
        let ghost entries = self.entries@;
        let k = self.position;
        let n = self.entries.len();
        assert(k < n);
        let id = self.entries[k].operation_id;
        if outcome == UndoOutcome::Undone {
            self.rolled_back.push(id);
        } else {
            let message = match &self.entries[k].action {
                RollbackAction::RemoveCreatedFolder { path } => String::from_str(
                    "failed to remove created folder ",
                ).concat(path.as_str()),
                RollbackAction::MoveFileBack { from, to } => move_back_message(from, to, outcome),
                RollbackAction::RenameFileBack { from, to } => move_back_message(from, to, outcome),
            };
            let ghost before = self.errors@;
            let ghost m = message@;
            self.errors.push(ExecutionError { operation_id: Some(id), message });
            assert(errors_view(self.errors@) =~= errors_view(before).push((Some(id), m)));
        }
        self.outcomes = Ghost(old_outcomes.push(outcome));
        self.position = k + 1;
        proof {
            let out = old_outcomes.push(outcome);
            assert(undone_ids(entries, out, k as int) == undone_ids(entries, old_outcomes, k as int)) by {
                lemma_undo_prefix(entries, old_outcomes, out, k as int);
            }
            assert(undo_errors(entries, out, k as int) == undo_errors(entries, old_outcomes, k as int)) by {
                lemma_undo_prefix(entries, old_outcomes, out, k as int);
            }
            assert(self.rolled_back@ =~= undone_ids(entries, out, k + 1));
            assert(errors_view(self.errors@) =~= undo_errors(entries, out, k + 1));
        }
    }

    /// The result of the run: the batch, the ids undone and the failures.
    pub fn finish(self) -> (r: RollbackResult)
        requires
            self.wf(),
        ensures
            r.batch_id == self.batch(),
            r.rolled_back@ == undone_ids(self.entries(), self.outcomes(), self.outcomes().len() as int),
            errors_view(r.errors@) == undo_errors(self.entries(), self.outcomes(), self.outcomes().len() as int),
    {
        RollbackResult { batch_id: self.batch_id, rolled_back: self.rolled_back, errors: self.errors }
    }
}

/// The message of a failure to move `from` back to `to`.
fn move_back_message(from: &String, to: &String, outcome: UndoOutcome) -> (r: String)
    requires
        outcome == UndoOutcome::ParentNotRecreated ==> parent_text(to@) is Some,
    ensures
        r@ == move_back_failure(from@, to@, outcome),
{
    if outcome == UndoOutcome::ParentNotRecreated {
        match parent_text_of(to.as_str()) {
            Some(p) => String::from_str("failed to recreate ").concat(p.as_str()),
            None => String::new(),
        }
    } else {
        String::from_str("failed to move ").concat(from.as_str()).concat(" back to ").concat(to.as_str())
    }
}

/// Results over the first `k` outcomes do not change when outcomes are added.
proof fn lemma_undo_prefix(entries: Seq<RollbackEntry>, a: Seq<UndoOutcome>, b: Seq<UndoOutcome>, k: int)
    requires
        0 <= k <= a.len(),
        k <= b.len(),
        forall|t: int| 0 <= t < k ==> a[t] == b[t],
    ensures
        undone_ids(entries, a, k) == undone_ids(entries, b, k),
        undo_errors(entries, a, k) == undo_errors(entries, b, k),
    decreases k,
{
    if k > 0 {
        lemma_undo_prefix(entries, a, b, k - 1);
    }
}

/// Starts undoing a batch: its rollback entries, newest first.
pub fn rollback_batch(batch: &ExecutionBatch) -> (r: RollbackRun)
    ensures
        r.wf(),
        r.batch() == batch.batch_id,
        r.entries() == batch.rollback_entries@.reverse(),
        r.outcomes().len() == 0,
{
    RollbackRun::start(batch)
}

} // verus!
