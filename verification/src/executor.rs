//! The executor's decisions: a plan is executed only with a matching
//! approval and after validation, one operation at a time, stopping at the
//! first failure and recording how to undo what was done.
//!
//! The file system is read and changed by the caller: validation takes what
//! the caller observed of each path (`PlanProbes`), and an execution is a
//! state machine (`ExecutionRun`) that names the next operation and takes
//! its outcome back.

use vstd::prelude::*;
use crate::clock::Timestamp;
use crate::model::{
    ExecutedOperation, ExecutionBatch, ExecutionError, ExecutionStatus, FileOperationKind,
    FileOperationPlan, OrganizationPlan, OrganizerError, PlanValidation, RollbackAction,
    RollbackEntry, UserApproval, ValidationIssue,
};
use crate::path::{components, has_parent_dir, path_starts_with, render};
use crate::rollback::{error_view, errors_view, parent_text};

verus! {

broadcast use crate::text::lemma_chars_deep_view;

/// What the caller observed of one path.
#[derive(Debug, PartialEq, Eq)]
pub struct PathProbe {
    pub exists: bool,
    pub is_dir: bool,
    pub is_file: bool,
    /// The canonical text of the nearest existing ancestor of the path (the
    /// path itself when it exists), or the text of the error met looking
    /// for it.
    pub resolved_ancestor: Result<String, String>,
}

/// What the caller observed of the paths of one operation: `target` is the
/// folder of a create-folder operation or the destination of a move or
/// rename; `source` is the source of a move or rename and is not read for a
/// create-folder operation.
#[derive(Debug, PartialEq, Eq)]
pub struct OperationProbe {
    pub source: PathProbe,
    pub target: PathProbe,
}

/// What the caller observed of a plan's paths: the canonical root when it
/// resolves to a directory, whether the root as written is a directory,
/// and one probe per operation, in the plan's order.
#[derive(Debug, PartialEq, Eq)]
pub struct PlanProbes {
    pub root_canonical: Option<String>,
    pub root_is_dir: bool,
    pub operations: Vec<OperationProbe>,
}

/// A validation issue as an operation id and a message.
pub open spec fn issue_view(i: ValidationIssue) -> (Option<u128>, Seq<char>) {
    (i.operation_id, i.message@)
}

/// Validation issues as operation ids and messages.
pub open spec fn issues_view(v: Seq<ValidationIssue>) -> Seq<(Option<u128>, Seq<char>)> {
    v.map_values(|i: ValidationIssue| issue_view(i))
}

/// The issue about the plan root: it must resolve to a directory and be one.
pub open spec fn root_issues(root: Seq<char>, probes: PlanProbes) -> Seq<(Option<u128>, Seq<char>)> {
    if probes.root_canonical is None || !probes.root_is_dir {
        seq![(None, "plan root is not a directory: "@ + root)]
    } else {
        Seq::empty()
    }
}

/// The issues that keep a path of operation `id` inside the root: no `..`
/// component, lexically under the root, and, when the root resolves, its
/// nearest existing ancestor resolving under the resolved root. At most
/// one issue, the first that applies.
pub open spec fn containment_issues(
    path: Seq<char>,
    root: Seq<char>,
    root_canonical: Option<String>,
    probe: PathProbe,
    id: u128,
) -> Seq<(Option<u128>, Seq<char>)> {
    if has_parent_dir(path) {
        seq![(Some(id), "operation path contains parent traversal: "@ + path)]
    } else if !path_starts_with(path, root) {
        seq![(Some(id), "operation path escapes plan root: "@ + path)]
    } else {
        match root_canonical {
            None => Seq::empty(),
            Some(rc) => match probe.resolved_ancestor {
                Ok(a) => if path_starts_with(a@, rc@) {
                    Seq::empty()
                } else {
                    seq![(Some(id), "operation path resolves outside plan root: "@ + path + " via "@ + a@)]
                },
                Err(e) => seq![(Some(id), "operation path cannot be resolved safely: "@ + path + " ("@ + e@ + ")"@)],
            },
        }
    }
}

/// The issues of a move or rename of `source` to `destination`.
pub open spec fn move_issues(
    source: Seq<char>,
    destination: Seq<char>,
    root: Seq<char>,
    root_canonical: Option<String>,
    probe: OperationProbe,
    id: u128,
) -> Seq<(Option<u128>, Seq<char>)> {
    containment_issues(source, root, root_canonical, probe.source, id)
        + containment_issues(destination, root, root_canonical, probe.target, id)
        + (if !probe.source.is_file {
            seq![(Some(id), "source file does not exist: "@ + source)]
        } else {
            Seq::empty()
        })
        + (if probe.target.exists {
            seq![(Some(id), "destination already exists: "@ + destination)]
        } else {
            Seq::empty()
        })
        + (if components(source) == components(destination) {
            seq![(Some(id), "source and destination are identical"@)]
        } else {
            Seq::empty()
        })
}

/// The issues of one operation.
pub open spec fn operation_issues(
    op: FileOperationPlan,
    root: Seq<char>,
    root_canonical: Option<String>,
    probe: OperationProbe,
) -> Seq<(Option<u128>, Seq<char>)> {
    match op.kind {
        FileOperationKind::CreateFolder { path } => containment_issues(
            path@,
            root,
            root_canonical,
            probe.target,
            op.operation_id,
        ) + (if probe.target.exists && !probe.target.is_dir {
            seq![(Some(op.operation_id), "create-folder target is not a directory: "@ + path@)]
        } else {
            Seq::empty()
        }),
        FileOperationKind::MoveFile { source, destination } => move_issues(
            source@,
            destination@,
            root,
            root_canonical,
            probe,
            op.operation_id,
        ),
        FileOperationKind::RenameFile { source, destination } => move_issues(
            source@,
            destination@,
            root,
            root_canonical,
            probe,
            op.operation_id,
        ),
    }
}

/// The issues of the first `k` operations, in order.
pub open spec fn operations_issues(plan: OrganizationPlan, probes: PlanProbes, k: int) -> Seq<(Option<u128>, Seq<char>)>
    decreases k,
{
    if k <= 0 {
        Seq::empty()
    } else {
        operations_issues(plan, probes, k - 1) + operation_issues(
            plan.operations@[k - 1],
            plan.root_path@,
            probes.root_canonical,
            probes.operations@[k - 1],
        )
    }
}

/// The components of the destination of a move or rename.
pub open spec fn moved_to(op: FileOperationPlan) -> Option<Seq<Seq<char>>> {
    match op.kind {
        FileOperationKind::CreateFolder { .. } => None,
        FileOperationKind::MoveFile { destination, .. } => Some(components(destination@)),
        FileOperationKind::RenameFile { destination, .. } => Some(components(destination@)),
    }
}

/// Operations `i` and `j` move or rename to the same destination.
pub open spec fn shares_destination(ops: Seq<FileOperationPlan>, i: int, j: int) -> bool {
    moved_to(ops[i]) is Some && moved_to(ops[i]) == moved_to(ops[j])
}

/// Operation `i` is the first to move or rename to its destination.
pub open spec fn first_with_destination(ops: Seq<FileOperationPlan>, i: int) -> bool {
    moved_to(ops[i]) is Some && forall|j: int| 0 <= j < i ==> !#[trigger] shares_destination(ops, i, j)
}

/// The ids of the first `k` operations that share operation `i`'s
/// destination, in order.
pub open spec fn sharing_ids(ops: Seq<FileOperationPlan>, i: int, k: int) -> Seq<u128>
    decreases k,
{
    if k <= 0 {
        Seq::empty()
    } else {
        sharing_ids(ops, i, k - 1) + if shares_destination(ops, i, k - 1) {
            seq![ops[k - 1].operation_id]
        } else {
            Seq::empty()
        }
    }
}

/// The duplicate-destination issues of the group that operation `i`
/// begins: one per operation of the group, when it has more than one.
pub open spec fn duplicate_issues_at(ops: Seq<FileOperationPlan>, i: int) -> Seq<(Option<u128>, Seq<char>)> {
    let ids = sharing_ids(ops, i, ops.len() as int);
    if first_with_destination(ops, i) && ids.len() > 1 {
        ids.map_values(|id: u128| (Some(id), "duplicate planned destination: "@ + render(moved_to(ops[i])->0)))
    } else {
        Seq::empty()
    }
}

/// The duplicate-destination issues of the groups begun by the first `k`
/// operations, group by group.
pub open spec fn duplicate_issues(ops: Seq<FileOperationPlan>, k: int) -> Seq<(Option<u128>, Seq<char>)>
    decreases k,
{
    if k <= 0 {
        Seq::empty()
    } else {
        duplicate_issues(ops, k - 1) + duplicate_issues_at(ops, k - 1)
    }
}

/// All issues of a plan: the root, each operation in order, then each
/// group of operations that share a destination, in the order in which the
/// groups begin.
pub open spec fn plan_issues(plan: OrganizationPlan, probes: PlanProbes) -> Seq<(Option<u128>, Seq<char>)> {
    let n = plan.operations@.len() as int;
    root_issues(plan.root_path@, probes) + operations_issues(plan, probes, n) + duplicate_issues(
        plan.operations@,
        n,
    )
}

/// Probes fit a plan when there is one per operation.
pub open spec fn probes_fit(plan: OrganizationPlan, probes: PlanProbes) -> bool {
    probes.operations@.len() == plan.operations@.len()
}

/// Appends one issue.
fn push_issue(issues: &mut Vec<ValidationIssue>, operation_id: Option<u128>, message: String)
    ensures
        issues_view(final(issues)@) == issues_view(old(issues)@).push((operation_id, message@)),
{
    let ghost before = issues@;
    let ghost m = message@;
    issues.push(ValidationIssue { operation_id, message });
    assert(issues_view(issues@) =~= issues_view(before).push((operation_id, m)));
}

/// `prefix` followed by `path`.
fn prefixed(prefix: &str, path: &str) -> (r: String)
    ensures
        r@ == prefix@ + path@,
{
    String::from_str(prefix).concat(path)
}

/// Appends the containment issue of a path, if any.
fn validate_inside_root(
    issues: &mut Vec<ValidationIssue>,
    path: &String,
    root: &String,
    root_canonical: &Option<String>,
    probe: &PathProbe,
    id: u128,
)
    ensures
        issues_view(final(issues)@) == issues_view(old(issues)@) + containment_issues(
            path@,
            root@,
            *root_canonical,
            *probe,
            id,
        ),
{
    let ghost before = issues_view(issues@);
    let p = crate::text::chars_of(path.as_str());
    if crate::path::has_parent_dir_of(&p) {
        push_issue(issues, Some(id), prefixed("operation path contains parent traversal: ", path.as_str()));
        assert(issues_view(issues@) =~= before + containment_issues(path@, root@, *root_canonical, *probe, id));
        return;
    }
    let r = crate::text::chars_of(root.as_str());
    if !crate::path::path_starts_with_of(&p, &r) {
        push_issue(issues, Some(id), prefixed("operation path escapes plan root: ", path.as_str()));
        assert(issues_view(issues@) =~= before + containment_issues(path@, root@, *root_canonical, *probe, id));
        return;
    }
    match root_canonical {
        None => {
            assert(issues_view(issues@) =~= before + containment_issues(path@, root@, *root_canonical, *probe, id));
        },
        Some(rc) => match &probe.resolved_ancestor {
            Ok(a) => {
                let ac = crate::text::chars_of(a.as_str());
                let rcc = crate::text::chars_of(rc.as_str());
                if !crate::path::path_starts_with_of(&ac, &rcc) {
                    let m = prefixed("operation path resolves outside plan root: ", path.as_str()).concat(
                        " via ",
                    ).concat(a.as_str());
                    push_issue(issues, Some(id), m);
                }
                assert(issues_view(issues@) =~= before + containment_issues(path@, root@, *root_canonical, *probe, id));
            },
            Err(e) => {
                let m = prefixed("operation path cannot be resolved safely: ", path.as_str()).concat(
                    " (",
                ).concat(e.as_str()).concat(")");
                push_issue(issues, Some(id), m);
                assert(issues_view(issues@) =~= before + containment_issues(path@, root@, *root_canonical, *probe, id));
            },
        },
    }
}

/// Appends the issues of a move or rename.
fn push_move_issues(
    issues: &mut Vec<ValidationIssue>,
    source: &String,
    destination: &String,
    root: &String,
    root_canonical: &Option<String>,
    probe: &OperationProbe,
    id: u128,
)
    ensures
        issues_view(final(issues)@) == issues_view(old(issues)@) + move_issues(
            source@,
            destination@,
            root@,
            *root_canonical,
            *probe,
            id,
        ),
{
    let ghost before = issues_view(issues@);
    validate_inside_root(issues, source, root, root_canonical, &probe.source, id);
    validate_inside_root(issues, destination, root, root_canonical, &probe.target, id);
    let ghost mid = issues_view(issues@);
    if !probe.source.is_file {
        push_issue(issues, Some(id), prefixed("source file does not exist: ", source.as_str()));
    }
    let ghost mid2 = issues_view(issues@);
    if probe.target.exists {
        push_issue(issues, Some(id), prefixed("destination already exists: ", destination.as_str()));
    }
    let ghost mid3 = issues_view(issues@);
    let sc = crate::path::components_of(&crate::text::chars_of(source.as_str()));
    let dc = crate::path::components_of(&crate::text::chars_of(destination.as_str()));
    if crate::path::components_equal(&sc, &dc) {
        push_issue(issues, Some(id), String::from_str("source and destination are identical"));
    }
    assert(issues_view(issues@) =~= before + move_issues(
        source@,
        destination@,
        root@,
        *root_canonical,
        *probe,
        id,
    ));
}

/// Appends the issues of one operation.
fn push_operation_issues(
    issues: &mut Vec<ValidationIssue>,
    op: &FileOperationPlan,
    root: &String,
    root_canonical: &Option<String>,
    probe: &OperationProbe,
)
    ensures
        issues_view(final(issues)@) == issues_view(old(issues)@) + operation_issues(
            *op,
            root@,
            *root_canonical,
            *probe,
        ),
{
    let ghost before = issues_view(issues@);
    match &op.kind {
        FileOperationKind::CreateFolder { path } => {
            validate_inside_root(issues, path, root, root_canonical, &probe.target, op.operation_id);
            if probe.target.exists && !probe.target.is_dir {
                push_issue(
                    issues,
                    Some(op.operation_id),
                    prefixed("create-folder target is not a directory: ", path.as_str()),
                );
            }
            assert(issues_view(issues@) =~= before + operation_issues(*op, root@, *root_canonical, *probe));
        },
        FileOperationKind::MoveFile { source, destination } => {
            push_move_issues(issues, source, destination, root, root_canonical, probe, op.operation_id);
        },
        FileOperationKind::RenameFile { source, destination } => {
            push_move_issues(issues, source, destination, root, root_canonical, probe, op.operation_id);
        },
    }
}

/// The destination components of a move or rename, as held by the code.
pub open spec fn key_view(k: Option<Vec<Vec<char>>>) -> Option<Seq<Seq<char>>> {
    match k {
        Some(v) => Some(v.deep_view()),
        None => None,
    }
}

/// The destination components of each move or rename, in order.
fn destination_keys(ops: &Vec<FileOperationPlan>) -> (r: Vec<Option<Vec<Vec<char>>>>)
    ensures
        r@.len() == ops@.len(),
        forall|k: int| 0 <= k < r@.len() ==> #[trigger] key_view(r@[k]) == moved_to(ops@[k]),
{
    let mut r: Vec<Option<Vec<Vec<char>>>> = Vec::new();
    let mut i: usize = 0;
    while i < ops.len()
        invariant
            i <= ops@.len(),
            r@.len() == i,
            forall|k: int| 0 <= k < i ==> #[trigger] key_view(r@[k]) == moved_to(ops@[k]),
        decreases ops.len() - i,
    {
        let key = match &ops[i].kind {
            FileOperationKind::CreateFolder { .. } => None,
            FileOperationKind::MoveFile { destination, .. } => Some(
                crate::path::components_of(&crate::text::chars_of(destination.as_str())),
            ),
            FileOperationKind::RenameFile { destination, .. } => Some(
                crate::path::components_of(&crate::text::chars_of(destination.as_str())),
            ),
        };
        r.push(key);
        i = i + 1;
    }
    r
}

/// Whether key `a` is a destination and `b` the same one.
fn same_destination(a: &Option<Vec<Vec<char>>>, b: &Option<Vec<Vec<char>>>) -> (r: bool)
    ensures
        r == (key_view(*a) is Some && key_view(*a) == key_view(*b)),
{
    match (a, b) {
        (Some(x), Some(y)) => crate::path::components_equal(x, y),
        _ => false,
    }
}

/// Appends the duplicate-destination issues of the group begun by
/// operation `i`, if it begins one with more than one operation.
fn push_duplicate_issues_at(
    issues: &mut Vec<ValidationIssue>,
    ops: &Vec<FileOperationPlan>,
    keys: &Vec<Option<Vec<Vec<char>>>>,
    i: usize,
)
    requires
        i < ops@.len(),
        keys@.len() == ops@.len(),
        forall|k: int| 0 <= k < keys@.len() ==> #[trigger] key_view(keys@[k]) == moved_to(ops@[k]),
    ensures
        issues_view(final(issues)@) == issues_view(old(issues)@) + duplicate_issues_at(ops@, i as int),
{
    let ghost before = issues_view(issues@);
    let ghost opsv = ops@;
    assert(key_view(keys@[i as int]) == moved_to(opsv[i as int]));
    let mut first = keys[i].is_some();
    let mut j: usize = 0;
    while j < i
        invariant
            j <= i < ops@.len(),
            opsv == ops@,
            keys@.len() == ops@.len(),
            forall|k: int| 0 <= k < keys@.len() ==> #[trigger] key_view(keys@[k]) == moved_to(ops@[k]),
            first == (moved_to(opsv[i as int]) is Some && forall|t: int| 0 <= t < j ==> !#[trigger] shares_destination(opsv, i as int, t)),
        decreases i - j,
    {
        assert(key_view(keys@[j as int]) == moved_to(opsv[j as int]));
        assert(key_view(keys@[i as int]) == moved_to(opsv[i as int]));
        let same = same_destination(&keys[i], &keys[j]);
        proof {
            if same {
                assert(shares_destination(opsv, i as int, j as int));
            } else {
                assert(!shares_destination(opsv, i as int, j as int));
            }
        }
        if same {
            first = false;
        }
        j = j + 1;
    }
    assert(first == first_with_destination(opsv, i as int));
    if !first {
        assert(issues_view(issues@) =~= before + duplicate_issues_at(opsv, i as int));
        return;
    }
    let mut ids: Vec<u128> = Vec::new();
    let mut j: usize = 0;
    while j < ops.len()
        invariant
            j <= ops@.len(),
            i < ops@.len(),
            opsv == ops@,
            keys@.len() == ops@.len(),
            forall|k: int| 0 <= k < keys@.len() ==> #[trigger] key_view(keys@[k]) == moved_to(ops@[k]),
            ids@ == sharing_ids(opsv, i as int, j as int),
        decreases ops.len() - j,
    {
        assert(key_view(keys@[j as int]) == moved_to(opsv[j as int]));
        if same_destination(&keys[i], &keys[j]) {
            ids.push(ops[j].operation_id);
        }
        assert(ids@ =~= sharing_ids(opsv, i as int, j + 1));
        j = j + 1;
    }
    if ids.len() <= 1 {
        assert(issues_view(issues@) =~= before + duplicate_issues_at(opsv, i as int));
        return;
    }
    let text = match &keys[i] {
        Some(k) => crate::text::string_of(&crate::path::render_of(k)),
        None => String::new(),
    };
    let ghost msg = "duplicate planned destination: "@ + render(moved_to(opsv[i as int])->0);
    let ghost f = |id: u128| (Some(id), "duplicate planned destination: "@ + render(moved_to(opsv[i as int])->0));
    let mut t: usize = 0;
    while t < ids.len()
        invariant
            t <= ids@.len(),
            text@ == render(moved_to(opsv[i as int])->0),
            f == (|id: u128| (Some(id), "duplicate planned destination: "@ + render(moved_to(opsv[i as int])->0))),
            issues_view(issues@) == before + ids@.subrange(0, t as int).map_values(f),
        decreases ids.len() - t,
    {
        let ghost prev = issues_view(issues@);
        assert(f(ids@[t as int]) == (Some(ids@[t as int]), "duplicate planned destination: "@ + text@));
        push_issue(issues, Some(ids[t]), prefixed("duplicate planned destination: ", text.as_str()));
        assert(ids@.subrange(0, t + 1).map_values(f) =~= ids@.subrange(0, t as int).map_values(f).push(f(ids@[t as int])));
        assert(issues_view(issues@) =~= before + ids@.subrange(0, t + 1).map_values(f));
        t = t + 1;
    }
    assert(ids@.subrange(0, ids@.len() as int) =~= ids@);
    assert(issues_view(issues@) =~= before + duplicate_issues_at(opsv, i as int));
}

/// Validates a plan against what was observed of its paths: valid exactly
/// when there is no issue; the issues are `plan_issues`.
pub fn validate_plan_sync(plan: &OrganizationPlan, probes: &PlanProbes) -> (r: PlanValidation)
    requires
        probes_fit(*plan, *probes),
    ensures
        issues_view(r.issues@) == plan_issues(*plan, *probes),
        r.valid == (plan_issues(*plan, *probes).len() == 0),
{
    let mut issues: Vec<ValidationIssue> = Vec::new();
    if probes.root_canonical.is_none() || !probes.root_is_dir {
        push_issue(&mut issues, None, prefixed("plan root is not a directory: ", plan.root_path.as_str()));
    }
    let ghost root = issues_view(issues@);
    assert(root =~= root_issues(plan.root_path@, *probes));
    let n = plan.operations.len();
    let mut i: usize = 0;
    while i < n
        invariant
            i <= n,
            n == plan.operations@.len(),
            probes_fit(*plan, *probes),
            issues_view(issues@) == root + operations_issues(*plan, *probes, i as int),
        decreases n - i,
    {
        push_operation_issues(
            &mut issues,
            &plan.operations[i],
            &plan.root_path,
            &probes.root_canonical,
            &probes.operations[i],
        );
        proof {
            assert(root + operations_issues(*plan, *probes, i + 1) =~= root + operations_issues(*plan, *probes, i as int)
                + operation_issues(plan.operations@[i as int], plan.root_path@, probes.root_canonical, probes.operations@[i as int]));
        }
        i = i + 1;
    }
    let ghost mid = issues_view(issues@);
    let keys = destination_keys(&plan.operations);
    let mut i: usize = 0;
    while i < n
        invariant
            i <= n,
            n == plan.operations@.len(),
            keys@.len() == n,
            forall|k: int| 0 <= k < keys@.len() ==> #[trigger] key_view(keys@[k]) == moved_to(plan.operations@[k]),
            issues_view(issues@) == mid + duplicate_issues(plan.operations@, i as int),
        decreases n - i,
    {
        push_duplicate_issues_at(&mut issues, &plan.operations, &keys, i);
        assert(mid + duplicate_issues(plan.operations@, i + 1) =~= mid + duplicate_issues(plan.operations@, i as int)
            + duplicate_issues_at(plan.operations@, i as int));
        i = i + 1;
    }
    assert(issues_view(issues@) =~= plan_issues(*plan, *probes));
    proof {
        assert(issues@.len() == issues_view(issues@).len());
    }
    PlanValidation::from_issues(issues)
}

/// The messages of the issues, joined with `; `.
pub open spec fn joined_messages(issues: Seq<(Option<u128>, Seq<char>)>) -> Seq<char>
    decreases issues.len(),
{
    if issues.len() == 0 {
        Seq::empty()
    } else if issues.len() == 1 {
        issues[0].1
    } else {
        joined_messages(issues.drop_last()) + "; "@ + issues.last().1
    }
}

/// The messages of the issues, joined with `; `.
fn join_messages(issues: &Vec<ValidationIssue>) -> (r: String)
    ensures
        r@ == joined_messages(issues_view(issues@)),
{
    let mut r = String::new();
    let mut i: usize = 0;
    while i < issues.len()
        invariant
            i <= issues@.len(),
            r@ == joined_messages(issues_view(issues@).subrange(0, i as int)),
        decreases issues.len() - i,
    {
        let ghost pre = issues_view(issues@).subrange(0, i + 1);
        assert(pre.drop_last() =~= issues_view(issues@).subrange(0, i as int));
        if i == 0 {
            r = issues[i].message.clone();
        } else {
            r = r.concat("; ").concat(issues[i].message.as_str());
        }
        proof {
            if i == 0 {
                assert(pre.len() == 1);
            }
        }
        i = i + 1;
    }
    assert(issues_view(issues@).subrange(0, issues@.len() as int) =~= issues_view(issues@));
    r
}

/// What the caller is to do for one operation.
#[derive(Debug, PartialEq, Eq)]
pub enum ExecutionStep {
    /// Create the folder `path` with its ancestors, unless it exists.
    CreateFolder { path: String },
    /// Create `parent` with its ancestors, then move `source` to
    /// `destination`; without a parent, do nothing and report it.
    Move { source: String, destination: String, parent: Option<String> },
}

/// What came of one operation.
#[derive(Debug, Clone, Copy, PartialEq, Eq, Structural)]
pub enum OperationOutcome {
    /// The folder to create existed already; nothing changed.
    AlreadyExisted,
    /// The folder was created, or the file moved.
    Done,
    /// The folder to create, or the parent of the destination, could not
    /// be created.
    FolderNotCreated,
    /// The destination has no parent.
    NoParent,
    /// The file could not be moved.
    NotMoved,
}

/// An outcome can come of an operation: a folder exists, is created or
/// fails to be; a move is done, fails at its parent (which then exists),
/// has no parent, or fails to move.
pub open spec fn outcome_fits(op: FileOperationPlan, o: OperationOutcome) -> bool {
    match op.kind {
        FileOperationKind::CreateFolder { .. } => o == OperationOutcome::AlreadyExisted || o
            == OperationOutcome::Done || o == OperationOutcome::FolderNotCreated,
        FileOperationKind::MoveFile { destination, .. } => move_outcome_fits(destination@, o),
        FileOperationKind::RenameFile { destination, .. } => move_outcome_fits(destination@, o),
    }
}

/// An outcome can come of a move to `destination`.
pub open spec fn move_outcome_fits(destination: Seq<char>, o: OperationOutcome) -> bool {
    ||| o == OperationOutcome::Done
    ||| o == OperationOutcome::NotMoved
    ||| o == OperationOutcome::FolderNotCreated && parent_text(destination) is Some
    ||| o == OperationOutcome::NoParent && parent_text(destination) is None
}

/// The operation was carried out (or had nothing to do).
pub open spec fn succeeded(o: OperationOutcome) -> bool {
    o == OperationOutcome::AlreadyExisted || o == OperationOutcome::Done
}

/// How to undo an operation that changed something.
pub open spec fn undo_action(op: FileOperationPlan) -> RollbackAction {
    match op.kind {
        FileOperationKind::CreateFolder { path } => RollbackAction::RemoveCreatedFolder { path },
        FileOperationKind::MoveFile { source, destination } => RollbackAction::MoveFileBack {
            from: destination,
            to: source,
        },
        FileOperationKind::RenameFile { source, destination } => RollbackAction::RenameFileBack {
            from: destination,
            to: source,
        },
    }
}

/// The message of a failed move from `source` to `destination`.
pub open spec fn move_failure(source: Seq<char>, destination: Seq<char>, o: OperationOutcome) -> Seq<char> {
    if o == OperationOutcome::FolderNotCreated {
        "failed to create "@ + parent_text(destination)->0
    } else if o == OperationOutcome::NoParent {
        "destination has no parent: "@ + destination
    } else {
        "failed to move "@ + source + " to "@ + destination
    }
}

/// The message of a failed operation.
pub open spec fn failure_message(op: FileOperationPlan, o: OperationOutcome) -> Seq<char> {
    match op.kind {
        FileOperationKind::CreateFolder { path } => "failed to create "@ + path@,
        FileOperationKind::MoveFile { source, destination } => move_failure(source@, destination@, o),
        FileOperationKind::RenameFile { source, destination } => move_failure(source@, destination@, o),
    }
}

/// The run stopped at a failure: the last outcome is one.
pub open spec fn stopped(outcomes: Seq<OperationOutcome>) -> bool {
    outcomes.len() > 0 && !succeeded(outcomes.last())
}

/// The number of operations carried out.
pub open spec fn executed_count(outcomes: Seq<OperationOutcome>) -> int {
    if stopped(outcomes) {
        outcomes.len() - 1
    } else {
        outcomes.len() as int
    }
}

/// A rollback entry as batch, operation and action.
pub open spec fn entry_view(e: RollbackEntry) -> (u128, u128, RollbackAction) {
    (e.batch_id, e.operation_id, e.action)
}

/// Rollback entries as batch, operation and action.
pub open spec fn entries_view(v: Seq<RollbackEntry>) -> Seq<(u128, u128, RollbackAction)> {
    v.map_values(|e: RollbackEntry| entry_view(e))
}

/// The rollback records of the first `k` operations: one for each that
/// changed something, in order.
pub open spec fn undo_records(
    batch_id: u128,
    ops: Seq<FileOperationPlan>,
    outcomes: Seq<OperationOutcome>,
    k: int,
) -> Seq<(u128, u128, RollbackAction)>
    decreases k,
{
    if k <= 0 {
        Seq::empty()
    } else {
        undo_records(batch_id, ops, outcomes, k - 1) + if outcomes[k - 1] == OperationOutcome::Done {
            seq![(batch_id, ops[k - 1].operation_id, undo_action(ops[k - 1]))]
        } else {
            Seq::empty()
        }
    }
}

/// The error of a stopped run, if it stopped.
pub open spec fn stop_errors(ops: Seq<FileOperationPlan>, outcomes: Seq<OperationOutcome>) -> Seq<(Option<u128>, Seq<char>)> {
    let n = executed_count(outcomes);
    if stopped(outcomes) {
        seq![(Some(ops[n].operation_id), failure_message(ops[n], outcomes[n]))]
    } else {
        Seq::empty()
    }
}

/// `b` is the batch of a run over `ops` with these outcomes: the operations
/// carried out in order, a rollback record for each that changed
/// something, the error it stopped at, and `Completed` exactly when it did
/// not stop.
pub open spec fn is_batch_of(
    b: ExecutionBatch,
    batch_id: u128,
    plan_id: u128,
    started_at: Timestamp,
    ops: Seq<FileOperationPlan>,
    outcomes: Seq<OperationOutcome>,
) -> bool {
    let n = executed_count(outcomes);
    &&& b.batch_id == batch_id
    &&& b.plan_id == plan_id
    &&& b.started_at == started_at
    &&& b.executed_operations@.len() == n
    &&& forall|k: int| 0 <= k < n ==> (#[trigger] b.executed_operations@[k]).operation_id == ops[k].operation_id
        && b.executed_operations@[k].kind == ops[k].kind
    &&& entries_view(b.rollback_entries@) == undo_records(batch_id, ops, outcomes, n)
    &&& errors_view(b.errors@) == stop_errors(ops, outcomes)
    &&& b.status == if stopped(outcomes) {
        ExecutionStatus::PartiallyFailed
    } else {
        ExecutionStatus::Completed
    }
}

/// One execution of a confirmed plan, one operation at a time.
pub struct ExecutionRun {
    batch_id: u128,
    plan_id: u128,
    started_at: Timestamp,
    operations: Vec<FileOperationPlan>,
    executed: Vec<ExecutedOperation>,
    rollback_entries: Vec<RollbackEntry>,
    errors: Vec<ExecutionError>,
    outcomes: Ghost<Seq<OperationOutcome>>,
}

impl ExecutionRun {
    /// The batch of this run.
    pub closed spec fn batch(&self) -> u128 {
        self.batch_id
    }

    /// The plan executed.
    pub closed spec fn plan(&self) -> u128 {
        self.plan_id
    }

    /// When the run started.
    pub closed spec fn started(&self) -> Timestamp {
        self.started_at
    }

    /// The operations of the plan, in order.
    pub closed spec fn operations(&self) -> Seq<FileOperationPlan> {
        self.operations@
    }

    /// What came of each operation so far.
    pub closed spec fn outcomes(&self) -> Seq<OperationOutcome> {
        self.outcomes@
    }

    /// The run is consistent: outcomes fit their operations, only the last
    /// may be a failure, and what is recorded follows from them.
    pub closed spec fn wf(&self) -> bool {
        let o = self.outcomes@;
        let n = executed_count(o);
        &&& o.len() <= self.operations@.len()
        &&& forall|k: int| 0 <= k < o.len() ==> outcome_fits(#[trigger] self.operations@[k], o[k])
        &&& forall|k: int| 0 <= k < o.len() - 1 ==> succeeded(#[trigger] o[k])
        &&& self.executed@.len() == n
        &&& forall|k: int| 0 <= k < n ==> (#[trigger] self.executed@[k]).operation_id == self.operations@[k].operation_id
            && self.executed@[k].kind == self.operations@[k].kind
        &&& entries_view(self.rollback_entries@) == undo_records(self.batch_id, self.operations@, o, n)
        &&& errors_view(self.errors@) == stop_errors(self.operations@, o)
    }

    /// Nothing is left to do: the run stopped or every operation has an
    /// outcome.
    pub open spec fn done(&self) -> bool {
        stopped(self.outcomes()) || self.outcomes().len() >= self.operations().len()
    }

    /// A new run over the operations of `plan`, with a new batch id.
    fn start(plan: &OrganizationPlan) -> (r: Self)
        ensures
            r.wf(),
            r.plan() == plan.plan_id,
            r.operations() == plan.operations@,
            r.outcomes().len() == 0,
    {
        let mut operations: Vec<FileOperationPlan> = Vec::new();
        let mut i: usize = 0;
        while i < plan.operations.len()
            invariant
                i <= plan.operations@.len(),
                operations@ == plan.operations@.subrange(0, i as int),
            decreases plan.operations.len() - i,
        {
            operations.push(plan.operations[i].clone());
            assert(operations@ =~= plan.operations@.subrange(0, i + 1));
            i = i + 1;
        }
        assert(operations@ =~= plan.operations@);
        let r = ExecutionRun {
            batch_id: crate::ids::new_id(),
            plan_id: plan.plan_id,
            started_at: crate::clock::now(),
            operations,
            executed: Vec::new(),
            rollback_entries: Vec::new(),
            errors: Vec::new(),
            outcomes: Ghost(Seq::empty()),
        };
        assert(entries_view(r.rollback_entries@) =~= Seq::<(u128, u128, RollbackAction)>::empty());
        assert(errors_view(r.errors@) =~= Seq::<(Option<u128>, Seq<char>)>::empty());
        r
    }

    /// The next step; none once the run is done.
    pub fn next_step(&self) -> (r: Option<ExecutionStep>)
        requires
            self.wf(),
        ensures
            self.done() ==> r is None,
            !self.done() ==> r is Some && match r->0 {
                ExecutionStep::CreateFolder { path } => self.operations()[self.outcomes().len() as int].kind
                    == (FileOperationKind::CreateFolder { path }),
                ExecutionStep::Move { source, destination, parent } => {
                    let kind = self.operations()[self.outcomes().len() as int].kind;
                    &&& (kind == (FileOperationKind::MoveFile { source, destination }) || kind == (
                    FileOperationKind::RenameFile { source, destination }))
                    &&& match parent {
                        Some(p) => parent_text(destination@) == Some(p@),
                        None => parent_text(destination@) is None,
                    }
                },
            },
    {
        if self.errors.len() > 0 || self.executed.len() >= self.operations.len() {
            proof {
                if self.errors@.len() > 0 {
                    assert(errors_view(self.errors@).len() > 0);
                }
            }
            return None;
        }
        proof {
            assert(errors_view(self.errors@).len() == 0);
        }
        let k = self.executed.len();
        match &self.operations[k].kind {
            FileOperationKind::CreateFolder { path } => Some(ExecutionStep::CreateFolder { path: path.clone() }),
            FileOperationKind::MoveFile { source, destination } => Some(
                ExecutionStep::Move {
                    source: source.clone(),
                    destination: destination.clone(),
                    parent: crate::rollback::parent_text_of(destination.as_str()),
                },
            ),
            FileOperationKind::RenameFile { source, destination } => Some(
                ExecutionStep::Move {
                    source: source.clone(),
                    destination: destination.clone(),
                    parent: crate::rollback::parent_text_of(destination.as_str()),
                },
            ),
        }
    }

    /// Records what came of the next operation.
    pub fn record(&mut self, outcome: OperationOutcome)
        requires
            old(self).wf(),
            !old(self).done(),
            outcome_fits(old(self).operations()[old(self).outcomes().len() as int], outcome),
        ensures
            final(self).wf(),
            final(self).batch() == old(self).batch(),
            final(self).plan() == old(self).plan(),
            final(self).started() == old(self).started(),
            final(self).operations() == old(self).operations(),
            final(self).outcomes() == old(self).outcomes().push(outcome),
    {
        let ghost o = self.outcomes@;
        let ghost ops = self.operations@;
        let ghost bid = self.batch_id;
        let k = self.executed.len();
        let n = self.operations.len();
        assert(k < n);
        let id = self.operations[k].operation_id;
        if outcome == OperationOutcome::AlreadyExisted || outcome == OperationOutcome::Done {
            if outcome == OperationOutcome::Done {
                let action = undo_action_of(&self.operations[k]);
                let entry = crate::rollback::rollback_entry(self.batch_id, id, action);
                let ghost before = self.rollback_entries@;
                self.rollback_entries.push(entry);
                assert(entries_view(self.rollback_entries@) =~= entries_view(before).push(entry_view(entry)));
            }
            let kind = self.operations[k].kind.clone();
            self.executed.push(ExecutedOperation { operation_id: id, kind, completed_at: crate::clock::now() });
        } else {
            let message = failure_message_of(&self.operations[k], outcome);
            let ghost before = self.errors@;
            let ghost m = message@;
            self.errors.push(ExecutionError { operation_id: Some(id), message });
            assert(errors_view(self.errors@) =~= errors_view(before).push((Some(id), m)));
        }
        self.outcomes = Ghost(o.push(outcome));
        proof {
            let o2 = o.push(outcome);
            lemma_undo_records_prefix(bid, ops, o, o2, k as int);
            assert(o2.drop_last() =~= o);
            assert(entries_view(self.rollback_entries@) =~= undo_records(bid, ops, o2, executed_count(o2)));
            assert(errors_view(self.errors@) =~= stop_errors(ops, o2));
        }
    }

    /// The batch of the run, stamped with the current time.
    pub fn finish(self) -> (r: ExecutionBatch)
        requires
            self.wf(),
        ensures
            is_batch_of(r, self.batch(), self.plan(), self.started(), self.operations(), self.outcomes()),
    {
        let status = if self.errors.len() == 0 {
            ExecutionStatus::Completed
        } else {
            ExecutionStatus::PartiallyFailed
        };
        proof {
            assert(errors_view(self.errors@).len() == self.errors@.len());
        }
        ExecutionBatch {
            batch_id: self.batch_id,
            plan_id: self.plan_id,
            status,
            executed_operations: self.executed,
            rollback_entries: self.rollback_entries,
            errors: self.errors,
            started_at: self.started_at,
            finished_at: crate::clock::now(),
        }
    }
}

/// Records over the first `k` outcomes do not change when outcomes are added.
proof fn lemma_undo_records_prefix(
    batch_id: u128,
    ops: Seq<FileOperationPlan>,
    a: Seq<OperationOutcome>,
    b: Seq<OperationOutcome>,
    k: int,
)
    requires
        0 <= k <= a.len(),
        k <= b.len(),
        forall|t: int| 0 <= t < k ==> a[t] == b[t],
    ensures
        undo_records(batch_id, ops, a, k) == undo_records(batch_id, ops, b, k),
    decreases k,
{
    if k > 0 {
        lemma_undo_records_prefix(batch_id, ops, a, b, k - 1);
    }
}

/// How to undo an operation.
fn undo_action_of(op: &FileOperationPlan) -> (r: RollbackAction)
    ensures
        r == undo_action(*op),
{
    match &op.kind {
        FileOperationKind::CreateFolder { path } => RollbackAction::RemoveCreatedFolder { path: path.clone() },
        FileOperationKind::MoveFile { source, destination } => RollbackAction::MoveFileBack {
            from: destination.clone(),
            to: source.clone(),
        },
        FileOperationKind::RenameFile { source, destination } => RollbackAction::RenameFileBack {
            from: destination.clone(),
            to: source.clone(),
        },
    }
}

/// The message of a failed move.
fn move_failure_of(source: &String, destination: &String, outcome: OperationOutcome) -> (r: String)
    requires
        outcome == OperationOutcome::FolderNotCreated ==> parent_text(destination@) is Some,
    ensures
        r@ == move_failure(source@, destination@, outcome),
{
    if outcome == OperationOutcome::FolderNotCreated {
        match crate::rollback::parent_text_of(destination.as_str()) {
            Some(p) => String::from_str("failed to create ").concat(p.as_str()),
            None => String::new(),
        }
    } else if outcome == OperationOutcome::NoParent {
        String::from_str("destination has no parent: ").concat(destination.as_str())
    } else {
        String::from_str("failed to move ").concat(source.as_str()).concat(" to ").concat(destination.as_str())
    }
}

/// The message of a failed operation.
fn failure_message_of(op: &FileOperationPlan, outcome: OperationOutcome) -> (r: String)
    requires
        outcome_fits(*op, outcome),
    ensures
        r@ == failure_message(*op, outcome),
{
    match &op.kind {
        FileOperationKind::CreateFolder { path } => String::from_str("failed to create ").concat(path.as_str()),
        FileOperationKind::MoveFile { source, destination } => move_failure_of(source, destination, outcome),
        FileOperationKind::RenameFile { source, destination } => move_failure_of(source, destination, outcome),
    }
}

/// Refuses an approval that is missing or names another plan.
pub fn ensure_approval(plan: &OrganizationPlan, approval: &UserApproval) -> (r: Result<(), OrganizerError>)
    ensures
        !approval.approved ==> r == Err::<(), OrganizerError>(OrganizerError::ApprovalRequired),
        approval.approved && approval.approved_plan_id != plan.plan_id ==> r == Err::<(), OrganizerError>(
            OrganizerError::ApprovalPlanMismatch,
        ),
        approval.approved && approval.approved_plan_id == plan.plan_id ==> r is Ok,
{
    if !approval.approved {
        return Err(OrganizerError::ApprovalRequired);
    }
    if approval.approved_plan_id != plan.plan_id {
        return Err(OrganizerError::ApprovalPlanMismatch);
    }
    Ok(())
}

/// The executor: validates plans, executes confirmed ones and undoes batches.
#[derive(Debug, Default, Clone, Copy)]
pub struct DefaultPlanExecutor;

impl DefaultPlanExecutor {
    /// Validates a plan against what was observed of its paths.
    pub fn validate_plan(&self, plan: &OrganizationPlan, probes: &PlanProbes) -> (r: PlanValidation)
        requires
            probes_fit(*plan, *probes),
        ensures
            issues_view(r.issues@) == plan_issues(*plan, *probes),
            r.valid == (plan_issues(*plan, *probes).len() == 0),
    {
        validate_plan_sync(plan, probes)
    }

    /// Starts executing a plan: refused without approval, with an approval
    /// of another plan, or when the plan does not validate (the error then
    /// holds the issues' messages joined with `; `); otherwise a new run over
    /// the plan's operations.
    pub fn execute_confirmed(
        &self,
        plan: &OrganizationPlan,
        approval: &UserApproval,
        probes: &PlanProbes,
    ) -> (r: Result<ExecutionRun, OrganizerError>)
        requires
            probes_fit(*plan, *probes),
        ensures
            !approval.approved ==> r matches Err(OrganizerError::ApprovalRequired),
            approval.approved && approval.approved_plan_id != plan.plan_id ==> r matches Err(
                OrganizerError::ApprovalPlanMismatch,
            ),
            approval.approved && approval.approved_plan_id == plan.plan_id && plan_issues(*plan, *probes).len()
                > 0 ==> (r matches Err(OrganizerError::ValidationFailed(m)) && m@ == joined_messages(
                plan_issues(*plan, *probes),
            )),
            approval.approved && approval.approved_plan_id == plan.plan_id && plan_issues(*plan, *probes).len()
                == 0 ==> (r matches Ok(run) && run.wf() && run.plan() == plan.plan_id && run.operations()
                == plan.operations@ && run.outcomes().len() == 0),
    {
        match ensure_approval(plan, approval) {
            Err(e) => {
                return Err(e);
            },
            Ok(()) => {},
        }
        let validation = validate_plan_sync(plan, probes);
        if !validation.valid {
            let message = join_messages(&validation.issues);
            return Err(OrganizerError::ValidationFailed(message));
        }
        Ok(ExecutionRun::start(plan))
    }

    /// Starts undoing a batch, newest entry first.
    pub fn rollback_batch(&self, batch: &ExecutionBatch) -> (r: crate::rollback::RollbackRun)
        ensures
            r.wf(),
            r.batch() == batch.batch_id,
            r.entries() == batch.rollback_entries@.reverse(),
            r.outcomes().len() == 0,
    {
        crate::rollback::rollback_batch(batch)
    }
}

} // verus!
