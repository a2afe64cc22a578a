//! Properties of the library as a whole, each proved from the
//! specifications that the functions' contracts use.

use vstd::prelude::*;
use crate::ai_gateway::{
    config_check, is_secret_word, join_with_space, redact_word, redacted_prompt, trimmed_base_url, words,
    words_from, ProviderConfig, ProviderKind,
};
use crate::batch_dto::{
    action_parts, batch_dto_error, entry_dto_error, error_dto_error, error_dto_view, executed_dto_error,
    first_error, is_batch_dto_of, is_batch_of_dto, is_entry_dto_of, is_entry_of_dto, is_executed_dto_of,
    is_executed_of_dto,
};
use crate::classifier::skill_category;
use crate::clock::writes_readably;
use crate::executor::{
    duplicate_issues, duplicate_issues_at, entries_view, entry_view, executed_count, first_with_destination,
    is_batch_of, moved_to, operation_issues, operations_issues, plan_issues, probes_fit, shares_destination,
    sharing_ids, stopped, succeeded, undo_action, undo_records, OperationOutcome, PlanProbes, containment_issues,
    move_issues, root_issues, OperationProbe,
};
use crate::keys::{
    category_label, category_named, execution_status_key, execution_status_named, mode_key, mode_named,
    operation_type, risk_label, risk_named,
};
use crate::model::{
    kind_destination, kind_source, ExecutedOperationDto, ExecutionBatch, ExecutionBatchDto, ExecutionErrorDto,
    ExecutionStatus, FileCategory, FileItem, FileOperationPlan, FileRiskLevel, OperationRowDto, OrganizationMode,
    OrganizationPlan, OrganizationPlanDto, RollbackEntry, RollbackEntryDto, SkillRule, UserDecision,
    UserDecisionEvent, ValidationIssue,
};
use crate::plan_dto::{
    count_kind, id_reads_back, id_text_opt, is_operation_of_row, is_plan_dto_of, is_plan_of_dto, is_row_of,
    is_summary_of, kind_rank, plan_dto_error, row_error, row_target, selected_error, selected_rows,
};
use crate::platform::category_key;
use crate::rollback::{undo_errors, undo_failure, undone_ids, UndoOutcome};
use crate::skill_engine::{proposing, rule_accepts, FileFacts};
use crate::text::{ascii_lower, contains_seq, is_whitespace, starts_with};
use crate::suggestion::{filled_text, entries_outcome, entry_found, entry_outcome, found, items_of, suggestion_outcome, EntryLookups, JsonFound, SuggestionLookups};
use crate::path::{components, has_parent_dir, path_starts_with, has_root, join, join_with_slash, keep_part, leading_cur_dir, named_parts, parts_from};
use crate::platform::{is_sensitive, normalized, sensitive_count, sensitive_suffix};
use crate::text::ends_with;
use crate::model::FileOperationKind;

verus! {

/// A skill whose matcher has no condition matches no file.
pub proof fn law_empty_skill_matcher_matches_nothing(file: FileItem, rule: SkillRule, facts: FileFacts)
    requires
        rule.extension is None,
        rule.file_name_contains is None,
        rule.mime_prefix is None,
    ensures
        skill_category(file, rule) is None,
        !rule_accepts(rule, facts),
{
}

/// Rejected suggestions never become proposed skills.
pub proof fn law_rejected_events_propose_nothing(events: Seq<UserDecisionEvent>)
    requires
        forall|i: int| 0 <= i < events.len() ==> (#[trigger] events[i]).decision == UserDecision::Rejected,
    ensures
        proposing(events).len() == 0,
    decreases events.len(),
{
    if events.len() > 0 {
        let rest = events.drop_last();
        assert forall|i: int| 0 <= i < rest.len() implies (#[trigger] rest[i]).decision == UserDecision::Rejected by {
            assert(rest[i] == events[i]);
        }
        law_rejected_events_propose_nothing(rest);
        assert(events.last() == events[events.len() - 1]);
    }
}

/// A cloud provider is accepted only when cloud use is enabled and a base
/// URL is given.
pub proof fn law_cloud_provider_needs_opt_in(config: ProviderConfig)
    requires
        config_check(config) == Ok::<ProviderKind, crate::ai_gateway::GatewayError>(ProviderKind::OpenAiCompatible),
    ensures
        config.cloud_enabled,
        trimmed_base_url(config).len() > 0,
{
}

/// The debugging text of an authorization header is the same whatever the
/// key: the key never shows.
pub proof fn law_authorization_header_hides_key(k1: Seq<char>, k2: Seq<char>)
    ensures
        crate::provider_http::header_debug("Authorization"@, "Bearer "@ + k1) == crate::provider_http::header_debug(
            "Authorization"@,
            "Bearer "@ + k2,
        ),
{
    reveal_strlit("Authorization");
    reveal_strlit("authorization");
    assert(crate::text::ascii_lower("Authorization"@) =~= "authorization"@);
    assert(crate::text::ascii_lower("authorization"@) =~= "authorization"@);
    assert(crate::provider_http::redacts("Authorization"@));
}

/// A category's key and its label both read back as the category.
pub proof fn law_category_texts_read_back(c: FileCategory)
    ensures
        category_named(category_key(c)) == Some(c),
        category_named(category_label(c)) == Some(c),
{
    reveal_strlit("documents");
    assert("documents"@.len() == 9);
    assert("documents"@[0] == 'd');
    reveal_strlit("Documents");
    assert("Documents"@.len() == 9);
    assert("Documents"@[0] == 'D');
    reveal_strlit("文档");
    assert("文档"@.len() == 2);
    assert("文档"@[0] == '文');
    reveal_strlit("images");
    assert("images"@.len() == 6);
    assert("images"@[0] == 'i');
    reveal_strlit("Images");
    assert("Images"@.len() == 6);
    assert("Images"@[0] == 'I');
    reveal_strlit("图片");
    assert("图片"@.len() == 2);
    assert("图片"@[0] == '图');
    reveal_strlit("videos");
    assert("videos"@.len() == 6);
    assert("videos"@[0] == 'v');
    reveal_strlit("Videos");
    assert("Videos"@.len() == 6);
    assert("Videos"@[0] == 'V');
    reveal_strlit("视频");
    assert("视频"@.len() == 2);
    assert("视频"@[0] == '视');
    reveal_strlit("audio");
    assert("audio"@.len() == 5);
    assert("audio"@[0] == 'a');
    reveal_strlit("Audio");
    assert("Audio"@.len() == 5);
    assert("Audio"@[0] == 'A');
    reveal_strlit("音频");
    assert("音频"@.len() == 2);
    assert("音频"@[0] == '音');
    reveal_strlit("archives");
    assert("archives"@.len() == 8);
    assert("archives"@[0] == 'a');
    reveal_strlit("Archives");
    assert("Archives"@.len() == 8);
    assert("Archives"@[0] == 'A');
    reveal_strlit("压缩包");
    assert("压缩包"@.len() == 3);
    assert("压缩包"@[0] == '压');
    reveal_strlit("installers");
    assert("installers"@.len() == 10);
    assert("installers"@[0] == 'i');
    reveal_strlit("Installers");
    assert("Installers"@.len() == 10);
    assert("Installers"@[0] == 'I');
    reveal_strlit("安装包");
    assert("安装包"@.len() == 3);
    assert("安装包"@[0] == '安');
    reveal_strlit("code");
    assert("code"@.len() == 4);
    assert("code"@[0] == 'c');
    reveal_strlit("Code");
    assert("Code"@.len() == 4);
    assert("Code"@[0] == 'C');
    reveal_strlit("代码");
    assert("代码"@.len() == 2);
    assert("代码"@[0] == '代');
    reveal_strlit("spreadsheets");
    assert("spreadsheets"@.len() == 12);
    assert("spreadsheets"@[0] == 's');
    reveal_strlit("Spreadsheets");
    assert("Spreadsheets"@.len() == 12);
    assert("Spreadsheets"@[0] == 'S');
    reveal_strlit("表格");
    assert("表格"@.len() == 2);
    assert("表格"@[0] == '表');
    reveal_strlit("presentations");
    assert("presentations"@.len() == 13);
    assert("presentations"@[0] == 'p');
    reveal_strlit("Presentations");
    assert("Presentations"@.len() == 13);
    assert("Presentations"@[0] == 'P');
    reveal_strlit("演示文稿");
    assert("演示文稿"@.len() == 4);
    assert("演示文稿"@[0] == '演');
    reveal_strlit("pdf");
    assert("pdf"@.len() == 3);
    assert("pdf"@[0] == 'p');
    reveal_strlit("Pdf");
    assert("Pdf"@.len() == 3);
    assert("Pdf"@[0] == 'P');
    reveal_strlit("PDF");
    assert("PDF"@.len() == 3);
    assert("PDF"@[0] == 'P');
    reveal_strlit("other");
    assert("other"@.len() == 5);
    assert("other"@[0] == 'o');
    reveal_strlit("Other");
    assert("Other"@.len() == 5);
    assert("Other"@[0] == 'O');
    reveal_strlit("其他");
    assert("其他"@.len() == 2);
    assert("其他"@[0] == '其');
    match c {
        FileCategory::Documents => {
            assert(category_key(c) == "documents"@);
            assert(category_label(c) == "文档"@);
        },
        FileCategory::Images => {
            assert(category_key(c) == "images"@);
            assert(category_label(c) == "图片"@);
        },
        FileCategory::Videos => {
            assert(category_key(c) == "videos"@);
            assert(category_label(c) == "视频"@);
        },
        FileCategory::Audio => {
            assert(category_key(c) == "audio"@);
            assert(category_label(c) == "音频"@);
        },
        FileCategory::Archives => {
            assert(category_key(c) == "archives"@);
            assert(category_label(c) == "压缩包"@);
        },
        FileCategory::Installers => {
            assert(category_key(c) == "installers"@);
            assert(category_label(c) == "安装包"@);
        },
        FileCategory::Code => {
            assert(category_key(c) == "code"@);
            assert(category_label(c) == "代码"@);
        },
        FileCategory::Spreadsheets => {
            assert(category_key(c) == "spreadsheets"@);
            assert(category_label(c) == "表格"@);
        },
        FileCategory::Presentations => {
            assert(category_key(c) == "presentations"@);
            assert(category_label(c) == "演示文稿"@);
        },
        FileCategory::Pdf => {
            assert(category_key(c) == "pdf"@);
            assert(category_label(c) == "PDF"@);
        },
        FileCategory::Other => {
            assert(category_key(c) == "other"@);
            assert(category_label(c) == "其他"@);
        },
    }
}

/// A mode's key reads back as the mode.
pub proof fn law_mode_key_reads_back(m: OrganizationMode)
    ensures
        mode_named(mode_key(m)) == Some(m),
{
    reveal_strlit("by_category");
    assert("by_category"@.len() == 11);
    assert("by_category"@[0] == 'b');
    reveal_strlit("category");
    assert("category"@.len() == 8);
    assert("category"@[0] == 'c');
    reveal_strlit("ByCategory");
    assert("ByCategory"@.len() == 10);
    assert("ByCategory"@[0] == 'B');
    reveal_strlit("by_extension");
    assert("by_extension"@.len() == 12);
    assert("by_extension"@[0] == 'b');
    reveal_strlit("extension");
    assert("extension"@.len() == 9);
    assert("extension"@[0] == 'e');
    reveal_strlit("ByExtension");
    assert("ByExtension"@.len() == 11);
    assert("ByExtension"@[0] == 'B');
    reveal_strlit("desktop");
    assert("desktop"@.len() == 7);
    assert("desktop"@[0] == 'd');
    reveal_strlit("Desktop");
    assert("Desktop"@.len() == 7);
    assert("Desktop"@[0] == 'D');
    match m {
        OrganizationMode::ByCategory => {
            assert(mode_key(m) == "by_category"@);
        },
        OrganizationMode::ByExtension => {
            assert(mode_key(m) == "by_extension"@);
        },
        OrganizationMode::Desktop => {
            assert(mode_key(m) == "desktop"@);
        },
    }
}

/// An execution status's key reads back as the status.
pub proof fn law_status_key_reads_back(s: ExecutionStatus)
    ensures
        execution_status_named(execution_status_key(s)) == Some(s),
{
    reveal_strlit("completed");
    assert("completed"@.len() == 9);
    assert("completed"@[0] == 'c');
    reveal_strlit("Completed");
    assert("Completed"@.len() == 9);
    assert("Completed"@[0] == 'C');
    reveal_strlit("partially_failed");
    assert("partially_failed"@.len() == 16);
    assert("partially_failed"@[0] == 'p');
    reveal_strlit("PartiallyFailed");
    assert("PartiallyFailed"@.len() == 15);
    assert("PartiallyFailed"@[0] == 'P');
    reveal_strlit("rejected");
    assert("rejected"@.len() == 8);
    assert("rejected"@[0] == 'r');
    reveal_strlit("Rejected");
    assert("Rejected"@.len() == 8);
    assert("Rejected"@[0] == 'R');
    match s {
        ExecutionStatus::Completed => {
            assert(execution_status_key(s) == "completed"@);
        },
        ExecutionStatus::PartiallyFailed => {
            assert(execution_status_key(s) == "partially_failed"@);
        },
        ExecutionStatus::Rejected => {
            assert(execution_status_key(s) == "rejected"@);
        },
    }
}

/// A risk level's key reads back as the level.
pub proof fn law_risk_label_reads_back(r: FileRiskLevel)
    ensures
        risk_named(risk_label(r)) == Some(r),
{
    reveal_strlit("");
    assert(""@.len() == 0);
    reveal_strlit("low");
    assert("low"@.len() == 3);
    assert("low"@[0] == 'l');
    reveal_strlit("Low");
    assert("Low"@.len() == 3);
    assert("Low"@[0] == 'L');
    reveal_strlit("medium");
    assert("medium"@.len() == 6);
    assert("medium"@[0] == 'm');
    reveal_strlit("Medium");
    assert("Medium"@.len() == 6);
    assert("Medium"@[0] == 'M');
    reveal_strlit("high");
    assert("high"@.len() == 4);
    assert("high"@[0] == 'h');
    reveal_strlit("High");
    assert("High"@.len() == 4);
    assert("High"@[0] == 'H');
    match r {
        FileRiskLevel::Low => {
            assert(risk_label(r) == "low"@);
        },
        FileRiskLevel::Medium => {
            assert(risk_label(r) == "medium"@);
        },
        FileRiskLevel::High => {
            assert(risk_label(r) == "high"@);
        },
    }
}

/// The counts of a plan cover every operation once.
pub proof fn law_summary_counts_every_operation(ops: Seq<FileOperationPlan>)
    ensures
        count_kind(ops, 0) + count_kind(ops, 1) + count_kind(ops, 2) == ops.len(),
    decreases ops.len(),
{
    if ops.len() > 0 {
        law_summary_counts_every_operation(ops.drop_last());
    }
}

/// The issues of the first `k` operations include those of each of them.
proof fn lemma_operations_issues_include(plan: OrganizationPlan, probes: PlanProbes, k: int, i: int)
    requires
        0 <= i < k,
    ensures
        operations_issues(plan, probes, k).len() >= operation_issues(
            plan.operations@[i],
            plan.root_path@,
            probes.root_canonical,
            probes.operations@[i],
        ).len(),
    decreases k,
{
    if i < k - 1 {
        lemma_operations_issues_include(plan, probes, k - 1, i);
    }
}

/// A plan with an operation that has an issue (a path with `..`, a path
/// outside the root, a missing source, an existing destination, ...) is
/// never valid.
pub proof fn law_operation_issue_invalidates_plan(plan: OrganizationPlan, probes: PlanProbes, i: int)
    requires
        probes_fit(plan, probes),
        0 <= i < plan.operations@.len(),
        operation_issues(plan.operations@[i], plan.root_path@, probes.root_canonical, probes.operations@[i]).len() > 0,
    ensures
        plan_issues(plan, probes).len() > 0,
{
    lemma_operations_issues_include(plan, probes, plan.operations@.len() as int, i);
}

/// Every operation that moves somewhere shares its destination with a first
/// such operation at or before it.
proof fn lemma_group_has_first(ops: Seq<FileOperationPlan>, i: int) -> (f: int)
    requires
        0 <= i < ops.len(),
        moved_to(ops[i]) is Some,
    ensures
        0 <= f <= i,
        first_with_destination(ops, f),
        moved_to(ops[f]) == moved_to(ops[i]),
    decreases i,
{
    if first_with_destination(ops, i) {
        i
    } else {
        let j = choose|j: int| 0 <= j < i && shares_destination(ops, i, j);
        lemma_group_has_first(ops, j)
    }
}

/// The ids sharing a destination grow with the operations looked at.
proof fn lemma_sharing_ids_grow(ops: Seq<FileOperationPlan>, f: int, a: int, k: int)
    requires
        0 <= a < k,
        shares_destination(ops, f, a),
    ensures
        sharing_ids(ops, f, k).len() >= sharing_ids(ops, f, a).len() + 1,
    decreases k,
{
    if a < k - 1 {
        lemma_sharing_ids_grow(ops, f, a, k - 1);
    }
}

/// The duplicate issues of all groups include those of each group.
proof fn lemma_duplicate_issues_include(ops: Seq<FileOperationPlan>, f: int, k: int)
    requires
        0 <= f < k,
    ensures
        duplicate_issues(ops, k).len() >= duplicate_issues_at(ops, f).len(),
    decreases k,
{
    if f < k - 1 {
        lemma_duplicate_issues_include(ops, f, k - 1);
    }
}

/// Two moves or renames to the same destination make a plan invalid, with
/// at least one issue for each of them.
pub proof fn law_duplicate_destinations_invalidate_plan(plan: OrganizationPlan, probes: PlanProbes, i: int, j: int)
    requires
        0 <= i < j < plan.operations@.len(),
        moved_to(plan.operations@[i]) is Some,
        moved_to(plan.operations@[i]) == moved_to(plan.operations@[j]),
    ensures
        duplicate_issues(plan.operations@, plan.operations@.len() as int).len() >= 2,
        plan_issues(plan, probes).len() >= 2,
{
    let ops = plan.operations@;
    let n = ops.len() as int;
    let f = lemma_group_has_first(ops, i);
    assert(shares_destination(ops, f, i));
    assert(shares_destination(ops, f, j));
    lemma_sharing_ids_grow(ops, f, i, j);
    lemma_sharing_ids_grow(ops, f, j, n);
    lemma_duplicate_issues_include(ops, f, n);
}

/// A batch is completed exactly when it holds no error, and it holds at
/// most one.
pub proof fn law_batch_status_matches_errors(
    b: ExecutionBatch,
    batch_id: u128,
    plan_id: u128,
    started_at: crate::clock::Timestamp,
    ops: Seq<FileOperationPlan>,
    outcomes: Seq<OperationOutcome>,
)
    requires
        is_batch_of(b, batch_id, plan_id, started_at, ops, outcomes),
    ensures
        (b.status == ExecutionStatus::Completed) == (b.errors@.len() == 0),
        b.errors@.len() <= 1,
{
    assert(b.errors@.len() == crate::rollback::errors_view(b.errors@).len());
}

/// A run that did not stop and has an outcome for every operation carried
/// out every operation of the plan, and its batch is completed.
pub proof fn law_complete_run_executes_every_operation(
    b: ExecutionBatch,
    batch_id: u128,
    plan_id: u128,
    started_at: crate::clock::Timestamp,
    ops: Seq<FileOperationPlan>,
    outcomes: Seq<OperationOutcome>,
)
    requires
        is_batch_of(b, batch_id, plan_id, started_at, ops, outcomes),
        outcomes.len() == ops.len(),
        !stopped(outcomes),
    ensures
        b.executed_operations@.len() == ops.len(),
        b.status == ExecutionStatus::Completed,
        forall|k: int| 0 <= k < ops.len() ==> (#[trigger] b.executed_operations@[k]).operation_id == ops[k].operation_id,
{
}

/// `x` undoes one of the first `k` operations, one that changed something.
pub open spec fn undoes_one_of(
    x: (u128, u128, crate::model::RollbackAction),
    batch_id: u128,
    ops: Seq<FileOperationPlan>,
    outcomes: Seq<OperationOutcome>,
    k: int,
) -> bool {
    exists|j: int|
        #![trigger ops[j]]
        0 <= j < k && outcomes[j] == OperationOutcome::Done && x == (batch_id, ops[j].operation_id, undo_action(ops[j]))
}

/// Each rollback record of the first `k` outcomes undoes one of the first
/// `k` operations of this batch.
proof fn lemma_undo_records_belong(
    batch_id: u128,
    ops: Seq<FileOperationPlan>,
    outcomes: Seq<OperationOutcome>,
    k: int,
)
    requires
        0 <= k <= ops.len(),
        k <= outcomes.len(),
    ensures
        forall|r: int|
            0 <= r < undo_records(batch_id, ops, outcomes, k).len() ==> undoes_one_of(
                #[trigger] undo_records(batch_id, ops, outcomes, k)[r],
                batch_id,
                ops,
                outcomes,
                k,
            ),
    decreases k,
{
    if k > 0 {
        lemma_undo_records_belong(batch_id, ops, outcomes, k - 1);
        let prev = undo_records(batch_id, ops, outcomes, k - 1);
        assert forall|r: int|
            0 <= r < undo_records(batch_id, ops, outcomes, k).len() implies undoes_one_of(
                #[trigger] undo_records(batch_id, ops, outcomes, k)[r],
                batch_id,
                ops,
                outcomes,
                k,
            ) by {
            let x = undo_records(batch_id, ops, outcomes, k)[r];
            if r < prev.len() {
                assert(x == prev[r]);
                assert(undoes_one_of(prev[r], batch_id, ops, outcomes, k - 1));
                let j = choose|j: int|
                    #![trigger ops[j]]
                    0 <= j < k - 1 && outcomes[j] == OperationOutcome::Done && prev[r] == (
                        batch_id,
                        ops[j].operation_id,
                        undo_action(ops[j]),
                    );
                assert(x == (batch_id, ops[j].operation_id, undo_action(ops[j])));
            } else {
                assert(outcomes[k - 1] == OperationOutcome::Done);
                assert(x == (batch_id, ops[k - 1].operation_id, undo_action(ops[k - 1])));
            }
        }
    }
}

/// Every rollback record of a batch belongs to the batch and undoes an
/// operation that was carried out and changed something: a created folder
/// is removed, a moved or renamed file goes back from its destination to
/// its source.
pub proof fn law_rollback_records_undo_executed_operations(
    b: ExecutionBatch,
    batch_id: u128,
    plan_id: u128,
    started_at: crate::clock::Timestamp,
    ops: Seq<FileOperationPlan>,
    outcomes: Seq<OperationOutcome>,
    r: int,
)
    requires
        is_batch_of(b, batch_id, plan_id, started_at, ops, outcomes),
        outcomes.len() <= ops.len(),
        0 <= r < b.rollback_entries@.len(),
    ensures
        undoes_one_of(entry_view(b.rollback_entries@[r]), batch_id, ops, outcomes, executed_count(outcomes)),
{
    let n = executed_count(outcomes);
    lemma_undo_records_belong(batch_id, ops, outcomes, n);
    assert(entries_view(b.rollback_entries@)[r] == entry_view(b.rollback_entries@[r]));
}

/// When every entry is undone, the ids undone are those of the entries, in
/// the order in which they were undone.
pub proof fn law_full_rollback_undoes_every_entry(entries: Seq<RollbackEntry>, outcomes: Seq<UndoOutcome>, k: int)
    requires
        0 <= k <= entries.len(),
        k <= outcomes.len(),
        forall|i: int| 0 <= i < k ==> outcomes[i] == UndoOutcome::Undone,
    ensures
        undone_ids(entries, outcomes, k) == entries.subrange(0, k).map_values(|e: RollbackEntry| e.operation_id),
    decreases k,
{
    if k > 0 {
        law_full_rollback_undoes_every_entry(entries, outcomes, k - 1);
        assert(entries.subrange(0, k).map_values(|e: RollbackEntry| e.operation_id) =~= entries.subrange(
            0,
            k - 1,
        ).map_values(|e: RollbackEntry| e.operation_id).push(entries[k - 1].operation_id));
    }
}

/// Two operations are the same: id, file, kind (its key, source and
/// target) and reason.
pub open spec fn same_operation(a: FileOperationPlan, b: FileOperationPlan) -> bool {
    &&& a.operation_id == b.operation_id
    &&& a.file_id == b.file_id
    &&& operation_type(a.kind) == operation_type(b.kind)
    &&& kind_source(a.kind) == kind_source(b.kind)
    &&& kind_destination(a.kind) == kind_destination(b.kind)
    &&& a.reason@ == b.reason@
}

/// The three operation keys are distinct texts.
proof fn lemma_operation_keys_distinct()
    ensures
        "create_folder"@ != "move_file"@,
        "create_folder"@ != "rename_file"@,
        "move_file"@ != "rename_file"@,
{
    reveal_strlit("create_folder");
    reveal_strlit("move_file");
    reveal_strlit("rename_file");
    assert("create_folder"@[0] == 'c');
    assert("move_file"@[0] == 'm');
    assert("rename_file"@[0] == 'r');
}

/// The row of an operation describes it: it is no error, and it reads back
/// as the same operation.
proof fn lemma_row_reads_back(row: OperationRowDto, op: FileOperationPlan, issues: Seq<ValidationIssue>, risks: Map<u128, String>)
    requires
        is_row_of(row, op, issues, risks),
    ensures
        row.selected,
        row_error(row) is None,
        forall|back: FileOperationPlan| #[trigger] is_operation_of_row(back, row) ==> same_operation(back, op),
{
    lemma_operation_keys_distinct();
    assert(row_target(row) == kind_destination(op.kind));
    assert forall|back: FileOperationPlan| #[trigger] is_operation_of_row(back, row) implies same_operation(back, op) by {
        match row.file_id {
            Some(f) => {
                assert(op.file_id is Some);
            },
            None => {
                assert(op.file_id is None);
            },
        }
    }
}

/// When every row is selected and none is an error, the selected rows are
/// all the rows and there is no error among them.
proof fn lemma_all_rows_selected(rows: Seq<OperationRowDto>, k: int)
    requires
        0 <= k <= rows.len(),
        forall|i: int| 0 <= i < rows.len() ==> (#[trigger] rows[i]).selected && row_error(rows[i]) is None,
    ensures
        selected_error(rows, k) is None,
        selected_rows(rows, k) =~= rows.subrange(0, k),
    decreases k,
{
    if k > 0 {
        lemma_all_rows_selected(rows, k - 1);
        assert(rows[k - 1].selected);
    }
}

/// Operations of the same kinds, one for one, have the same counts.
proof fn lemma_same_kinds_same_counts(a: Seq<FileOperationPlan>, b: Seq<FileOperationPlan>, rank: int)
    requires
        a.len() == b.len(),
        forall|k: int| 0 <= k < a.len() ==> operation_type((#[trigger] a[k]).kind) == operation_type(b[k].kind),
    ensures
        count_kind(a, rank) == count_kind(b, rank),
    decreases a.len(),
{
    lemma_operation_keys_distinct();
    if a.len() > 0 {
        let n = a.len() - 1;
        assert(operation_type(a[n].kind) == operation_type(b[n].kind));
        assert(kind_rank(a.last().kind) == kind_rank(b.last().kind));
        lemma_same_kinds_same_counts(a.drop_last(), b.drop_last(), rank);
    }
}

/// A plan's preview reads back as the plan: no error, and the plan read
/// back has the same id, task, root, mode, operations (in order), counts and
/// creation time. This holds of plans whose counts are those of their
/// operations, created in the years 0000 to 9999.
pub proof fn law_plan_preview_reads_back(
    plan: OrganizationPlan,
    d: OrganizationPlanDto,
    issues: Seq<ValidationIssue>,
    risks: Map<u128, String>,
    back: OrganizationPlan,
)
    requires
        is_plan_dto_of(d, plan, issues, risks),
        is_summary_of(plan.summary, plan.summary.files_considered, plan.operations@),
        writes_readably(plan.created_at),
    ensures
        plan_dto_error(d) is None,
        is_plan_of_dto(back, d) ==> {
            &&& back.plan_id == plan.plan_id
            &&& back.task_id@ == plan.task_id@
            &&& back.root_path@ == plan.root_path@
            &&& back.mode == plan.mode
            &&& back.operations@.len() == plan.operations@.len()
            &&& forall|k: int|
                0 <= k < plan.operations@.len() ==> same_operation(
                    #[trigger] back.operations@[k],
                    plan.operations@[k],
                )
            &&& back.summary == plan.summary
            &&& back.created_at == plan.created_at
        },
{
    let rows = d.rows@;
    assert forall|i: int| 0 <= i < rows.len() implies (#[trigger] rows[i]).selected && row_error(rows[i]) is None by {
        lemma_row_reads_back(rows[i], plan.operations@[i], issues, risks);
    }
    lemma_all_rows_selected(rows, rows.len() as int);
    law_mode_key_reads_back(plan.mode);
    if is_plan_of_dto(back, d) {
        let sel = selected_rows(rows, rows.len() as int);
        assert(sel =~= rows);
        assert forall|k: int| 0 <= k < plan.operations@.len() implies same_operation(
            #[trigger] back.operations@[k],
            plan.operations@[k],
        ) by {
            lemma_row_reads_back(rows[k], plan.operations@[k], issues, risks);
            assert(is_operation_of_row(back.operations@[k], sel[k]));
        }
        assert forall|k: int| 0 <= k < back.operations@.len() implies operation_type(
            (#[trigger] back.operations@[k]).kind,
        ) == operation_type(plan.operations@[k].kind) by {
            assert(same_operation(back.operations@[k], plan.operations@[k]));
        }
        lemma_same_kinds_same_counts(back.operations@, plan.operations@, 0);
        lemma_same_kinds_same_counts(back.operations@, plan.operations@, 1);
        lemma_same_kinds_same_counts(back.operations@, plan.operations@, 2);
    }
}

/// Every time a batch holds is one that RFC 3339 writes readably.
pub open spec fn batch_times_readable(b: ExecutionBatch) -> bool {
    &&& writes_readably(b.started_at)
    &&& writes_readably(b.finished_at)
    &&& forall|k: int| 0 <= k < b.executed_operations@.len() ==> writes_readably(
        (#[trigger] b.executed_operations@[k]).completed_at,
    )
    &&& forall|k: int| 0 <= k < b.rollback_entries@.len() ==> writes_readably(
        (#[trigger] b.rollback_entries@[k]).created_at,
    )
}

/// Two batches are the same: ids, status, times, and each carried-out
/// operation, rollback record and error, in order.
pub open spec fn same_batch(a: ExecutionBatch, b: ExecutionBatch) -> bool {
    &&& a.batch_id == b.batch_id
    &&& a.plan_id == b.plan_id
    &&& a.status == b.status
    &&& a.started_at == b.started_at
    &&& a.finished_at == b.finished_at
    &&& a.executed_operations@.len() == b.executed_operations@.len()
    &&& forall|k: int| 0 <= k < a.executed_operations@.len() ==> {
        let x = #[trigger] a.executed_operations@[k];
        let y = b.executed_operations@[k];
        &&& x.operation_id == y.operation_id
        &&& operation_type(x.kind) == operation_type(y.kind)
        &&& kind_source(x.kind) == kind_source(y.kind)
        &&& kind_destination(x.kind) == kind_destination(y.kind)
        &&& x.completed_at == y.completed_at
    }
    &&& a.rollback_entries@.len() == b.rollback_entries@.len()
    &&& forall|k: int| 0 <= k < a.rollback_entries@.len() ==> {
        let x = #[trigger] a.rollback_entries@[k];
        let y = b.rollback_entries@[k];
        &&& x.batch_id == y.batch_id
        &&& x.operation_id == y.operation_id
        &&& action_parts(x.action) == action_parts(y.action)
        &&& x.created_at == y.created_at
    }
    &&& a.errors@.len() == b.errors@.len()
    &&& forall|k: int| 0 <= k < a.errors@.len() ==> {
        &&& (#[trigger] a.errors@[k]).operation_id == b.errors@[k].operation_id
        &&& a.errors@[k].message@ == b.errors@[k].message@
    }
}

/// Items none of which fails have no first failure.
proof fn lemma_no_first_error<T>(s: Seq<T>, err: spec_fn(T) -> Option<Seq<char>>, k: int)
    requires
        0 <= k <= s.len(),
        forall|i: int| 0 <= i < s.len() ==> (#[trigger] err(s[i])) is None,
    ensures
        first_error(s, err, k) is None,
    decreases k,
{
    if k > 0 {
        lemma_no_first_error(s, err, k - 1);
        assert(err(s[k - 1]) is None);
    }
}

/// The three rollback keys are distinct texts.
proof fn lemma_action_keys_distinct()
    ensures
        "remove_created_folder"@ != "move_file_back"@,
        "remove_created_folder"@ != "rename_file_back"@,
        "move_file_back"@ != "rename_file_back"@,
{
    reveal_strlit("remove_created_folder");
    reveal_strlit("move_file_back");
    reveal_strlit("rename_file_back");
    assert("remove_created_folder"@[0] == 'r');
    assert("remove_created_folder"@[1] == 'e');
    assert("rename_file_back"@[2] == 'n');
    assert("remove_created_folder"@[2] == 'm');
    assert("move_file_back"@[0] == 'm');
}

/// A batch's record reads back as the batch: no error, and the batch read
/// back is the same. This is what lets a batch be undone from the history.
/// It holds of batches whose times all lie in the years 0000 to 9999.
pub proof fn law_batch_record_reads_back(b: ExecutionBatch, d: ExecutionBatchDto, back: ExecutionBatch)
    requires
        is_batch_dto_of(d, b),
        batch_times_readable(b),
    ensures
        batch_dto_error(d) is None,
        is_batch_of_dto(back, d) ==> same_batch(back, b),
{
    lemma_operation_keys_distinct();
    lemma_action_keys_distinct();
    law_status_key_reads_back(b.status);
    let ops = d.executed_operations@;
    let entries = d.rollback_entries@;
    let errs = d.errors@;
    let f1 = |o: ExecutedOperationDto| executed_dto_error(o);
    let f2 = |x: RollbackEntryDto| entry_dto_error(x);
    let f3 = |x: ExecutionErrorDto| error_dto_error(x);
    assert forall|i: int| 0 <= i < ops.len() implies (#[trigger] f1(ops[i])) is None by {
        assert(is_executed_dto_of(ops[i], b.executed_operations@[i]));
        assert(writes_readably(b.executed_operations@[i].completed_at));
    }
    assert forall|i: int| 0 <= i < entries.len() implies (#[trigger] f2(entries[i])) is None by {
        assert(is_entry_dto_of(entries[i], b.rollback_entries@[i]));
        assert(writes_readably(b.rollback_entries@[i].created_at));
    }
    assert forall|i: int| 0 <= i < errs.len() implies (#[trigger] f3(errs[i])) is None by {
        assert(error_dto_view(errs[i]) == (id_text_opt(b.errors@[i].operation_id), b.errors@[i].message@));
        assert(id_reads_back(errs[i].operation_id, b.errors@[i].operation_id));
        match b.errors@[i].operation_id {
            Some(v) => {},
            None => {
                assert(errs[i].operation_id is None);
            },
        }
    }
    lemma_no_first_error(ops, f1, ops.len() as int);
    lemma_no_first_error(entries, f2, entries.len() as int);
    lemma_no_first_error(errs, f3, errs.len() as int);
    if is_batch_of_dto(back, d) {
        assert forall|k: int| 0 <= k < back.executed_operations@.len() implies {
            let x = #[trigger] back.executed_operations@[k];
            let y = b.executed_operations@[k];
            &&& x.operation_id == y.operation_id
            &&& operation_type(x.kind) == operation_type(y.kind)
            &&& kind_source(x.kind) == kind_source(y.kind)
            &&& kind_destination(x.kind) == kind_destination(y.kind)
            &&& x.completed_at == y.completed_at
        } by {
            assert(is_executed_dto_of(ops[k], b.executed_operations@[k]));
            assert(is_executed_of_dto(back.executed_operations@[k], ops[k]));
            assert(writes_readably(b.executed_operations@[k].completed_at));
        }
        assert forall|k: int| 0 <= k < back.rollback_entries@.len() implies {
            let x = #[trigger] back.rollback_entries@[k];
            let y = b.rollback_entries@[k];
            &&& x.batch_id == y.batch_id
            &&& x.operation_id == y.operation_id
            &&& action_parts(x.action) == action_parts(y.action)
            &&& x.created_at == y.created_at
        } by {
            assert(is_entry_dto_of(entries[k], b.rollback_entries@[k]));
            assert(is_entry_of_dto(back.rollback_entries@[k], entries[k]));
            assert(writes_readably(b.rollback_entries@[k].created_at));
        }
        assert forall|k: int| 0 <= k < back.errors@.len() implies {
            &&& (#[trigger] back.errors@[k]).operation_id == b.errors@[k].operation_id
            &&& back.errors@[k].message@ == b.errors@[k].message@
        } by {
            assert(error_dto_view(errs[k]) == (id_text_opt(b.errors@[k].operation_id), b.errors@[k].message@));
            assert(id_reads_back(errs[k].operation_id, b.errors@[k].operation_id));
        }
    }
}

/// A word: not empty, and without whitespace.
spec fn is_word(w: Seq<char>) -> bool {
    w.len() > 0 && forall|i: int| 0 <= i < w.len() ==> !is_whitespace(#[trigger] w[i])
}

/// The words read after a word in progress are words, and so is that one.
proof fn lemma_words_from_are_words(s: Seq<char>, cur: Seq<char>)
    requires
        forall|i: int| 0 <= i < cur.len() ==> !is_whitespace(#[trigger] cur[i]),
    ensures
        forall|k: int| 0 <= k < words_from(s, cur).len() ==> is_word(#[trigger] words_from(s, cur)[k]),
    decreases s.len(),
{
    let keep = if cur.len() > 0 { seq![cur] } else { Seq::<Seq<char>>::empty() };
    assert forall|k: int| 0 <= k < keep.len() implies is_word(#[trigger] keep[k]) by {
        assert(keep[k] == cur);
    }
    if s.len() == 0 {
        assert(words_from(s, cur) == keep);
        assert forall|k: int| 0 <= k < words_from(s, cur).len() implies is_word(#[trigger] words_from(s, cur)[k]) by {
            assert(words_from(s, cur)[k] == keep[k]);
        }
    } else {
        if is_whitespace(s[0]) {
            lemma_words_from_are_words(s.drop_first(), Seq::empty());
            let rest = words_from(s.drop_first(), Seq::empty());
            assert(words_from(s, cur) == keep + rest);
            assert forall|k: int| 0 <= k < words_from(s, cur).len() implies is_word(#[trigger] words_from(s, cur)[k]) by {
                if k < keep.len() {
                    assert(words_from(s, cur)[k] == keep[k]);
                } else {
                    assert(words_from(s, cur)[k] == rest[k - keep.len()]);
                }
            }
        } else {
            let next = cur.push(s[0]);
            assert forall|i: int| 0 <= i < next.len() implies !is_whitespace(#[trigger] next[i]) by {
                if i < cur.len() {
                    assert(next[i] == cur[i]);
                }
            }
            lemma_words_from_are_words(s.drop_first(), next);
            assert(words_from(s, cur) == words_from(s.drop_first(), next));
        }
    }
}

/// Characters without whitespace continue the word in progress.
proof fn lemma_words_from_word(w: Seq<char>, t: Seq<char>, cur: Seq<char>)
    requires
        forall|i: int| 0 <= i < w.len() ==> !is_whitespace(#[trigger] w[i]),
    ensures
        words_from(w + t, cur) == words_from(t, cur + w),
    decreases w.len(),
{
    if w.len() > 0 {
        assert((w + t).drop_first() =~= w.drop_first() + t);
        assert(!is_whitespace(w[0]));
        lemma_words_from_word(w.drop_first(), t, cur.push(w[0]));
        assert(cur.push(w[0]) + w.drop_first() =~= cur + w);
    } else {
        assert(w + t =~= t);
        assert(cur + w =~= cur);
    }
}

/// The words of words joined by spaces, then more text.
proof fn lemma_words_of_joined(ws: Seq<Seq<char>>, t: Seq<char>)
    requires
        ws.len() > 0,
        forall|k: int| 0 <= k < ws.len() ==> is_word(#[trigger] ws[k]),
    ensures
        words_from(join_with_space(ws) + t, Seq::empty()) == ws.drop_last() + words_from(t, ws.last()),
    decreases ws.len(),
{
    assert(is_word(ws.last()));
    if ws.len() == 1 {
        lemma_words_from_word(ws[0], t, Seq::empty());
        assert(Seq::<char>::empty() + ws[0] =~= ws[0]);
        assert(ws.drop_last() =~= Seq::<Seq<char>>::empty());
    } else {
        let front = ws.drop_last();
        let w = ws.last();
        assert forall|k: int| 0 <= k < front.len() implies is_word(#[trigger] front[k]) by {
            assert(front[k] == ws[k]);
        }
        let rest = seq![' '] + w + t;
        assert(join_with_space(ws) + t =~= join_with_space(front) + rest);
        lemma_words_of_joined(front, rest);
        assert(is_whitespace(' '));
        assert(rest.drop_first() =~= w + t);
        lemma_words_from_word(w, t, Seq::empty());
        assert(Seq::<char>::empty() + w =~= w);
        assert(front.last().len() > 0);
        assert(words_from(rest, front.last()) == seq![front.last()] + words_from(w + t, Seq::empty()));
        assert(front.drop_last() + (seq![front.last()] + words_from(t, w)) =~= front + words_from(t, w));
    }
}

/// Words joined by spaces read back as the same words.
proof fn lemma_words_join(ws: Seq<Seq<char>>)
    requires
        forall|k: int| 0 <= k < ws.len() ==> is_word(#[trigger] ws[k]),
    ensures
        words(join_with_space(ws)) == ws,
{
    if ws.len() == 0 {
        assert(words(join_with_space(ws)) =~= ws);
    } else {
        lemma_words_of_joined(ws, Seq::empty());
        assert(join_with_space(ws) + Seq::<char>::empty() =~= join_with_space(ws));
        assert(is_word(ws.last()));
        assert(words_from(Seq::<char>::empty(), ws.last()) == seq![ws.last()]);
        assert(ws.drop_last() + seq![ws.last()] =~= ws);
    }
}

/// The text that replaces a secret is a word and no secret.
proof fn lemma_redacted_mark()
    ensures
        is_word("<redacted>"@),
        !is_secret_word("<redacted>"@),
{
    reveal_strlit("<redacted>");
    reveal_strlit("api_key=");
    reveal_strlit("apikey=");
    reveal_strlit("authorization:");
    reveal_strlit("sk-");
    let m = "<redacted>"@;
    assert(m.len() == 10);
    assert(m[0] == '<' && m[1] == 'r' && m[2] == 'e' && m[3] == 'd' && m[4] == 'a');
    assert(m[5] == 'c' && m[6] == 't' && m[7] == 'e' && m[8] == 'd' && m[9] == '>');
    let lower = ascii_lower(m);
    assert(lower =~= m);
    assert("api_key="@.len() == 8 && "api_key="@[0] == 'a');
    assert("apikey="@.len() == 7 && "apikey="@[0] == 'a');
    assert("authorization:"@.len() == 14);
    assert("sk-"@.len() == 3 && "sk-"@[0] == 's');
    assert(!contains_seq(lower, "api_key="@)) by {
        assert forall|i: int| 0 <= i && i + 8 <= lower.len() implies #[trigger] lower.subrange(i, i + 8)
            != "api_key="@ by {
            assert(lower.subrange(i, i + 8)[0] == lower[i]);
        }
    }
    assert(!contains_seq(lower, "apikey="@)) by {
        assert forall|i: int| 0 <= i && i + 7 <= lower.len() implies #[trigger] lower.subrange(i, i + 7)
            != "apikey="@ by {
            assert(lower.subrange(i, i + 7)[0] == lower[i]);
        }
    }
    assert(!starts_with(lower, "sk-"@)) by {
        assert(lower.subrange(0, 3)[0] == '<');
    }
}

/// No word of a prompt as it may be sent is a secret: no key assignment,
/// authorization header, secret key or absolute path leaves the machine;
/// and sanitizing it again changes nothing.
pub proof fn law_sent_prompt_holds_no_secret(prompt: Seq<char>)
    ensures
        forall|k: int|
            0 <= k < words(redacted_prompt(prompt)).len() ==> !is_secret_word(
                #[trigger] words(redacted_prompt(prompt))[k],
            ),
        redacted_prompt(redacted_prompt(prompt)) == redacted_prompt(prompt),
{
    let ws = words(prompt);
    let f = |w: Seq<char>| redact_word(w);
    let mapped = ws.map_values(f);
    lemma_words_from_are_words(prompt, Seq::empty());
    lemma_redacted_mark();
    assert forall|k: int| 0 <= k < mapped.len() implies is_word(#[trigger] mapped[k]) && !is_secret_word(mapped[k]) by {
        assert(is_word(ws[k]));
    }
    lemma_words_join(mapped);
    assert(words(redacted_prompt(prompt)) == mapped);
    assert(mapped.map_values(f) =~= mapped);
}

/// The id an issue carries is none, or that of an operation of `ops`.
pub open spec fn names_operation(ops: Seq<FileOperationPlan>, id: Option<u128>) -> bool {
    match id {
        None => true,
        Some(v) => exists|j: int| 0 <= j < ops.len() && #[trigger] ops[j].operation_id == v,
    }
}

/// Every issue of `s` carries no id or the id of an operation of `ops`.
spec fn all_name(ops: Seq<FileOperationPlan>, s: Seq<(Option<u128>, Seq<char>)>) -> bool {
    forall|k: int| 0 <= k < s.len() ==> names_operation(ops, (#[trigger] s[k]).0)
}

/// Every issue of `s` carries the id `x`.
spec fn all_carry(s: Seq<(Option<u128>, Seq<char>)>, x: Option<u128>) -> bool {
    forall|k: int| 0 <= k < s.len() ==> (#[trigger] s[k]).0 == x
}

proof fn lemma_concat_carry(a: Seq<(Option<u128>, Seq<char>)>, b: Seq<(Option<u128>, Seq<char>)>, x: Option<u128>)
    requires
        all_carry(a, x),
        all_carry(b, x),
    ensures
        all_carry(a + b, x),
{
    assert forall|k: int| 0 <= k < (a + b).len() implies (#[trigger] (a + b)[k]).0 == x by {
        if k < a.len() {
            assert((a + b)[k] == a[k]);
        } else {
            assert((a + b)[k] == b[k - a.len()]);
        }
    }
}

proof fn lemma_concat_name(ops: Seq<FileOperationPlan>, a: Seq<(Option<u128>, Seq<char>)>, b: Seq<(Option<u128>, Seq<char>)>)
    requires
        all_name(ops, a),
        all_name(ops, b),
    ensures
        all_name(ops, a + b),
{
    assert forall|k: int| 0 <= k < (a + b).len() implies names_operation(ops, (#[trigger] (a + b)[k]).0) by {
        if k < a.len() {
            assert((a + b)[k] == a[k]);
        } else {
            assert((a + b)[k] == b[k - a.len()]);
        }
    }
}

/// The issues of one operation all carry its id.
proof fn lemma_operation_issues_carry(op: FileOperationPlan, root: Seq<char>, rc: Option<String>, probe: OperationProbe)
    ensures
        all_carry(operation_issues(op, root, rc, probe), Some(op.operation_id)),
{
    let x = Some(op.operation_id);
    let e = Seq::<(Option<u128>, Seq<char>)>::empty();
    assert(all_carry(e, x));
    match op.kind {
        FileOperationKind::CreateFolder { path } => {
            let a = containment_issues(path@, root, rc, probe.target, op.operation_id);
            assert(all_carry(a, x));
            let b = if probe.target.exists && !probe.target.is_dir {
                seq![(Some(op.operation_id), "create-folder target is not a directory: "@ + path@)]
            } else {
                e
            };
            assert(all_carry(b, x));
            lemma_concat_carry(a, b, x);
        },
        FileOperationKind::MoveFile { source, destination } => {
            lemma_move_issues_carry(source@, destination@, root, rc, probe, op.operation_id);
        },
        FileOperationKind::RenameFile { source, destination } => {
            lemma_move_issues_carry(source@, destination@, root, rc, probe, op.operation_id);
        },
    }
}

proof fn lemma_move_issues_carry(
    source: Seq<char>,
    destination: Seq<char>,
    root: Seq<char>,
    rc: Option<String>,
    probe: OperationProbe,
    id: u128,
)
    ensures
        all_carry(move_issues(source, destination, root, rc, probe, id), Some(id)),
{
    let x = Some(id);
    let e = Seq::<(Option<u128>, Seq<char>)>::empty();
    let a = containment_issues(source, root, rc, probe.source, id);
    let b = containment_issues(destination, root, rc, probe.target, id);
    let c = if !probe.source.is_file {
        seq![(Some(id), "source file does not exist: "@ + source)]
    } else {
        e
    };
    let d = if probe.target.exists {
        seq![(Some(id), "destination already exists: "@ + destination)]
    } else {
        e
    };
    let f = if components(source) == components(destination) {
        seq![(Some(id), "source and destination are identical"@)]
    } else {
        e
    };
    assert(all_carry(a, x) && all_carry(b, x) && all_carry(c, x) && all_carry(d, x) && all_carry(f, x));
    lemma_concat_carry(a, b, x);
    lemma_concat_carry(a + b, c, x);
    lemma_concat_carry(a + b + c, d, x);
    lemma_concat_carry(a + b + c + d, f, x);
}

/// The issues of the first `k` operations carry ids of operations.
proof fn lemma_operations_issues_name(plan: OrganizationPlan, probes: PlanProbes, k: int)
    requires
        0 <= k <= plan.operations@.len(),
    ensures
        all_name(plan.operations@, operations_issues(plan, probes, k)),
    decreases k,
{
    if k <= 0 {
        assert(all_name(plan.operations@, operations_issues(plan, probes, k)));
    } else {
        lemma_operations_issues_name(plan, probes, k - 1);
        let op = plan.operations@[k - 1];
        let oi = operation_issues(op, plan.root_path@, probes.root_canonical, probes.operations@[k - 1]);
        lemma_operation_issues_carry(op, plan.root_path@, probes.root_canonical, probes.operations@[k - 1]);
        assert forall|m: int| 0 <= m < oi.len() implies names_operation(plan.operations@, (#[trigger] oi[m]).0) by {
            assert(plan.operations@[k - 1].operation_id == op.operation_id);
        }
        lemma_concat_name(plan.operations@, operations_issues(plan, probes, k - 1), oi);
    }
}

/// The ids sharing a destination are ids of operations.
proof fn lemma_sharing_ids_name(ops: Seq<FileOperationPlan>, i: int, k: int)
    requires
        0 <= k <= ops.len(),
    ensures
        forall|m: int| 0 <= m < sharing_ids(ops, i, k).len() ==> names_operation(ops, Some(#[trigger] sharing_ids(ops, i, k)[m])),
    decreases k,
{
    if k > 0 {
        lemma_sharing_ids_name(ops, i, k - 1);
        let pre = sharing_ids(ops, i, k - 1);
        assert forall|m: int| 0 <= m < sharing_ids(ops, i, k).len() implies names_operation(ops, Some(#[trigger] sharing_ids(ops, i, k)[m])) by {
            if m < pre.len() {
                assert(sharing_ids(ops, i, k)[m] == pre[m]);
                assert(names_operation(ops, Some(pre[m])));
            } else {
                assert(sharing_ids(ops, i, k)[m] == ops[k - 1].operation_id);
                assert(ops[k - 1].operation_id == sharing_ids(ops, i, k)[m]);
            }
        }
    }
}

/// The duplicate-destination issues carry ids of operations.
proof fn lemma_duplicate_issues_name(ops: Seq<FileOperationPlan>, k: int)
    requires
        0 <= k <= ops.len(),
    ensures
        all_name(ops, duplicate_issues(ops, k)),
    decreases k,
{
    if k <= 0 {
        assert(all_name(ops, duplicate_issues(ops, k)));
    } else {
        lemma_duplicate_issues_name(ops, k - 1);
        let at = duplicate_issues_at(ops, k - 1);
        let ids = sharing_ids(ops, k - 1, ops.len() as int);
        lemma_sharing_ids_name(ops, k - 1, ops.len() as int);
        assert forall|m: int| 0 <= m < at.len() implies names_operation(ops, (#[trigger] at[m]).0) by {
            assert(at[m].0 == Some(ids[m]));
            assert(names_operation(ops, Some(ids[m])));
        }
        lemma_concat_name(ops, duplicate_issues(ops, k - 1), at);
    }
}

/// Every issue of a plan carries no operation id (an issue of the root) or
/// the id of one of the plan's operations; a root that does not resolve to
/// a directory gives a first issue that names no operation (so the plan is
/// not valid).
pub proof fn law_issue_ids_name_plan_operations(plan: OrganizationPlan, probes: PlanProbes)
    requires
        probes_fit(plan, probes),
    ensures
        forall|k: int|
            0 <= k < plan_issues(plan, probes).len() ==> names_operation(
                plan.operations@,
                (#[trigger] plan_issues(plan, probes)[k]).0,
            ),
        probes.root_canonical is None || !probes.root_is_dir ==> plan_issues(plan, probes).len() > 0
            && plan_issues(plan, probes)[0].0 is None,
{
    let ops = plan.operations@;
    let n = ops.len() as int;
    let r = root_issues(plan.root_path@, probes);
    assert(all_name(ops, r));
    lemma_operations_issues_name(plan, probes, n);
    lemma_duplicate_issues_name(ops, n);
    lemma_concat_name(ops, r, operations_issues(plan, probes, n));
    lemma_concat_name(ops, r + operations_issues(plan, probes, n), duplicate_issues(ops, n));
}

/// The issues of the first `k` operations hold those of each of them.
proof fn lemma_operations_issues_contain(plan: OrganizationPlan, probes: PlanProbes, k: int, i: int)
    requires
        0 <= i < k <= plan.operations@.len(),
    ensures
        forall|m: int|
            0 <= m < operation_issues(
                plan.operations@[i],
                plan.root_path@,
                probes.root_canonical,
                probes.operations@[i],
            ).len() ==> operations_issues(plan, probes, k).contains(
                #[trigger] operation_issues(
                    plan.operations@[i],
                    plan.root_path@,
                    probes.root_canonical,
                    probes.operations@[i],
                )[m],
            ),
    decreases k,
{
    let oi = operation_issues(plan.operations@[i], plan.root_path@, probes.root_canonical, probes.operations@[i]);
    let pre = operations_issues(plan, probes, k - 1);
    let all = operations_issues(plan, probes, k);
    if i == k - 1 {
        assert forall|m: int| 0 <= m < oi.len() implies all.contains(#[trigger] oi[m]) by {
            assert(all[pre.len() + m] == oi[m]);
        }
    } else {
        lemma_operations_issues_contain(plan, probes, k - 1, i);
        assert forall|m: int| 0 <= m < oi.len() implies all.contains(#[trigger] oi[m]) by {
            assert(pre.contains(oi[m]));
            let w = choose|w: int| 0 <= w < pre.len() && pre[w] == oi[m];
            assert(all[w] == oi[m]);
        }
    }
}

/// An operation that fails a check (a path with `..` or outside the root, a
/// missing source, an existing destination, identical paths, a folder
/// target that is a file, ...) gives issues that carry its id, and the
/// plan's issues hold each of them.
pub proof fn law_operation_issues_carry_its_id(plan: OrganizationPlan, probes: PlanProbes, i: int)
    requires
        probes_fit(plan, probes),
        0 <= i < plan.operations@.len(),
    ensures
        forall|m: int|
            0 <= m < operation_issues(
                plan.operations@[i],
                plan.root_path@,
                probes.root_canonical,
                probes.operations@[i],
            ).len() ==> {
                let e = #[trigger] operation_issues(
                    plan.operations@[i],
                    plan.root_path@,
                    probes.root_canonical,
                    probes.operations@[i],
                )[m];
                &&& e.0 == Some(plan.operations@[i].operation_id)
                &&& plan_issues(plan, probes).contains(e)
            },
{
    let n = plan.operations@.len() as int;
    let oi = operation_issues(plan.operations@[i], plan.root_path@, probes.root_canonical, probes.operations@[i]);
    lemma_operation_issues_carry(plan.operations@[i], plan.root_path@, probes.root_canonical, probes.operations@[i]);
    lemma_operations_issues_contain(plan, probes, n, i);
    let r = root_issues(plan.root_path@, probes);
    let mid = operations_issues(plan, probes, n);
    let all = plan_issues(plan, probes);
    assert forall|m: int| 0 <= m < oi.len() implies all.contains(#[trigger] oi[m]) by {
        assert(mid.contains(oi[m]));
        let w = choose|w: int| 0 <= w < mid.len() && mid[w] == oi[m];
        assert(all[r.len() + w] == oi[m]);
    }
}

/// Undoing the first `k` entries splits them: each is undone, and its id
/// is among the ids undone, or gives one error that names it; so the ids
/// undone and the errors together number `k`.
pub proof fn law_rollback_splits_entries(entries: Seq<RollbackEntry>, outcomes: Seq<UndoOutcome>, k: int)
    requires
        0 <= k <= entries.len(),
        k <= outcomes.len(),
    ensures
        undone_ids(entries, outcomes, k).len() + undo_errors(entries, outcomes, k).len() == k,
        forall|j: int|
            0 <= j < k ==> if #[trigger] outcomes[j] == UndoOutcome::Undone {
                undone_ids(entries, outcomes, k).contains(entries[j].operation_id)
            } else {
                undo_errors(entries, outcomes, k).contains(
                    (Some(entries[j].operation_id), undo_failure(entries[j].action, outcomes[j])),
                )
            },
    decreases k,
{
    if k > 0 {
        law_rollback_splits_entries(entries, outcomes, k - 1);
        let u0 = undone_ids(entries, outcomes, k - 1);
        let e0 = undo_errors(entries, outcomes, k - 1);
        let u = undone_ids(entries, outcomes, k);
        let e = undo_errors(entries, outcomes, k);
        assert forall|j: int| 0 <= j < k implies if #[trigger] outcomes[j] == UndoOutcome::Undone {
            u.contains(entries[j].operation_id)
        } else {
            e.contains((Some(entries[j].operation_id), undo_failure(entries[j].action, outcomes[j])))
        } by {
            if j < k - 1 {
                if outcomes[j] == UndoOutcome::Undone {
                    let w = choose|w: int| 0 <= w < u0.len() && u0[w] == entries[j].operation_id;
                    assert(u[w] == u0[w]);
                } else {
                    let x = (Some(entries[j].operation_id), undo_failure(entries[j].action, outcomes[j]));
                    let w = choose|w: int| 0 <= w < e0.len() && e0[w] == x;
                    assert(e[w] == e0[w]);
                }
            } else if outcomes[j] == UndoOutcome::Undone {
                assert(u[u0.len() as int] == entries[j].operation_id);
            } else {
                assert(e[e0.len() as int] == (Some(entries[j].operation_id), undo_failure(entries[j].action, outcomes[j])));
            }
        }
    }
}

/// An accepted category suggestion names a token of the request, has a
/// category that is not empty and a confidence of at most 100.
pub open spec fn accepted_entry(x: (Seq<char>, Seq<char>, u8), tokens: Seq<Seq<char>>) -> bool {
    &&& x.0.len() > 0
    &&& tokens.contains(x.0)
    &&& x.1.len() > 0
    &&& x.2 <= 100
}

proof fn lemma_entries_accepted(es: Seq<(JsonFound, JsonFound, JsonFound)>, tokens: Seq<Seq<char>>, k: int)
    requires
        k >= 0,
        entries_outcome(es, tokens, k) is Ok,
    ensures
        entries_outcome(es, tokens, k)->Ok_0.len() == k,
        forall|m: int|
            0 <= m < k ==> accepted_entry(#[trigger] entries_outcome(es, tokens, k)->Ok_0[m], tokens)
                && entry_outcome(es[m], m as usize, tokens) == Ok::<(Seq<char>, Seq<char>, u8), Seq<char>>(
                entries_outcome(es, tokens, k)->Ok_0[m],
            ),
    decreases k,
{
    if k > 0 {
        lemma_entries_accepted(es, tokens, k - 1);
        let v = entries_outcome(es, tokens, k - 1)->Ok_0;
        let x = entry_outcome(es[k - 1], (k - 1) as usize, tokens)->Ok_0;
        assert(entries_outcome(es, tokens, k)->Ok_0 == v.push(x));
        assert(accepted_entry(x, tokens));
        assert forall|m: int| 0 <= m < k implies accepted_entry(
            #[trigger] entries_outcome(es, tokens, k)->Ok_0[m],
            tokens,
        ) && entry_outcome(es[m], m as usize, tokens) == Ok::<(Seq<char>, Seq<char>, u8), Seq<char>>(
            entries_outcome(es, tokens, k)->Ok_0[m],
        ) by {
            if m < k - 1 {
                assert(entries_outcome(es, tokens, k)->Ok_0[m] == v[m]);
            }
        }
    }
}

/// A structured suggestion that is accepted carries its summary trimmed,
/// and not empty, and one category suggestion per item of its categories
/// array, in order, each what that item gives (its trimmed token, its
/// trimmed category, its confidence): a token of the request, a category
/// that is not empty and a confidence of at most 100.
pub proof fn law_accepted_suggestion_names_request_tokens(l: SuggestionLookups, tokens: Seq<Seq<char>>)
    requires
        l.entries@.len() == items_of(found(l.categories)),
        suggestion_outcome(l, tokens) is Ok,
    ensures
        suggestion_outcome(l, tokens)->Ok_0.0.len() > 0,
        filled_text(found(l.summary)) == Some(suggestion_outcome(l, tokens)->Ok_0.0),
        forall|m: int|
            0 <= m < suggestion_outcome(l, tokens)->Ok_0.1.len() ==> entry_outcome(
                entry_found(l.entries@[m]),
                m as usize,
                tokens,
            ) == Ok::<(Seq<char>, Seq<char>, u8), Seq<char>>(#[trigger] suggestion_outcome(l, tokens)->Ok_0.1[m]),
        suggestion_outcome(l, tokens)->Ok_0.1.len() == items_of(found(l.categories)),
        forall|m: int|
            0 <= m < suggestion_outcome(l, tokens)->Ok_0.1.len() ==> accepted_entry(
                #[trigger] suggestion_outcome(l, tokens)->Ok_0.1[m],
                tokens,
            ),
{
    let es = l.entries@.map_values(|e: EntryLookups| entry_found(e));
    let n = items_of(found(l.categories)) as int;
    lemma_entries_accepted(es, tokens, n);
    assert forall|m: int| 0 <= m < n implies es[m] == entry_found(l.entries@[m]) by {}
}

/// Parts split at a separator: those before it, then those after it.
proof fn lemma_parts_split(x: Seq<char>, y: Seq<char>, cur: Seq<char>)
    ensures
        parts_from(x + seq!['/'] + y, cur) == parts_from(x, cur) + parts_from(y, Seq::empty()),
    decreases x.len(),
{
    let t = x + seq!['/'] + y;
    if x.len() == 0 {
        assert(t =~= seq!['/'] + y);
        assert(t.drop_first() =~= y);
    } else {
        assert(t.drop_first() =~= x.drop_first() + seq!['/'] + y);
        if x[0] == '/' {
            lemma_parts_split(x.drop_first(), y, Seq::empty());
            assert(keep_part(cur) + (parts_from(x.drop_first(), Seq::empty()) + parts_from(y, Seq::empty()))
                =~= keep_part(cur) + parts_from(x.drop_first(), Seq::empty()) + parts_from(y, Seq::empty()));
        } else {
            lemma_parts_split(x.drop_first(), y, cur.push(x[0]));
        }
    }
}

/// Parts joined with separators, split in two.
proof fn lemma_join_with_slash_concat(a: Seq<Seq<char>>, b: Seq<Seq<char>>)
    requires
        a.len() > 0,
        b.len() > 0,
    ensures
        join_with_slash(a + b) == join_with_slash(a) + seq!['/'] + join_with_slash(b),
    decreases b.len(),
{
    if b.len() == 1 {
        assert((a + b).drop_last() =~= a);
        assert((a + b).last() == b[0]);
    } else {
        lemma_join_with_slash_concat(a, b.drop_last());
        assert((a + b).drop_last() =~= a + b.drop_last());
        assert((a + b).last() == b.last());
        assert(join_with_slash(a + b) =~= join_with_slash(a) + seq!['/'] + join_with_slash(b));
    }
}

/// The parts of `a + b` joined end with those of `b` joined.
proof fn lemma_join_with_slash_ends(a: Seq<Seq<char>>, b: Seq<Seq<char>>)
    ensures
        ends_with(join_with_slash(a + b), join_with_slash(b)),
{
    let whole = join_with_slash(a + b);
    let tail = join_with_slash(b);
    if a.len() == 0 {
        assert(a + b =~= b);
        assert(whole.subrange(0, whole.len() as int) =~= whole);
    } else if b.len() == 0 {
        assert(tail =~= Seq::<char>::empty());
        assert(whole.subrange(whole.len() as int, whole.len() as int) =~= Seq::<char>::empty());
    } else {
        lemma_join_with_slash_concat(a, b);
        assert(whole.subrange(whole.len() - tail.len(), whole.len() as int) =~= tail);
    }
}

/// The components of `x/y` are some components followed by the named
/// parts of `y`.
proof fn lemma_components_split(x: Seq<char>, y: Seq<char>) -> (pre: Seq<Seq<char>>)
    ensures
        components(x + seq!['/'] + y) == pre + named_parts(y),
{
    reveal(components);
    let s = x + seq!['/'] + y;
    lemma_parts_split(x, y, Seq::empty());
    let lead = if has_root(s) {
        seq![seq!['/']]
    } else if leading_cur_dir(s) {
        seq![seq!['.']]
    } else {
        Seq::<Seq<char>>::empty()
    };
    assert(components(s) == lead + named_parts(s));
    assert(lead + (named_parts(x) + named_parts(y)) =~= (lead + named_parts(x)) + named_parts(y));
    lead + named_parts(x)
}

/// A sensitive suffix is relative and does not begin with `.` as a
/// component.
proof fn lemma_suffix_plain(i: int)
    requires
        0 <= i < sensitive_count(),
    ensures
        !has_root(sensitive_suffix(i)),
        !leading_cur_dir(sensitive_suffix(i)),
{
    reveal_strlit(".ssh");
    reveal_strlit(".gnupg");
    reveal_strlit("Library/Keychains");
    reveal_strlit("Library/Application Support/1Password");
    reveal_strlit("Library/Application Support/Google/Chrome");
    reveal_strlit("Library/Application Support/Firefox");
    reveal_strlit("AppData/Roaming/Microsoft/Credentials");
    reveal_strlit("AppData/Roaming/1Password");
    reveal_strlit("AppData/Local/Google/Chrome/User Data");
    let t = sensitive_suffix(i);
    assert(t.len() > 1 && t[0] != '/' && (t[0] != '.' || t[1] != '/'));
}

/// Every sensitive directory under a home directory is itself sensitive,
/// whatever the home directory: each path `default_sensitive_paths` gives
/// satisfies `is_sensitive_path`.
pub proof fn law_default_sensitive_paths_are_sensitive(home: Seq<char>, i: int)
    requires
        0 <= i < sensitive_count(),
    ensures
        is_sensitive(join(home, sensitive_suffix(i))),
{
    let sfx = sensitive_suffix(i);
    lemma_suffix_plain(i);
    let q = named_parts(sfx);
    assert(components(sfx) == q) by {
        reveal(components);
    }
    let s = join(home, sfx);
    let pre = if home.len() > 0 && home.last() != '/' {
        assert(s == home + seq!['/'] + sfx);
        lemma_components_split(home, sfx)
    } else if home.len() > 0 {
        assert(home =~= home.drop_last() + seq!['/']);
        assert(s =~= home.drop_last() + seq!['/'] + sfx);
        lemma_components_split(home.drop_last(), sfx)
    } else {
        assert(s =~= sfx);
        assert(components(s) =~= Seq::<Seq<char>>::empty() + q);
        Seq::<Seq<char>>::empty()
    };
    assert(components(s) == pre + q);
    lemma_join_with_slash_ends(pre, q);
    assert(ends_with(normalized(s), normalized(sensitive_suffix(i))));
}

/// A batch of a run carries out a prefix of the plan's operations, in
/// order; it is never rejected; it holds at most one error, is completed
/// exactly when it holds none, and an error names the operation right after
/// the ones carried out: the one that failed, where the run stopped.
pub proof fn law_batch_runs_a_prefix_of_the_plan(
    b: ExecutionBatch,
    batch_id: u128,
    plan_id: u128,
    started_at: crate::clock::Timestamp,
    ops: Seq<FileOperationPlan>,
    outcomes: Seq<OperationOutcome>,
)
    requires
        is_batch_of(b, batch_id, plan_id, started_at, ops, outcomes),
        outcomes.len() <= ops.len(),
    ensures
        b.status != ExecutionStatus::Rejected,
        b.executed_operations@.len() <= ops.len(),
        forall|k: int|
            0 <= k < b.executed_operations@.len() ==> (#[trigger] b.executed_operations@[k]).operation_id
                == ops[k].operation_id && b.executed_operations@[k].kind == ops[k].kind,
        b.errors@.len() <= 1,
        (b.status == ExecutionStatus::Completed) == (b.errors@.len() == 0),
        b.errors@.len() == 1 ==> b.executed_operations@.len() < ops.len() && b.errors@[0].operation_id == Some(
            ops[b.executed_operations@.len() as int].operation_id,
        ),
{
    assert(b.errors@.len() == crate::rollback::errors_view(b.errors@).len());
    if b.errors@.len() == 1 {
        assert(crate::rollback::errors_view(b.errors@)[0] == crate::rollback::error_view(b.errors@[0]));
    }
}

/// The issues of a move or rename hold one for each failed check.
proof fn lemma_move_issue_present(
    source: Seq<char>,
    destination: Seq<char>,
    root: Seq<char>,
    rc: Option<String>,
    probe: OperationProbe,
    id: u128,
)
    ensures
        !probe.source.is_file ==> move_issues(source, destination, root, rc, probe, id).contains(
            (Some(id), "source file does not exist: "@ + source),
        ),
        probe.target.exists ==> move_issues(source, destination, root, rc, probe, id).contains(
            (Some(id), "destination already exists: "@ + destination),
        ),
        components(source) == components(destination) ==> move_issues(source, destination, root, rc, probe, id).contains(
            (Some(id), "source and destination are identical"@),
        ),
        has_parent_dir(source) ==> move_issues(source, destination, root, rc, probe, id).contains(
            (Some(id), "operation path contains parent traversal: "@ + source),
        ),
        has_parent_dir(destination) ==> move_issues(source, destination, root, rc, probe, id).contains(
            (Some(id), "operation path contains parent traversal: "@ + destination),
        ),
        !has_parent_dir(source) && !path_starts_with(source, root) ==> move_issues(source, destination, root, rc, probe, id).contains(
            (Some(id), "operation path escapes plan root: "@ + source),
        ),
        !has_parent_dir(destination) && !path_starts_with(destination, root) ==> move_issues(source, destination, root, rc, probe, id).contains(
            (Some(id), "operation path escapes plan root: "@ + destination),
        ),
{
    let e = Seq::<(Option<u128>, Seq<char>)>::empty();
    let a = containment_issues(source, root, rc, probe.source, id);
    let b = containment_issues(destination, root, rc, probe.target, id);
    let c = if !probe.source.is_file {
        seq![(Some(id), "source file does not exist: "@ + source)]
    } else {
        e
    };
    let d = if probe.target.exists {
        seq![(Some(id), "destination already exists: "@ + destination)]
    } else {
        e
    };
    let f = if components(source) == components(destination) {
        seq![(Some(id), "source and destination are identical"@)]
    } else {
        e
    };
    let all = move_issues(source, destination, root, rc, probe, id);
    assert(all == a + b + c + d + f);
    if a.len() > 0 {
        assert(all[0] == a[0]);
    }
    if b.len() > 0 {
        assert(all[a.len() as int] == b[0]);
    }
    if c.len() > 0 {
        assert(all[(a.len() + b.len()) as int] == c[0]);
    }
    if d.len() > 0 {
        assert(all[(a.len() + b.len() + c.len()) as int] == d[0]);
    }
    if f.len() > 0 {
        assert(all[(a.len() + b.len() + c.len() + d.len()) as int] == f[0]);
    }
}

/// A move or rename that fails a check makes its plan invalid with an issue
/// that carries its id: a source that is not a file, a destination that
/// exists, identical source and destination, a path with `..`, a path that
/// is not under the root.
pub proof fn law_move_checks_block_plan(plan: OrganizationPlan, probes: PlanProbes, i: int)
    requires
        probes_fit(plan, probes),
        0 <= i < plan.operations@.len(),
        !(plan.operations@[i].kind is CreateFolder),
    ensures
        ({
            let op = plan.operations@[i];
            let p = probes.operations@[i];
            let source = crate::model::kind_source(op.kind)->0;
            let destination = kind_destination(op.kind);
            let root = plan.root_path@;
            let blocked = |m: Seq<char>| plan_issues(plan, probes).contains((Some(op.operation_id), m));
            &&& !p.source.is_file ==> blocked("source file does not exist: "@ + source)
            &&& p.target.exists ==> blocked("destination already exists: "@ + destination)
            &&& components(source) == components(destination) ==> blocked("source and destination are identical"@)
            &&& has_parent_dir(source) ==> blocked("operation path contains parent traversal: "@ + source)
            &&& has_parent_dir(destination) ==> blocked("operation path contains parent traversal: "@ + destination)
            &&& !has_parent_dir(source) && !path_starts_with(source, root) ==> blocked(
                "operation path escapes plan root: "@ + source,
            )
            &&& !has_parent_dir(destination) && !path_starts_with(destination, root) ==> blocked(
                "operation path escapes plan root: "@ + destination,
            )
        }),
{
    let op = plan.operations@[i];
    let p = probes.operations@[i];
    let oi = operation_issues(op, plan.root_path@, probes.root_canonical, p);
    match op.kind {
        FileOperationKind::MoveFile { source, destination } => {
            lemma_move_issue_present(source@, destination@, plan.root_path@, probes.root_canonical, p, op.operation_id);
        },
        FileOperationKind::RenameFile { source, destination } => {
            lemma_move_issue_present(source@, destination@, plan.root_path@, probes.root_canonical, p, op.operation_id);
        },
        FileOperationKind::CreateFolder { .. } => {},
    }
    law_operation_issues_carry_its_id(plan, probes, i);
    assert forall|x: (Option<u128>, Seq<char>)| oi.contains(x) implies plan_issues(plan, probes).contains(x) by {
        let m = choose|m: int| 0 <= m < oi.len() && oi[m] == x;
        assert(plan_issues(plan, probes).contains(oi[m]));
    }
}

/// The operations among the first `k` that changed something.
pub open spec fn done_count(outcomes: Seq<OperationOutcome>, k: int) -> nat
    decreases k,
{
    if k <= 0 {
        0
    } else {
        done_count(outcomes, k - 1) + if outcomes[k - 1] == OperationOutcome::Done {
            1nat
        } else {
            0nat
        }
    }
}

proof fn lemma_records_of_changes(
    batch_id: u128,
    ops: Seq<FileOperationPlan>,
    outcomes: Seq<OperationOutcome>,
    n: int,
)
    requires
        0 <= n <= outcomes.len(),
        n <= ops.len(),
    ensures
        undo_records(batch_id, ops, outcomes, n).len() == done_count(outcomes, n),
        forall|k: int|
            0 <= k < n && #[trigger] outcomes[k] == OperationOutcome::Done ==> undo_records(batch_id, ops, outcomes, n).contains(
                (batch_id, ops[k].operation_id, undo_action(ops[k])),
            ),
    decreases n,
{
    if n > 0 {
        lemma_records_of_changes(batch_id, ops, outcomes, n - 1);
        let pre = undo_records(batch_id, ops, outcomes, n - 1);
        let all = undo_records(batch_id, ops, outcomes, n);
        assert forall|k: int|
            0 <= k < n && #[trigger] outcomes[k] == OperationOutcome::Done implies all.contains(
                (batch_id, ops[k].operation_id, undo_action(ops[k])),
            ) by {
            if k < n - 1 {
                let w = choose|w: int| 0 <= w < pre.len() && pre[w] == (batch_id, ops[k].operation_id, undo_action(ops[k]));
                assert(all[w] == pre[w]);
            } else {
                assert(all[pre.len() as int] == (batch_id, ops[k].operation_id, undo_action(ops[k])));
            }
        }
    }
}

/// Each operation a batch carried out that changed something (a created
/// folder, a moved or renamed file) has its undo record in the batch, and
/// there are as many records as such operations; a folder that already
/// existed has none.
pub proof fn law_each_change_has_its_record(
    b: ExecutionBatch,
    batch_id: u128,
    plan_id: u128,
    started_at: crate::clock::Timestamp,
    ops: Seq<FileOperationPlan>,
    outcomes: Seq<OperationOutcome>,
)
    requires
        is_batch_of(b, batch_id, plan_id, started_at, ops, outcomes),
        outcomes.len() <= ops.len(),
    ensures
        b.rollback_entries@.len() == done_count(outcomes, executed_count(outcomes)),
        forall|k: int|
            0 <= k < executed_count(outcomes) && #[trigger] outcomes[k] == OperationOutcome::Done ==> entries_view(
                b.rollback_entries@,
            ).contains((batch_id, ops[k].operation_id, undo_action(ops[k]))),
{
    let n = executed_count(outcomes);
    lemma_records_of_changes(batch_id, ops, outcomes, n);
    assert(entries_view(b.rollback_entries@).len() == b.rollback_entries@.len());
}

} // verus!
