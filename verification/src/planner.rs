//! Building a preview plan: one folder per target, then one move per file
//! that is not already where it belongs. Nothing is executed here.

use vstd::prelude::*;
use crate::model::{
    category_folder, BuildPlanInput, ClassificationResult, FileCategory, FileOperationKind,
    FileOperationPlan, OrganizationMode, OrganizationPlan, PlanSummary,
};
use crate::path::{components, file_name, join, name_extension, name_stem, path_order, with_file_name};
use crate::text::{decimal, digit_char};

verus! {

broadcast use crate::text::lemma_chars_deep_view;

/// The folder a classified file goes to.
#[verifier::opaque]
pub open spec fn target_folder(root: Seq<char>, mode: OrganizationMode, c: ClassificationResult) -> Seq<char> {
    match mode {
        OrganizationMode::ByCategory => join(root, category_folder(c.category)),
        OrganizationMode::Desktop => crate::platform::archive_folder(root, c.category),
        OrganizationMode::ByExtension => join(
            root,
            match c.file.extension {
                Some(e) => if e@.len() > 0 { e@ } else { "no-extension"@ },
                None => "no-extension"@,
            },
        ),
    }
}

/// The place a classified file would go to if nothing were in the way.
pub open spec fn natural_destination(root: Seq<char>, mode: OrganizationMode, c: ClassificationResult) -> Seq<char> {
    join(target_folder(root, mode, c), c.file.file_name@)
}

/// The `k`-th alternative to a taken destination: `stem (k).ext`.
pub open spec fn numbered_destination(dest: Seq<char>, k: nat) -> Seq<char> {
    let (stem, ext) = match file_name(dest) {
        Some(n) => (name_stem(n), name_extension(n)),
        None => ("file"@, None),
    };
    let name = stem + " ("@ + decimal(k as int) + ")"@ + match ext {
        Some(e) => "."@ + e,
        None => Seq::empty(),
    };
    with_file_name(dest, name)
}

/// `d` is a destination that may be chosen for `dest` when moving from
/// `source`: `dest` itself, or a numbered alternative that is not `source`.
pub open spec fn is_destination_choice(d: Seq<char>, dest: Seq<char>, source: Seq<char>) -> bool {
    if components(dest) == components(source) {
        d == dest
    } else {
        d == dest || exists|k: nat| k >= 1 && d == #[trigger] numbered_destination(dest, k)
            && components(d) != components(source)
    }
}

/// The `k`-th candidate for `dest`: `dest` itself, then its numbered
/// alternatives.
pub open spec fn candidate(dest: Seq<char>, k: nat) -> Seq<char> {
    if k == 0 {
        dest
    } else {
        numbered_destination(dest, k)
    }
}

/// From the `k`-th on, the first numbered alternative that is not `source`
/// and that `taken` does not mark as taken; `dest` when the answers run out.
pub open spec fn first_free_from(dest: Seq<char>, source: Seq<char>, taken: Seq<bool>, k: nat) -> Seq<char>
    decreases taken.len() - k,
{
    if k >= taken.len() {
        dest
    } else if components(numbered_destination(dest, k)) != components(source) && !taken[k as int] {
        numbered_destination(dest, k)
    } else {
        first_free_from(dest, source, taken, k + 1)
    }
}

/// The destination chosen for `dest` when moving from `source`, given which
/// candidates are taken on disk (`taken[k]` for the `k`-th candidate):
/// `dest` when it is the source or free, otherwise the first numbered
/// alternative that is neither the source nor taken.
pub open spec fn first_free(dest: Seq<char>, source: Seq<char>, taken: Seq<bool>) -> Seq<char> {
    if components(dest) == components(source) || taken.len() == 0 || !taken[0] {
        dest
    } else {
        first_free_from(dest, source, taken, 1)
    }
}

/// The candidates asked about on disk, in order, once `n` answers are
/// collected: none when `dest` is the source; otherwise `dest`, then each
/// numbered alternative that is not the source.
pub open spec fn asked_candidates(dest: Seq<char>, source: Seq<char>, n: nat) -> Seq<Seq<char>>
    decreases n,
{
    if n == 0 || components(dest) == components(source) {
        Seq::empty()
    } else {
        let k = (n - 1) as nat;
        asked_candidates(dest, source, k) + if k == 0 || components(candidate(dest, k)) != components(source) {
            seq![candidate(dest, k)]
        } else {
            Seq::empty()
        }
    }
}

/// `d` is the destination chosen for `dest` under some answers of the disk.
pub open spec fn is_free_choice(d: Seq<char>, dest: Seq<char>, source: Seq<char>) -> bool {
    exists|taken: Seq<bool>| d == #[trigger] first_free(dest, source, taken)
}

/// The choice from the `k`-th candidate on is `dest` or a numbered
/// alternative that is not the source.
proof fn lemma_first_free_from_choice(dest: Seq<char>, source: Seq<char>, taken: Seq<bool>, k: nat)
    requires
        k >= 1,
    ensures
        first_free_from(dest, source, taken, k) == dest || exists|kk: nat| kk >= 1
            && first_free_from(dest, source, taken, k) == #[trigger] numbered_destination(dest, kk)
            && components(first_free_from(dest, source, taken, k)) != components(source),
    decreases taken.len() - k,
{
    if k < taken.len() {
        if !(components(numbered_destination(dest, k)) != components(source) && !taken[k as int]) {
            lemma_first_free_from_choice(dest, source, taken, k + 1);
        }
    }
}

/// A chosen destination is `dest` or a numbered alternative that is not
/// the source.
proof fn lemma_first_free_choice(dest: Seq<char>, source: Seq<char>, taken: Seq<bool>)
    ensures
        is_destination_choice(first_free(dest, source, taken), dest, source),
{
    if !(components(dest) == components(source) || taken.len() == 0 || !taken[0]) {
        lemma_first_free_from_choice(dest, source, taken, 1);
    }
}

/// A classified file must move: its natural destination is another path.
pub open spec fn must_move(root: Seq<char>, mode: OrganizationMode, c: ClassificationResult) -> bool {
    components(natural_destination(root, mode, c)) != components(c.file.path@)
}

/// The classifications whose files must move, in order.
pub open spec fn moving(root: Seq<char>, mode: OrganizationMode, cs: Seq<ClassificationResult>) -> Seq<ClassificationResult>
    decreases cs.len(),
{
    if cs.len() == 0 {
        Seq::empty()
    } else if must_move(root, mode, cs.last()) {
        moving(root, mode, cs.drop_last()).push(cs.last())
    } else {
        moving(root, mode, cs.drop_last())
    }
}

/// The `Debug` name of a category.
pub open spec fn category_debug_name(c: FileCategory) -> Seq<char> {
    match c {
        FileCategory::Documents => "Documents"@,
        FileCategory::Images => "Images"@,
        FileCategory::Videos => "Videos"@,
        FileCategory::Audio => "Audio"@,
        FileCategory::Archives => "Archives"@,
        FileCategory::Installers => "Installers"@,
        FileCategory::Code => "Code"@,
        FileCategory::Spreadsheets => "Spreadsheets"@,
        FileCategory::Presentations => "Presentations"@,
        FileCategory::Pdf => "Pdf"@,
        FileCategory::Other => "Other"@,
    }
}

/// A confidence in hundredths written with two decimals (85 as `0.85`).
pub open spec fn two_decimals(c: u32) -> Seq<char> {
    decimal((c / 100) as int) + "."@ + seq![digit_char(((c % 100) / 10) as int), digit_char((c % 10) as int)]
}

/// The reason recorded for moving a classified file.
pub open spec fn move_reason(c: ClassificationResult) -> Seq<char> {
    "classified as "@ + category_debug_name(c.category) + " with confidence "@ + two_decimals(c.confidence)
}

/// `op` moves the file of `c` to a chosen destination.
pub open spec fn is_move_for(op: FileOperationPlan, root: Seq<char>, mode: OrganizationMode, c: ClassificationResult) -> bool {
    &&& op.file_id == Some(c.file.id)
    &&& op.reason@ == move_reason(c)
    &&& match op.kind {
        FileOperationKind::MoveFile { source, destination } => {
            &&& source@ == c.file.path@
            &&& is_free_choice(destination@, natural_destination(root, mode, c), c.file.path@)
        },
        _ => false,
    }
}

/// Some folder of `fs` has the components `key`.
#[verifier::opaque]
pub open spec fn covered(fs: Seq<Seq<char>>, key: Seq<Seq<char>>) -> bool {
    exists|k: int| 0 <= k < fs.len() && components(#[trigger] fs[k]) == key
}

/// `f` is written as the target folder of classification `j`, and no
/// earlier classification targets a folder with the same components.
pub open spec fn first_target(root: Seq<char>, mode: OrganizationMode, cs: Seq<ClassificationResult>, j: int, f: Seq<char>) -> bool {
    &&& f == target_folder(root, mode, cs[j])
    &&& forall|i: int| 0 <= i < j ==> components(target_folder(root, mode, #[trigger] cs[i])) != components(f)
}

/// `f` is the target folder first written by one of the first `n` classifications.
#[verifier::opaque]
pub open spec fn has_origin(f: Seq<char>, root: Seq<char>, mode: OrganizationMode, cs: Seq<ClassificationResult>, n: int) -> bool {
    exists|j: int| 0 <= j < n && #[trigger] first_target(root, mode, cs, j, f)
}

/// The folders are in strictly increasing path order.
pub open spec fn sorted_paths(fs: Seq<Seq<char>>) -> bool {
    forall|a: int, b: int|
        0 <= a < b < fs.len() ==> path_order(components(#[trigger] fs[a]), components(#[trigger] fs[b])) < 0
}

/// `folders` are the target folders of the first `n` classifications: each
/// once (by components), written as the first classification that targets
/// it wrote it, in path order.
pub open spec fn is_folder_set(
    folders: Seq<Seq<char>>,
    root: Seq<char>,
    mode: OrganizationMode,
    cs: Seq<ClassificationResult>,
    n: int,
) -> bool {
    &&& sorted_paths(folders)
    &&& forall|j: int| 0 <= j < n ==> covered(folders, components(target_folder(root, mode, #[trigger] cs[j])))
    &&& forall|k: int| 0 <= k < folders.len() ==> has_origin(#[trigger] folders[k], root, mode, cs, n)
}

/// Calls `std::path::Path::exists`; what is on disk is not specified.
#[verifier::external_body]
fn path_exists(path: &str) -> (r: bool) {
    std::path::Path::new(path).exists()
}


/// The folder a classified file goes to.
fn target_folder_of(root: &Vec<char>, mode: OrganizationMode, c: &ClassificationResult) -> (r: Vec<char>)
    ensures
        r@ == target_folder(root@, mode, *c),
{
    reveal(target_folder);
    match mode {
        OrganizationMode::ByCategory => crate::path::join_chars(root, &crate::text::chars_of(c.category.folder_name())),
        OrganizationMode::Desktop => {
            let a = crate::path::join_chars(root, &crate::text::chars_of("Desktop Archive"));
            crate::path::join_chars(&a, &crate::text::chars_of(c.category.folder_name()))
        },
        OrganizationMode::ByExtension => {
            let name = match &c.file.extension {
                Some(e) => if e.as_str().unicode_len() > 0 { crate::text::chars_of(e.as_str()) } else { crate::text::chars_of("no-extension") },
                None => crate::text::chars_of("no-extension"),
            };
            crate::path::join_chars(root, &name)
        },
    }
}

/// The `k`-th alternative to a taken destination.
fn numbered_destination_of(dest: &Vec<char>, k: u64) -> (r: Vec<char>)
    ensures
        r@ == numbered_destination(dest@, k as nat),
{
    let (stem, ext) = match crate::path::file_name_of(dest) {
        Some(n) => (crate::path::name_stem_of(&n), crate::path::name_extension_of(&n)),
        None => (crate::text::chars_of("file"), None),
    };
    let mut name = crate::text::concat_chars(&stem, &crate::text::chars_of(" ("));
    name = crate::text::concat_chars(&name, &crate::text::digits_of(k));
    name = crate::text::concat_chars(&name, &crate::text::chars_of(")"));
    match ext {
        Some(e) => {
            let dotted = crate::text::concat_chars(&crate::text::chars_of("."), &e);
            name = crate::text::concat_chars(&name, &dotted);
        },
        None => {
            assert(name@ + Seq::<char>::empty() =~= name@);
        },
    }
    crate::path::with_file_name_of(dest, &name)
}

/// The destination chosen for `dest` when moving from `source`, given the
/// disk's answers for the candidates (`taken[k]` for the `k`-th; an answer
/// for a candidate that is the source is ignored).
pub fn choose_destination(dest: &Vec<char>, source: &Vec<char>, taken: &Vec<bool>) -> (r: Vec<char>)
    ensures
        r@ == first_free(dest@, source@, taken@),
{
    let dc = crate::path::components_of(dest);
    let sc = crate::path::components_of(source);
    if crate::path::components_equal(&dc, &sc) || taken.len() == 0 || !taken[0] {
        return dest.clone();
    }
    let mut k: usize = 1;
    while k < taken.len()
        invariant
            1 <= k <= taken@.len(),
            sc.deep_view() == components(source@),
            first_free(dest@, source@, taken@) == first_free_from(dest@, source@, taken@, k as nat),
        decreases taken.len() - k,
    {
        let cand = numbered_destination_of(dest, k as u64);
        let cc = crate::path::components_of(&cand);
        if !crate::path::components_equal(&cc, &sc) && !taken[k] {
            return cand;
        }
        k = k + 1;
    }
    dest.clone()
}

/// A destination for a move: asks the disk about the candidates in order
/// (`dest`, then each numbered alternative that is not the source) until
/// one is free, and chooses with the answers. Returns the destination, the
/// answers (`true` for a candidate that is the source, which is not asked
/// about) and the candidates asked about.
fn unique_destination(dest: &Vec<char>, source: &Vec<char>) -> (r: (Vec<char>, Vec<bool>, Ghost<Seq<Seq<char>>>))
    ensures
        r.0@ == first_free(dest@, source@, r.1@),
        r.2@ == asked_candidates(dest@, source@, r.1@.len()),
{
    let dc = crate::path::components_of(dest);
    let sc = crate::path::components_of(source);
    let mut taken: Vec<bool> = Vec::new();
    if crate::path::components_equal(&dc, &sc) {
        let d = choose_destination(dest, source, &taken);
        return (d, taken, Ghost(Seq::empty()));
    }
    let first = path_exists(crate::text::string_of(dest).as_str());
    taken.push(first);
    let ghost mut asked: Seq<Seq<char>> = seq![dest@];
    proof {
        assert(asked_candidates(dest@, source@, 0) =~= Seq::<Seq<char>>::empty());
        assert(asked =~= asked_candidates(dest@, source@, 1));
    }
    if !first {
        let d = choose_destination(dest, source, &taken);
        return (d, taken, Ghost(asked));
    }
    let mut k: usize = 1;
    while k < usize::MAX
        invariant
            1 <= k,
            taken@.len() == k,
            sc.deep_view() == components(source@),
            components(dest@) != components(source@),
            asked == asked_candidates(dest@, source@, k as nat),
        decreases usize::MAX - k,
    {
        let cand = numbered_destination_of(dest, k as u64);
        let cc = crate::path::components_of(&cand);
        let ghost before = asked;
        if !crate::path::components_equal(&cc, &sc) {
            let t = path_exists(crate::text::string_of(&cand).as_str());
            taken.push(t);
            proof {
                asked = asked.push(cand@);
                assert(candidate(dest@, k as nat) == cand@);
                assert(asked =~= asked_candidates(dest@, source@, (k + 1) as nat));
            }
            if !t {
                let d = choose_destination(dest, source, &taken);
                return (d, taken, Ghost(asked));
            }
        } else {
            taken.push(true);
            proof {
                assert(candidate(dest@, k as nat) == cand@);
                assert(asked =~= asked_candidates(dest@, source@, (k + 1) as nat));
            }
        }
        k = k + 1;
    }
    let d = choose_destination(dest, source, &taken);
    (d, taken, Ghost(asked))
}

/// An origin among fewer classifications is one among more.
proof fn lemma_origin_grows(f: Seq<char>, root: Seq<char>, mode: OrganizationMode, cs: Seq<ClassificationResult>, n: int)
    requires
        has_origin(f, root, mode, cs, n),
    ensures
        has_origin(f, root, mode, cs, n + 1),
{
    reveal(has_origin);
    let j = choose|j: int| 0 <= j < n && #[trigger] first_target(root, mode, cs, j, f);
    assert(first_target(root, mode, cs, j, f));
}

/// The folder set stays one when a classification targets a folder it holds.
proof fn lemma_folder_set_found(
    fs: Seq<Seq<char>>,
    root: Seq<char>,
    mode: OrganizationMode,
    cs: Seq<ClassificationResult>,
    j: int,
    p: int,
)
    requires
        0 <= j < cs.len(),
        0 <= p < fs.len(),
        components(fs[p]) == components(target_folder(root, mode, cs[j])),
        is_folder_set(fs, root, mode, cs, j),
    ensures
        is_folder_set(fs, root, mode, cs, j + 1),
{
    assert(covered(fs, components(target_folder(root, mode, cs[j])))) by {
        reveal(covered);
        assert(components(fs[p]) == components(target_folder(root, mode, cs[j])));
    }
    assert forall|k: int| 0 <= k < fs.len() implies has_origin(#[trigger] fs[k], root, mode, cs, j + 1) by {
        lemma_origin_grows(fs[k], root, mode, cs, j);
    }
}

/// Inserting a folder where the path order puts it keeps the set sorted.
proof fn lemma_insert_sorted(fs: Seq<Seq<char>>, f: Seq<char>, p: int)
    requires
        0 <= p <= fs.len(),
        forall|a: int, b: int|
            0 <= a < b < fs.len() ==> path_order(components(#[trigger] fs[a]), components(#[trigger] fs[b])) < 0,
        forall|k: int| 0 <= k < p ==> path_order(components(#[trigger] fs[k]), components(f)) < 0,
        p < fs.len() ==> path_order(components(f), components(fs[p])) < 0,
    ensures
        forall|a: int, b: int|
            0 <= a < b < fs.insert(p, f).len() ==> path_order(
                components(#[trigger] fs.insert(p, f)[a]),
                components(#[trigger] fs.insert(p, f)[b]),
            ) < 0,
{
    let nf = fs.insert(p, f);
    assert forall|a: int, b: int| 0 <= a < b < nf.len() implies path_order(components(#[trigger] nf[a]), components(#[trigger] nf[b])) < 0 by {
        if a < p && b == p {
            assert(nf[a] == fs[a]);
        } else if a < p && b > p {
            assert(nf[a] == fs[a]);
            assert(nf[b] == fs[b - 1]);
            if b - 1 > a {
                assert(path_order(components(fs[a]), components(fs[b - 1])) < 0);
            }
        } else if a == p && b > p {
            assert(nf[b] == fs[b - 1]);
            if b - 1 > p {
                assert(path_order(components(fs[p]), components(fs[b - 1])) < 0);
                crate::path::lemma_path_order_trans(components(f), components(fs[p]), components(fs[b - 1]));
            }
        } else if a > p {
            assert(nf[a] == fs[a - 1]);
            assert(nf[b] == fs[b - 1]);
        } else {
            assert(nf[a] == fs[a]);
            assert(nf[b] == fs[b]);
        }
    }
}

/// A new folder inserted in place makes the set of one more classification.
proof fn lemma_folder_set_insert(
    fs: Seq<Seq<char>>,
    root: Seq<char>,
    mode: OrganizationMode,
    cs: Seq<ClassificationResult>,
    j: int,
    p: int,
)
    requires
        0 <= j < cs.len(),
        0 <= p <= fs.len(),
        is_folder_set(fs, root, mode, cs, j),
        forall|k: int| 0 <= k < p ==> path_order(components(#[trigger] fs[k]), components(target_folder(root, mode, cs[j]))) < 0,
        p < fs.len() ==> path_order(components(target_folder(root, mode, cs[j])), components(fs[p])) < 0,
        forall|k: int| 0 <= k < fs.len() ==> components(#[trigger] fs[k]) != components(target_folder(root, mode, cs[j])),
    ensures
        is_folder_set(fs.insert(p, target_folder(root, mode, cs[j])), root, mode, cs, j + 1),
{
    let f = target_folder(root, mode, cs[j]);
    let nf = fs.insert(p, f);
    lemma_insert_sorted(fs, f, p);
    assert forall|jj: int| 0 <= jj < j + 1 implies covered(nf, components(target_folder(root, mode, #[trigger] cs[jj]))) by {
        reveal(covered);
        if jj == j {
            assert(components(nf[p]) == components(f));
        } else {
            assert(covered(fs, components(target_folder(root, mode, cs[jj]))));
            let k = choose|k: int| 0 <= k < fs.len() && components(#[trigger] fs[k]) == components(
                target_folder(root, mode, cs[jj]),
            );
            if k < p {
                assert(nf[k] == fs[k]);
            } else {
                assert(nf[k + 1] == fs[k]);
            }
        }
    }
    assert forall|k: int| 0 <= k < nf.len() implies has_origin(#[trigger] nf[k], root, mode, cs, j + 1) by {
        if k == p {
            assert(nf[k] == f);
            assert forall|i: int| 0 <= i < j implies components(target_folder(root, mode, #[trigger] cs[i])) != components(f) by {
                assert(covered(fs, components(target_folder(root, mode, cs[i]))));
                reveal(covered);
                let kk = choose|kk: int| 0 <= kk < fs.len() && components(#[trigger] fs[kk]) == components(
                    target_folder(root, mode, cs[i]),
                );
                assert(components(fs[kk]) != components(f));
            }
            assert(first_target(root, mode, cs, j, f));
            reveal(has_origin);
        } else {
            let old_k = if k < p { k } else { k - 1 };
            assert(nf[k] == fs[old_k]);
            assert(has_origin(fs[old_k], root, mode, cs, j));
            lemma_origin_grows(fs[old_k], root, mode, cs, j);
        }
    }
}

/// Adds the target folder of classification `j` to the sorted folder set.
fn insert_folder(
    folders: &mut Vec<Vec<char>>,
    keys: &mut Vec<Vec<Vec<char>>>,
    folder: Vec<char>,
    Ghost(root): Ghost<Seq<char>>,
    Ghost(mode): Ghost<OrganizationMode>,
    Ghost(cs): Ghost<Seq<ClassificationResult>>,
    Ghost(j): Ghost<int>,
)
    requires
        0 <= j < cs.len(),
        folder@ == target_folder(root, mode, cs[j]),
        old(folders)@.len() == old(keys)@.len(),
        forall|k: int| 0 <= k < old(keys)@.len() ==> #[trigger] old(keys)@[k].deep_view() == components(old(folders)@[k]@),
        is_folder_set(old(folders).deep_view(), root, mode, cs, j),
    ensures
        final(folders)@.len() == final(keys)@.len(),
        forall|k: int| 0 <= k < final(keys)@.len() ==> #[trigger] final(keys)@[k].deep_view() == components(final(folders)@[k]@),
        is_folder_set(final(folders).deep_view(), root, mode, cs, j + 1),
{
    let fc = crate::path::components_of(&folder);
    let ghost fs = folders.deep_view();
    let mut p: usize = 0;
    while p < keys.len() && crate::path::path_order_of(&keys[p], &fc) < 0
        invariant
            p <= keys@.len(),
            keys@.len() == folders@.len(),
            fs == folders.deep_view(),
            forall|k: int| 0 <= k < keys@.len() ==> #[trigger] keys@[k].deep_view() == components(folders@[k]@),
            forall|k: int| 0 <= k < p ==> path_order(components(#[trigger] fs[k]), fc.deep_view()) < 0,
        decreases keys.len() - p,
    {
        assert(fs[p as int] == folders@[p as int]@);
        p = p + 1;
    }
    if p < keys.len() && crate::path::path_order_of(&keys[p], &fc) == 0 {
        proof {
            assert(fs[p as int] == folders@[p as int]@);
            crate::path::lemma_path_order_basic(components(fs[p as int]), fc.deep_view());
            lemma_folder_set_found(fs, root, mode, cs, j, p as int);
        }
        return;
    }
    proof {
        if p < keys@.len() {
            assert(fs[p as int] == folders@[p as int]@);
            crate::path::lemma_path_order_basic(components(fs[p as int]), fc.deep_view());
        }
        assert forall|k: int| 0 <= k < fs.len() implies components(#[trigger] fs[k]) != fc.deep_view() by {
            if k < p {
                crate::path::lemma_path_order_basic(components(fs[k]), fc.deep_view());
            } else {
                crate::path::lemma_path_order_basic(components(fs[p as int]), fc.deep_view());
                if k > p {
                    assert(path_order(components(fs[p as int]), components(fs[k])) < 0);
                    crate::path::lemma_path_order_trans(fc.deep_view(), components(fs[p as int]), components(fs[k]));
                    crate::path::lemma_path_order_basic(fc.deep_view(), components(fs[k]));
                }
            }
        }
        lemma_folder_set_insert(fs, root, mode, cs, j, p as int);
    }
    let ghost folder_view = folder@;
    folders.insert(p, folder);
    keys.insert(p, fc);
    proof {
        assert(folders.deep_view() =~= fs.insert(p as int, folder_view));
        assert forall|k: int| 0 <= k < keys@.len() implies #[trigger] keys@[k].deep_view() == components(folders@[k]@) by {
            if k < p {
            } else if k == p {
            } else {
            }
        }
    }
}


/// The paths of the first `m` operations, read as folder creations.
pub open spec fn created_paths(ops: Seq<FileOperationPlan>, m: int) -> Seq<Seq<char>> {
    Seq::new(m as nat, |k: int| crate::model::kind_destination(ops[k].kind))
}

/// `plan` is the preview plan of `input`: the folder creations first (the
/// target folders, each once, in path order), then one move per file that
/// must move, in input order; the summary counts them.
pub open spec fn is_plan_for(plan: OrganizationPlan, input: BuildPlanInput) -> bool {
    let cs = input.classifications@;
    let root = input.root_path@;
    let mode = input.mode;
    let m = plan.summary.folders_to_create as int;
    let moves = moving(root, mode, cs);
    &&& plan.task_id == input.task_id
    &&& plan.root_path == input.root_path
    &&& plan.mode == input.mode
    &&& plan.summary == PlanSummary {
        files_considered: cs.len() as usize,
        folders_to_create: plan.summary.folders_to_create,
        files_to_move: moves.len() as usize,
        files_to_rename: 0,
    }
    &&& plan.operations@.len() == m + moves.len()
    &&& forall|k: int| 0 <= k < m ==> {
        &&& (#[trigger] plan.operations@[k]).kind matches FileOperationKind::CreateFolder { .. }
        &&& plan.operations@[k].reason@ == "required by organization plan"@
        &&& plan.operations@[k].file_id is None
    }
    &&& is_folder_set(created_paths(plan.operations@, m), root, mode, cs, cs.len() as int)
    &&& forall|k: int| 0 <= k < moves.len() ==> is_move_for(#[trigger] plan.operations@[m + k], root, mode, moves[k])
}

/// The `Debug` name of a category.
fn category_debug_name_of(c: FileCategory) -> (r: &'static str)
    ensures
        r@ == category_debug_name(c),
{
    match c {
        FileCategory::Documents => "Documents",
        FileCategory::Images => "Images",
        FileCategory::Videos => "Videos",
        FileCategory::Audio => "Audio",
        FileCategory::Archives => "Archives",
        FileCategory::Installers => "Installers",
        FileCategory::Code => "Code",
        FileCategory::Spreadsheets => "Spreadsheets",
        FileCategory::Presentations => "Presentations",
        FileCategory::Pdf => "Pdf",
        FileCategory::Other => "Other",
    }
}

/// A confidence in hundredths written with two decimals.
pub fn two_decimals_of(c: u32) -> (r: String)
    ensures
        r@ == two_decimals(c),
{
    let whole = crate::text::unsigned_text((c / 100) as u64);
    let mut t: Vec<char> = Vec::new();
    t.push('.');
    t.push(crate::text::digit_of(((c % 100) / 10) as u64));
    t.push(crate::text::digit_of((c % 10) as u64));
    assert(t@ =~= "."@ + seq![digit_char(((c % 100) / 10) as int), digit_char((c % 10) as int)]) by {
        reveal_strlit(".");
    }
    whole.concat(crate::text::string_of(&t).as_str())
}

/// The reason recorded for moving a classified file.
fn move_reason_of(c: &ClassificationResult) -> (r: String)
    ensures
        r@ == move_reason(*c),
{
    String::from_str("classified as ").concat(category_debug_name_of(c.category)).concat(
        " with confidence ",
    ).concat(two_decimals_of(c.confidence).as_str())
}

/// Builds preview plans; it never touches files.
#[derive(Debug, Default, Clone, Copy)]
pub struct DefaultPlanBuilder;

impl DefaultPlanBuilder {
    /// Builds the plan for the classified files. Only folder creations and
    /// moves are planned; a file already in place gets no move.
    pub fn build_plan(&self, input: BuildPlanInput) -> (plan: OrganizationPlan)
        ensures
            is_plan_for(plan, input),
    {
        let root = crate::text::chars_of(input.root_path.as_str());
        let ghost cs = input.classifications@;
        let mut folders: Vec<Vec<char>> = Vec::new();
        let mut keys: Vec<Vec<Vec<char>>> = Vec::new();
        let mut moves: Vec<FileOperationPlan> = Vec::new();
        let mut i: usize = 0;
        while i < input.classifications.len()
            invariant
                i <= cs.len(),
                cs == input.classifications@,
                root@ == input.root_path@,
                folders@.len() == keys@.len(),
                forall|k: int| 0 <= k < keys@.len() ==> #[trigger] keys@[k].deep_view() == components(folders@[k]@),
                is_folder_set(folders.deep_view(), root@, input.mode, cs, i as int),
                moves@.len() == moving(root@, input.mode, cs.subrange(0, i as int)).len(),
                forall|k: int| 0 <= k < moves@.len() ==> is_move_for(
                    #[trigger] moves@[k],
                    root@,
                    input.mode,
                    moving(root@, input.mode, cs.subrange(0, i as int))[k],
                ),
            decreases cs.len() - i,
        {
            let c = &input.classifications[i];
            proof {
                assert(cs.subrange(0, i + 1).drop_last() =~= cs.subrange(0, i as int));
                assert(cs.subrange(0, i + 1).last() == cs[i as int]);
            }
            let folder = target_folder_of(&root, input.mode, c);
            let dest0 = crate::path::join_chars(&folder, &crate::text::chars_of(c.file.file_name.as_str()));
            insert_folder(&mut folders, &mut keys, folder, Ghost(root@), Ghost(input.mode), Ghost(cs), Ghost(i as int));
            let source = crate::text::chars_of(c.file.path.as_str());
            let (dest, taken, _asked) = unique_destination(&dest0, &source);
            proof {
                lemma_first_free_choice(dest0@, source@, taken@);
                assert(is_free_choice(dest@, dest0@, source@));
            }
            let sc = crate::path::components_of(&source);
            let dc = crate::path::components_of(&dest);
            if !crate::path::components_equal(&sc, &dc) {
                proof {
                    assert(must_move(root@, input.mode, *c));
                }
                moves.push(FileOperationPlan {
                    operation_id: crate::ids::new_id(),
                    kind: FileOperationKind::MoveFile {
                        source: c.file.path.clone(),
                        destination: crate::text::string_of(&dest),
                    },
                    reason: move_reason_of(c),
                    file_id: Some(c.file.id),
                });
            } else {
                proof {
                    if components(dest0@) != components(source@) {
                        if dest@ != dest0@ {
                            let k = choose|k: nat| k >= 1 && dest@ == #[trigger] numbered_destination(dest0@, k)
                                && components(dest@) != components(source@);
                        }
                    }
                    assert(!must_move(root@, input.mode, *c));
                }
            }
            i = i + 1;
        }
        proof {
            assert(cs.subrange(0, cs.len() as int) =~= cs);
        }
        let m = folders.len();
        let mut operations: Vec<FileOperationPlan> = Vec::new();
        let mut k: usize = 0;
        while k < folders.len()
            invariant
                k <= folders@.len(),
                operations@.len() == k,
                forall|j: int| 0 <= j < k ==> {
                    &&& (#[trigger] operations@[j]).kind matches FileOperationKind::CreateFolder { .. }
                    &&& crate::model::kind_destination(operations@[j].kind) == folders@[j]@
                    &&& operations@[j].reason@ == "required by organization plan"@
                    &&& operations@[j].file_id is None
                },
            decreases folders.len() - k,
        {
            operations.push(FileOperationPlan {
                operation_id: crate::ids::new_id(),
                kind: FileOperationKind::CreateFolder { path: crate::text::string_of(&folders[k]) },
                reason: String::from_str("required by organization plan"),
                file_id: None,
            });
            k = k + 1;
        }
        proof {
            assert(created_paths(operations@, m as int) =~= folders.deep_view());
        }
        let ghost before = operations@;
        assert(forall|t: int| 0 <= t < m ==> {
            &&& (#[trigger] before[t]).kind matches FileOperationKind::CreateFolder { .. }
            &&& before[t].reason@ == "required by organization plan"@
            &&& before[t].file_id is None
        });
        let move_count = moves.len();
        let mut j: usize = 0;
        while j < moves.len()
            invariant
                j <= moves@.len(),
                operations@.len() == m + j,
                forall|t: int| 0 <= t < m ==> operations@[t] == before[t],
                forall|t: int| 0 <= t < j ==> operations@[m + t] == moves@[t],
            decreases moves.len() - j,
        {
            operations.push(moves[j].clone());
            j = j + 1;
        }
        let plan = OrganizationPlan {
            plan_id: crate::ids::new_id(),
            task_id: input.task_id,
            root_path: input.root_path,
            mode: input.mode,
            operations,
            summary: PlanSummary {
                files_considered: input.classifications.len(),
                folders_to_create: m,
                files_to_move: move_count,
                files_to_rename: 0,
            },
            created_at: crate::clock::now(),
        };
        proof {
            assert(created_paths(plan.operations@, m as int) =~= created_paths(before, m as int));
            let mv = moving(root@, input.mode, cs);
            assert(plan.operations@.len() == m + mv.len());
            assert forall|k: int| 0 <= k < m implies {
                &&& (#[trigger] plan.operations@[k]).kind matches FileOperationKind::CreateFolder { .. }
                &&& plan.operations@[k].reason@ == "required by organization plan"@
                &&& plan.operations@[k].file_id is None
            } by {
                assert(plan.operations@[k] == before[k]);
            }
            assert(is_folder_set(created_paths(plan.operations@, m as int), root@, input.mode, cs, cs.len() as int));
            assert forall|k: int| 0 <= k < mv.len() implies is_move_for(#[trigger] plan.operations@[m + k], root@, input.mode, mv[k]) by {
                assert(plan.operations@[m + k] == moves@[k]);
                assert(is_move_for(moves@[k], root@, input.mode, moving(root@, input.mode, cs.subrange(0, cs.len() as int))[k]));
            }
        }
        plan
    }
}


/// Where a classified file's folder is. By category: the category's folder
/// under the root. On the desktop: that folder under `Desktop Archive`. By
/// extension: a folder named by the file's extension, as written, under the
/// root; `no-extension` only when it has no extension or an empty one. The
/// file goes into that folder under its own name.
pub proof fn law_target_folders(root: Seq<char>, c: ClassificationResult)
    ensures
        target_folder(root, OrganizationMode::ByCategory, c) == join(root, category_folder(c.category)),
        target_folder(root, OrganizationMode::Desktop, c) == join(
            join(root, "Desktop Archive"@),
            category_folder(c.category),
        ),
        (c.file.extension matches Some(e) && e@.len() > 0) ==> target_folder(
            root,
            OrganizationMode::ByExtension,
            c,
        ) == join(root, c.file.extension.unwrap()@),
        !(c.file.extension matches Some(e) && e@.len() > 0) ==> target_folder(
            root,
            OrganizationMode::ByExtension,
            c,
        ) == join(root, "no-extension"@),
        forall|mode: OrganizationMode| #[trigger] natural_destination(root, mode, c) == join(
            target_folder(root, mode, c),
            c.file.file_name@,
        ),
{
    reveal(target_folder);
}

/// In a plan by extension, each classified file's extension folder is among
/// the folders the plan creates: the folder named by its extension under
/// the root, or `no-extension` when it has none.
pub proof fn law_extension_plan_creates_folder(plan: OrganizationPlan, input: BuildPlanInput, j: int)
    requires
        is_plan_for(plan, input),
        input.mode == OrganizationMode::ByExtension,
        0 <= j < input.classifications@.len(),
    ensures
        ({
            let c = input.classifications@[j];
            let root = input.root_path@;
            let m = plan.summary.folders_to_create as int;
            let folder = if (c.file.extension matches Some(e) && e@.len() > 0) {
                join(root, c.file.extension.unwrap()@)
            } else {
                join(root, "no-extension"@)
            };
            exists|k: int|
                0 <= k < m && ((#[trigger] plan.operations@[k]).kind matches FileOperationKind::CreateFolder {
                    path,
                } && components(path@) == components(folder))
        }),
{
    let c = input.classifications@[j];
    let root = input.root_path@;
    let m = plan.summary.folders_to_create as int;
    let fs = created_paths(plan.operations@, m);
    law_target_folders(root, c);
    assert(covered(fs, components(target_folder(root, input.mode, input.classifications@[j]))));
    reveal(covered);
    let k = choose|k: int| 0 <= k < fs.len() && components(#[trigger] fs[k]) == components(
        target_folder(root, input.mode, c),
    );
    assert(plan.operations@[k].kind matches FileOperationKind::CreateFolder { .. });
}


/// The folders of a plan by category, one per category under the root:
/// Documents, Images, Videos, Audio, Archives, Installers, Code,
/// Spreadsheets, Presentations, PDF and Other.
pub proof fn law_category_folder_names(root: Seq<char>, c: ClassificationResult)
    ensures
        c.category == FileCategory::Documents ==> target_folder(root, OrganizationMode::ByCategory, c) == join(root, "Documents"@),
        c.category == FileCategory::Images ==> target_folder(root, OrganizationMode::ByCategory, c) == join(root, "Images"@),
        c.category == FileCategory::Videos ==> target_folder(root, OrganizationMode::ByCategory, c) == join(root, "Videos"@),
        c.category == FileCategory::Audio ==> target_folder(root, OrganizationMode::ByCategory, c) == join(root, "Audio"@),
        c.category == FileCategory::Archives ==> target_folder(root, OrganizationMode::ByCategory, c) == join(root, "Archives"@),
        c.category == FileCategory::Installers ==> target_folder(root, OrganizationMode::ByCategory, c) == join(root, "Installers"@),
        c.category == FileCategory::Code ==> target_folder(root, OrganizationMode::ByCategory, c) == join(root, "Code"@),
        c.category == FileCategory::Spreadsheets ==> target_folder(root, OrganizationMode::ByCategory, c) == join(root, "Spreadsheets"@),
        c.category == FileCategory::Presentations ==> target_folder(root, OrganizationMode::ByCategory, c) == join(root, "Presentations"@),
        c.category == FileCategory::Pdf ==> target_folder(root, OrganizationMode::ByCategory, c) == join(root, "PDF"@),
        c.category == FileCategory::Other ==> target_folder(root, OrganizationMode::ByCategory, c) == join(root, "Other"@),
{
    reveal(target_folder);
}

} // verus!
