//! Platform facts: sensitive directories that are never scanned, the
//! desktop archive folder, and the preview-only desktop layout.

use vstd::prelude::*;
use crate::model::{category_folder, ClassificationResult, FileCategory};
use crate::path::{components, join, join_with_slash};
use crate::text::ends_with;

verus! {

broadcast use crate::text::lemma_chars_deep_view;

/// The number of sensitive directory suffixes.
pub open spec fn sensitive_count() -> int {
    9
}

/// The `i`-th sensitive directory suffix.
pub open spec fn sensitive_suffix(i: int) -> Seq<char> {
    if i == 0 {
        ".ssh"@
    } else if i == 1 {
        ".gnupg"@
    } else if i == 2 {
        "Library/Keychains"@
    } else if i == 3 {
        "Library/Application Support/1Password"@
    } else if i == 4 {
        "Library/Application Support/Google/Chrome"@
    } else if i == 5 {
        "Library/Application Support/Firefox"@
    } else if i == 6 {
        "AppData/Roaming/Microsoft/Credentials"@
    } else if i == 7 {
        "AppData/Roaming/1Password"@
    } else {
        "AppData/Local/Google/Chrome/User Data"@
    }
}

/// The components of a path written with `/` between them (the root
/// component is itself `/`).
pub open spec fn normalized(p: Seq<char>) -> Seq<char> {
    join_with_slash(components(p))
}

/// The normalized text of `p` ends with that of some sensitive suffix.
pub open spec fn is_sensitive(p: Seq<char>) -> bool {
    exists|i: int|
        0 <= i < sensitive_count() && ends_with(normalized(p), #[trigger] normalized(sensitive_suffix(i)))
}

/// The `i`-th sensitive directory suffix.
fn sensitive_suffix_at(i: usize) -> (r: &'static str)
    requires
        i < 9,
    ensures
        r@ == sensitive_suffix(i as int),
{
    if i == 0 {
        ".ssh"
    } else if i == 1 {
        ".gnupg"
    } else if i == 2 {
        "Library/Keychains"
    } else if i == 3 {
        "Library/Application Support/1Password"
    } else if i == 4 {
        "Library/Application Support/Google/Chrome"
    } else if i == 5 {
        "Library/Application Support/Firefox"
    } else if i == 6 {
        "AppData/Roaming/Microsoft/Credentials"
    } else if i == 7 {
        "AppData/Roaming/1Password"
    } else {
        "AppData/Local/Google/Chrome/User Data"
    }
}

/// The normalized text of a path.
fn normalize(p: &Vec<char>) -> (r: Vec<char>)
    ensures
        r@ == normalized(p@),
{
    let cs = crate::path::components_of(p);
    crate::path::join_with_slash_of(&cs)
}

/// Whether a path lies in one of the sensitive directories (its normalized
/// text ends with a sensitive suffix).
pub fn is_sensitive_path(path: &str) -> (r: bool)
    ensures
        r == is_sensitive(path@),
{
    let n = normalize(&crate::text::chars_of(path));
    let mut i: usize = 0;
    while i < 9
        invariant
            n@ == normalized(path@),
            i <= 9,
            forall|k: int| 0 <= k < i ==> !ends_with(n@, #[trigger] normalized(sensitive_suffix(k))),
        decreases 9 - i,
    {
        let s = normalize(&crate::text::chars_of(sensitive_suffix_at(i)));
        if crate::text::ends_with_chars(&n, &s) {
            return true;
        }
        i = i + 1;
    }
    false
}

/// The sensitive directories under a home directory, in the fixed order.
pub fn default_sensitive_paths(home: &str) -> (r: Vec<String>)
    ensures
        r@.len() == sensitive_count(),
        forall|i: int| 0 <= i < r@.len() ==> #[trigger] r@[i]@ == join(home@, sensitive_suffix(i)),
{
    let h = crate::text::chars_of(home);
    let mut out: Vec<String> = Vec::new();
    let mut i: usize = 0;
    while i < 9
        invariant
            h@ == home@,
            i <= 9,
            out@.len() == i,
            forall|k: int| 0 <= k < i ==> #[trigger] out@[k]@ == join(home@, sensitive_suffix(k)),
        decreases 9 - i,
    {
        let j = crate::path::join_chars(&h, &crate::text::chars_of(sensitive_suffix_at(i)));
        out.push(crate::text::string_of(&j));
        i = i + 1;
    }
    out
}

/// The folder under `root` that archives desktop files of a category.
pub open spec fn archive_folder(root: Seq<char>, category: FileCategory) -> Seq<char> {
    join(join(root, "Desktop Archive"@), category_folder(category))
}

/// The folder under `root` that archives desktop files of a category.
pub fn desktop_archive_folder(root: &str, category: &FileCategory) -> (r: String)
    ensures
        r@ == archive_folder(root@, *category),
{
    let a = crate::path::join_chars(&crate::text::chars_of(root), &crate::text::chars_of("Desktop Archive"));
    let b = crate::path::join_chars(&a, &crate::text::chars_of(category.folder_name()));
    crate::text::string_of(&b)
}

/// The desktop platform a preview is drawn for.
#[derive(Debug, Clone, Copy, PartialEq, Eq, Structural)]
pub enum DesktopPreviewPlatform {
    Macos,
    Windows,
    Other,
}

/// What the desktop feature may do on a platform.
#[derive(Debug, Clone, Copy, PartialEq, Eq, Structural)]
pub struct DesktopCapabilityFlagsDto {
    pub preview_only: bool,
    pub supports_file_archive_plan: bool,
    pub supports_desktop_canvas_preview: bool,
    pub supports_icon_coordinate_writeback: bool,
    pub supports_pixel_perfect_layout: bool,
}

/// The capabilities of the desktop feature: always preview-only, never
/// writing icon coordinates or promising pixel-perfect layout; a canvas
/// preview only on Windows.
pub fn desktop_capabilities(platform: DesktopPreviewPlatform) -> (r: DesktopCapabilityFlagsDto)
    ensures
        r.preview_only,
        r.supports_file_archive_plan,
        r.supports_desktop_canvas_preview == (platform == DesktopPreviewPlatform::Windows),
        !r.supports_icon_coordinate_writeback,
        !r.supports_pixel_perfect_layout,
{
    DesktopCapabilityFlagsDto {
        preview_only: true,
        supports_file_archive_plan: true,
        supports_desktop_canvas_preview: match platform {
            DesktopPreviewPlatform::Windows => true,
            _ => false,
        },
        supports_icon_coordinate_writeback: false,
        supports_pixel_perfect_layout: false,
    }
}


/// The drawing area of a desktop preview.
#[derive(Debug, Clone, PartialEq, Eq)]
pub struct DesktopPreviewCanvasDto {
    pub width: u32,
    pub height: u32,
    pub columns: u32,
    pub rows: u32,
    pub coordinate_space: String,
}

/// A file shown in a desktop preview.
#[derive(Debug, Clone, PartialEq, Eq)]
pub struct DesktopPreviewFileDto {
    pub file_id: String,
    pub name: String,
    pub path: String,
    pub size_bytes: u64,
}

/// The files of one category as they lie on the desktop now.
#[derive(Debug, Clone, PartialEq, Eq)]
pub struct DesktopPreviewGroupDto {
    pub group_id: String,
    pub title: String,
    pub category_key: String,
    pub file_count: usize,
    pub total_size_bytes: u64,
    pub files: Vec<DesktopPreviewFileDto>,
}

/// A rectangle on the preview canvas.
#[derive(Debug, Clone, Copy, PartialEq, Eq, Structural)]
pub struct DesktopPreviewRectDto {
    pub x: u32,
    pub y: u32,
    pub width: u32,
    pub height: u32,
}

/// Where the files of one category would be archived.
#[derive(Debug, Clone, PartialEq, Eq)]
pub struct DesktopPreviewZoneDto {
    pub zone_id: String,
    pub title: String,
    pub category_key: String,
    pub archive_folder: String,
    pub file_count: usize,
    pub canvas_rect: DesktopPreviewRectDto,
    pub file_ids: Vec<String>,
}

/// A before-and-after preview of archiving the desktop.
#[derive(Debug, Clone, PartialEq, Eq)]
pub struct DesktopPreviewDto {
    pub platform: DesktopPreviewPlatform,
    pub capabilities: DesktopCapabilityFlagsDto,
    pub canvas: DesktopPreviewCanvasDto,
    pub before_groups: Vec<DesktopPreviewGroupDto>,
    pub after_zones: Vec<DesktopPreviewZoneDto>,
}

/// The stable lower-case key of a category.
pub open spec fn category_key(c: FileCategory) -> Seq<char> {
    match c {
        FileCategory::Documents => "documents"@,
        FileCategory::Images => "images"@,
        FileCategory::Videos => "videos"@,
        FileCategory::Audio => "audio"@,
        FileCategory::Archives => "archives"@,
        FileCategory::Installers => "installers"@,
        FileCategory::Code => "code"@,
        FileCategory::Spreadsheets => "spreadsheets"@,
        FileCategory::Presentations => "presentations"@,
        FileCategory::Pdf => "pdf"@,
        FileCategory::Other => "other"@,
    }
}

/// The stable lower-case key of a category.
pub fn category_key_of(c: &FileCategory) -> (r: &'static str)
    ensures
        r@ == category_key(*c),
{
    match c {
        FileCategory::Documents => "documents",
        FileCategory::Images => "images",
        FileCategory::Videos => "videos",
        FileCategory::Audio => "audio",
        FileCategory::Archives => "archives",
        FileCategory::Installers => "installers",
        FileCategory::Code => "code",
        FileCategory::Spreadsheets => "spreadsheets",
        FileCategory::Presentations => "presentations",
        FileCategory::Pdf => "pdf",
        FileCategory::Other => "other",
    }
}

/// The canvas of a platform's preview: four by three cells of 1200x760 on
/// Windows, three by two of 1000x640 elsewhere.
pub open spec fn canvas_matches(c: DesktopPreviewCanvasDto, platform: DesktopPreviewPlatform) -> bool {
    &&& c.coordinate_space@ == "preview_canvas"@
    &&& if platform == DesktopPreviewPlatform::Windows {
        c.width == 1200 && c.height == 760 && c.columns == 4 && c.rows == 3
    } else {
        c.width == 1000 && c.height == 640 && c.columns == 3 && c.rows == 2
    }
}

/// The canvas of a platform's preview.
pub fn desktop_canvas(platform: DesktopPreviewPlatform) -> (r: DesktopPreviewCanvasDto)
    ensures
        canvas_matches(r, platform),
{
    match platform {
        DesktopPreviewPlatform::Windows => DesktopPreviewCanvasDto {
            width: 1200,
            height: 760,
            columns: 4,
            rows: 3,
            coordinate_space: String::from_str("preview_canvas"),
        },
        _ => DesktopPreviewCanvasDto {
            width: 1000,
            height: 640,
            columns: 3,
            rows: 2,
            coordinate_space: String::from_str("preview_canvas"),
        },
    }
}

/// The categories of the classifications, each once, in order of first appearance.
pub open spec fn first_seen(cs: Seq<ClassificationResult>) -> Seq<FileCategory>
    decreases cs.len(),
{
    if cs.len() == 0 {
        Seq::empty()
    } else if first_seen(cs.drop_last()).contains(cs.last().category) {
        first_seen(cs.drop_last())
    } else {
        first_seen(cs.drop_last()).push(cs.last().category)
    }
}

/// The classifications of one category, in order.
pub open spec fn of_category(cs: Seq<ClassificationResult>, c: FileCategory) -> Seq<ClassificationResult>
    decreases cs.len(),
{
    if cs.len() == 0 {
        Seq::empty()
    } else if cs.last().category == c {
        of_category(cs.drop_last(), c).push(cs.last())
    } else {
        of_category(cs.drop_last(), c)
    }
}

/// The total size of the classified files.
pub open spec fn size_sum(cs: Seq<ClassificationResult>) -> int
    decreases cs.len(),
{
    if cs.len() == 0 {
        0
    } else {
        size_sum(cs.drop_last()) + cs.last().file.size_bytes
    }
}

/// `d` shows the file of `r`.
pub open spec fn is_file_dto(d: DesktopPreviewFileDto, r: ClassificationResult) -> bool {
    &&& d.file_id@ == crate::ids::uuid_text(r.file.id)
    &&& d.name@ == r.file.file_name@
    &&& d.path@ == r.file.path@
    &&& d.size_bytes == r.file.size_bytes
}

/// `g` is the group of category `c` of the classifications `cs`.
pub open spec fn is_group_for(g: DesktopPreviewGroupDto, cs: Seq<ClassificationResult>, c: FileCategory) -> bool {
    let members = of_category(cs, c);
    &&& g.group_id@ == "before-"@ + category_key(c)
    &&& g.title@ == category_folder(c)
    &&& g.category_key@ == category_key(c)
    &&& g.file_count == members.len()
    &&& g.total_size_bytes == size_sum(members)
    &&& g.files@.len() == members.len()
    &&& forall|i: int| 0 <= i < members.len() ==> is_file_dto(#[trigger] g.files@[i], members[i])
}

/// Each category appears once in order of first appearance.
pub proof fn lemma_first_seen_distinct(cs: Seq<ClassificationResult>)
    ensures
        first_seen(cs).no_duplicates(),
    decreases cs.len(),
{
    if cs.len() > 0 {
        lemma_first_seen_distinct(cs.drop_last());
    }
}

/// The files of each category weigh no more than a `u64` can count.
pub open spec fn group_sizes_fit(cs: Seq<ClassificationResult>) -> bool {
    forall|c: FileCategory| #[trigger] size_sum(of_category(cs, c)) <= u64::MAX
}

/// The files of one category among the first `n` weigh no more than those
/// among all.
proof fn lemma_category_prefix(cs: Seq<ClassificationResult>, c: FileCategory, n: int)
    requires
        0 <= n <= cs.len(),
    ensures
        size_sum(of_category(cs.subrange(0, n), c)) <= size_sum(of_category(cs, c)),
    decreases cs.len() - n,
{
    if n < cs.len() {
        lemma_category_prefix(cs, c, n + 1);
        let a = cs.subrange(0, n + 1);
        assert(a.drop_last() =~= cs.subrange(0, n));
        if a.last().category == c {
            assert(of_category(a, c).drop_last() =~= of_category(a.drop_last(), c));
        }
    } else {
        assert(cs.subrange(0, n) =~= cs);
    }
}

/// A file of a preview.
fn file_dto_of(r: &ClassificationResult) -> (d: DesktopPreviewFileDto)
    ensures
        is_file_dto(d, *r),
{
    DesktopPreviewFileDto {
        file_id: crate::ids::id_text(r.file.id),
        name: r.file.file_name.clone(),
        path: r.file.path.clone(),
        size_bytes: r.file.size_bytes,
    }
}

/// The groups of a preview: one per category, in order of first appearance.
pub fn grouped_classifications(cs: &Vec<ClassificationResult>) -> (r: Vec<DesktopPreviewGroupDto>)
    requires
        group_sizes_fit(cs@),
    ensures
        r@.len() == first_seen(cs@).len(),
        forall|k: int| 0 <= k < r@.len() ==> is_group_for(#[trigger] r@[k], cs@, first_seen(cs@)[k]),
{
    let mut groups: Vec<DesktopPreviewGroupDto> = Vec::new();
    let mut cats: Vec<FileCategory> = Vec::new();
    let mut i: usize = 0;
    while i < cs.len()
        invariant
            i <= cs@.len(),
            group_sizes_fit(cs@),
            cats@ == first_seen(cs@.subrange(0, i as int)),
            groups@.len() == cats@.len(),
            forall|k: int| 0 <= k < groups@.len() ==> is_group_for(#[trigger] groups@[k], cs@.subrange(0, i as int), cats@[k]),
        decreases cs.len() - i,
    {
        let ghost pre = cs@.subrange(0, i as int);
        let ghost next = cs@.subrange(0, i + 1);
        let x = &cs[i];
        proof {
            assert(next.drop_last() =~= pre);
            assert(next.last() == cs@[i as int]);
            lemma_first_seen_distinct(pre);
            lemma_category_prefix(cs@, x.category, i + 1);
            assert(size_sum(of_category(cs@, x.category)) <= u64::MAX);
        }
        let mut k: usize = 0;
        while k < cats.len() && cats[k] != x.category
            invariant
                k <= cats@.len(),
                forall|j: int| 0 <= j < k ==> cats@[j] != x.category,
            decreases cats.len() - k,
        {
            k = k + 1;
        }
        let file = file_dto_of(x);
        if k < cats.len() {
            let ghost old_groups = groups@;
            let mut g = groups.remove(k);
            let ghost old_files = g.files@;
            proof {
                assert(g == old_groups[k as int]);
                assert(is_group_for(g, pre, x.category));
                lemma_of_category_len(pre, x.category);
                assert(of_category(next, x.category) == of_category(pre, x.category).push(*x));
                assert(of_category(next, x.category).drop_last() =~= of_category(pre, x.category));
                assert(size_sum(of_category(next, x.category)) == size_sum(of_category(pre, x.category)) + x.file.size_bytes);
            }
            g.file_count = g.file_count + 1;
            g.total_size_bytes = g.total_size_bytes + file.size_bytes;
            g.files.push(file);
            proof {
                assert(of_category(next, x.category) == of_category(pre, x.category).push(*x));
                assert forall|j: int| 0 <= j < of_category(next, x.category).len() implies is_file_dto(
                    #[trigger] g.files@[j],
                    of_category(next, x.category)[j],
                ) by {
                    if j < old_files.len() {
                        assert(g.files@[j] == old_files[j]);
                    }
                }
                assert(is_group_for(g, next, cats@[k as int]));
            }
            groups.insert(k, g);
            proof {
                assert(first_seen(pre).contains(x.category));
                assert forall|j: int| 0 <= j < groups@.len() implies is_group_for(#[trigger] groups@[j], next, cats@[j]) by {
                    if j != k {
                        assert(cats@[j] != cats@[k as int]);
                        assert(of_category(next, cats@[j]) == of_category(pre, cats@[j]));
                    }
                }
            }
        } else {
            proof {
                assert(!first_seen(pre).contains(x.category));
            }
            let key = category_key_of(&x.category);
            let mut files: Vec<DesktopPreviewFileDto> = Vec::new();
            let size = file.size_bytes;
            files.push(file);
            let g = DesktopPreviewGroupDto {
                group_id: String::from_str("before-").concat(key),
                title: String::from_str(x.category.folder_name()),
                category_key: String::from_str(key),
                file_count: 1,
                total_size_bytes: size,
                files,
            };
            proof {
                assert(of_category(pre, x.category) =~= Seq::<ClassificationResult>::empty()) by {
                    lemma_not_seen_empty(pre, x.category);
                }
                assert(of_category(next, x.category) =~= seq![*x]);
                assert(size_sum(seq![*x]) == x.file.size_bytes) by {
                    assert(seq![*x].drop_last() =~= Seq::<ClassificationResult>::empty());
                    assert(size_sum(seq![*x].drop_last()) == 0);
                    assert(seq![*x].last() == *x);
                }
                assert(is_group_for(g, next, x.category));
            }
            let ghost old_groups = groups@;
            groups.push(g);
            cats.push(x.category);
            proof {
                assert forall|j: int| 0 <= j < groups@.len() implies is_group_for(#[trigger] groups@[j], next, cats@[j]) by {
                    if j < old_groups.len() {
                        assert(groups@[j] == old_groups[j]);
                        assert(cats@[j] != x.category);
                        assert(of_category(next, cats@[j]) == of_category(pre, cats@[j]));
                    }
                }
            }
        }
        i = i + 1;
    }
    assert(cs@.subrange(0, cs@.len() as int) =~= cs@);
    groups
}

/// A category has no more classifications than there are.
pub proof fn lemma_of_category_len(cs: Seq<ClassificationResult>, c: FileCategory)
    ensures
        of_category(cs, c).len() <= cs.len(),
    decreases cs.len(),
{
    if cs.len() > 0 {
        lemma_of_category_len(cs.drop_last(), c);
    }
}

/// A category that was not seen has no classifications.
pub proof fn lemma_not_seen_empty(cs: Seq<ClassificationResult>, c: FileCategory)
    requires
        !first_seen(cs).contains(c),
    ensures
        of_category(cs, c).len() == 0,
    decreases cs.len(),
{
    if cs.len() > 0 {
        let pre = cs.drop_last();
        if first_seen(pre).contains(c) {
            let k = choose|k: int| 0 <= k < first_seen(pre).len() && first_seen(pre)[k] == c;
            if first_seen(pre).contains(cs.last().category) {
                assert(first_seen(cs)[k] == c);
            } else {
                assert(first_seen(cs)[k] == c);
            }
        } else {
            if cs.last().category == c {
                assert(first_seen(cs).last() == c);
                assert(first_seen(cs).contains(c));
            }
            lemma_not_seen_empty(pre, c);
        }
    }
}


/// The cell of the `index`-th zone: cells fill the columns of a row, then
/// the next row; zones past the last row share it.
pub open spec fn zone_rect(index: usize, canvas: DesktopPreviewCanvasDto) -> DesktopPreviewRectDto {
    let columns: u32 = if canvas.columns >= 1 { canvas.columns } else { 1 };
    let rows: u32 = if canvas.rows >= 1 { canvas.rows } else { 1 };
    let cell_width = (canvas.width / columns) as u32;
    let cell_height = (canvas.height / rows) as u32;
    let column = ((index as u32) % columns) as u32;
    let row_raw = ((index as u32) / columns) as u32;
    let row = if row_raw <= (rows - 1) as u32 { row_raw } else { (rows - 1) as u32 };
    DesktopPreviewRectDto {
        x: (column * cell_width) as u32,
        y: (row * cell_height) as u32,
        width: cell_width,
        height: cell_height,
    }
}

/// `z` is the `index`-th zone, for group `g`, on the canvas, under `root`.
pub open spec fn is_zone_for(
    z: DesktopPreviewZoneDto,
    index: usize,
    g: DesktopPreviewGroupDto,
    canvas: DesktopPreviewCanvasDto,
    root: Seq<char>,
) -> bool {
    &&& z.zone_id@ == "zone-"@ + g.category_key@
    &&& z.title@ == g.title@
    &&& z.category_key@ == g.category_key@
    &&& z.archive_folder@ == join(join(root, "Desktop Archive"@), g.title@)
    &&& z.file_count == g.file_count
    &&& z.canvas_rect == zone_rect(index, canvas)
    &&& z.file_ids@.len() == g.files@.len()
    &&& forall|i: int| 0 <= i < z.file_ids@.len() ==> #[trigger] z.file_ids@[i]@ == g.files@[i].file_id@
}

/// The zone of the `index`-th group.
pub fn zone_for_group(
    index: usize,
    g: &DesktopPreviewGroupDto,
    canvas: &DesktopPreviewCanvasDto,
    root: &str,
) -> (z: DesktopPreviewZoneDto)
    ensures
        is_zone_for(z, index, *g, *canvas, root@),
{
    let columns: u32 = if canvas.columns >= 1 { canvas.columns } else { 1 };
    let rows: u32 = if canvas.rows >= 1 { canvas.rows } else { 1 };
    let cell_width = canvas.width / columns;
    let cell_height = canvas.height / rows;
    let i32v: u32 = index as u32;
    let column = i32v % columns;
    let row_raw = i32v / columns;
    let row = if row_raw <= rows - 1 { row_raw } else { rows - 1 };
    assert(column * cell_width <= canvas.width) by (nonlinear_arith)
        requires
            column < columns,
            cell_width == canvas.width / columns,
            columns >= 1,
    {
        assert(column * cell_width <= columns * cell_width);
        assert(columns * (canvas.width / columns) <= canvas.width);
    }
    assert(row * cell_height <= canvas.height) by (nonlinear_arith)
        requires
            row <= rows - 1,
            cell_height == canvas.height / rows,
            rows >= 1,
    {
        assert(row * cell_height <= rows * cell_height);
        assert(rows * (canvas.height / rows) <= canvas.height);
    }
    let rect = DesktopPreviewRectDto {
        x: column * cell_width,
        y: row * cell_height,
        width: cell_width,
        height: cell_height,
    };
    let mut ids: Vec<String> = Vec::new();
    let mut k: usize = 0;
    while k < g.files.len()
        invariant
            k <= g.files@.len(),
            ids@.len() == k,
            forall|j: int| 0 <= j < k ==> #[trigger] ids@[j]@ == g.files@[j].file_id@,
        decreases g.files.len() - k,
    {
        ids.push(g.files[k].file_id.clone());
        k = k + 1;
    }
    let a = crate::path::join_chars(&crate::text::chars_of(root), &crate::text::chars_of("Desktop Archive"));
    let folder = crate::path::join_chars(&a, &crate::text::chars_of(g.title.as_str()));
    DesktopPreviewZoneDto {
        zone_id: String::from_str("zone-").concat(g.category_key.as_str()),
        title: g.title.clone(),
        category_key: g.category_key.clone(),
        archive_folder: crate::text::string_of(&folder),
        file_count: g.file_count,
        canvas_rect: rect,
        file_ids: ids,
    }
}

/// A preview of archiving the desktop: the files grouped by category as
/// they are, and the zone each group would take. Nothing is moved.
pub fn build_desktop_preview(
    platform: DesktopPreviewPlatform,
    desktop_root: &str,
    classifications: &Vec<ClassificationResult>,
) -> (r: DesktopPreviewDto)
    requires
        group_sizes_fit(classifications@),
    ensures
        r.platform == platform,
        r.capabilities.preview_only,
        !r.capabilities.supports_icon_coordinate_writeback,
        r.capabilities.supports_desktop_canvas_preview == (platform == DesktopPreviewPlatform::Windows),
        canvas_matches(r.canvas, platform),
        r.before_groups@.len() == first_seen(classifications@).len(),
        forall|k: int|
            0 <= k < r.before_groups@.len() ==> is_group_for(
                #[trigger] r.before_groups@[k],
                classifications@,
                first_seen(classifications@)[k],
            ),
        r.after_zones@.len() == r.before_groups@.len(),
        forall|k: int|
            0 <= k < r.after_zones@.len() ==> is_zone_for(
                #[trigger] r.after_zones@[k],
                k as usize,
                r.before_groups@[k],
                r.canvas,
                desktop_root@,
            ),
{
    let groups = grouped_classifications(classifications);
    let canvas = desktop_canvas(platform);
    let mut zones: Vec<DesktopPreviewZoneDto> = Vec::new();
    let mut k: usize = 0;
    while k < groups.len()
        invariant
            k <= groups@.len(),
            zones@.len() == k,
            forall|j: int|
                0 <= j < k ==> is_zone_for(#[trigger] zones@[j], j as usize, groups@[j], canvas, desktop_root@),
        decreases groups.len() - k,
    {
        zones.push(zone_for_group(k, &groups[k], &canvas, desktop_root));
        k = k + 1;
    }
    DesktopPreviewDto {
        platform,
        capabilities: desktop_capabilities(platform),
        canvas,
        before_groups: groups,
        after_zones: zones,
    }
}

} // verus!
