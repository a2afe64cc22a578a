//! A read-only scan of a folder's metadata: which roots are refused, which
//! entries are walked into, kept, skipped or counted as errors, what is
//! recorded of a file (never its contents), and the order of the result.
//!
//! The caller walks the folder: `ScanRun` decides on each entry it is
//! shown and assembles the report.

use vstd::prelude::*;
use vstd::string::StringSliceAdditionalSpecFns;
use crate::clock::Timestamp;
use crate::hashing::{hex_text, sha256_of};
use crate::model::{FileItem, ScanOptions};
use crate::path::{components, extension, file_name, path_order, path_starts_with, render};
use crate::platform::is_sensitive;
use crate::text::ascii_lower;

verus! {

broadcast use crate::text::lemma_chars_deep_view;

/// What the MIME type guesser makes of a path (from its extension).
pub uninterp spec fn mime_for_path(path: Seq<char>) -> Option<Seq<char>>;

/// Calls `mime_guess::from_path` and takes `first_raw`: the first MIME type
/// known for the path's extension; the result is named `mime_for_path`.
#[verifier::external_body]
fn guess_mime(path: &str) -> (r: Option<String>)
    ensures
        crate::skill_engine::opt_view(r) == mime_for_path(path@),
{
    mime_guess::from_path(path).first_raw().map(String::from)
}

/// The path's name begins with a dot.
pub open spec fn is_hidden(path: Seq<char>) -> bool {
    match file_name(path) {
        Some(n) => n.len() > 0 && n[0] == '.',
        None => false,
    }
}

/// Whether the path's name begins with a dot.
pub fn is_hidden_path(path: &str) -> (r: bool)
    ensures
        r == is_hidden(path@),
{
    match crate::path::file_name_of(&crate::text::chars_of(path)) {
        Some(n) => n.len() > 0 && n[0] == '.',
        None => false,
    }
}

/// How deep the walk goes: only the root's entries unless recursive; one
/// level below the given depth (saturating) when recursive with a limit;
/// without limit otherwise.
pub open spec fn walk_depth(options: ScanOptions) -> usize {
    if options.recursive {
        match options.max_depth {
            Some(d) => if d < usize::MAX {
                (d + 1) as usize
            } else {
                usize::MAX
            },
            None => usize::MAX,
        }
    } else {
        1
    }
}

/// How deep the walk goes.
pub fn walker_depth(options: &ScanOptions) -> (r: usize)
    ensures
        r == walk_depth(*options),
{
    if options.recursive {
        match options.max_depth {
            Some(d) => d.saturating_add(1),
            None => usize::MAX,
        }
    } else {
        1
    }
}

/// The walk enters a path: the root always; otherwise not a sensitive
/// path, and not a hidden one unless hidden entries are wanted.
pub open spec fn descends(path: Seq<char>, options: ScanOptions) -> bool {
    if components(path) == components(options.root@) {
        true
    } else if is_sensitive(path) {
        false
    } else {
        options.include_hidden || !is_hidden(path)
    }
}

/// Whether the walk enters a path.
pub fn should_descend(path: &str, options: &ScanOptions) -> (r: bool)
    ensures
        r == descends(path@, *options),
{
    let pc = crate::path::components_of(&crate::text::chars_of(path));
    let rc = crate::path::components_of(&crate::text::chars_of(options.root.as_str()));
    if crate::path::components_equal(&pc, &rc) {
        return true;
    }
    if crate::platform::is_sensitive_path(path) {
        return false;
    }
    options.include_hidden || !is_hidden_path(path)
}

/// Why a root is refused, if it is: a sensitive directory, or not a
/// directory.
pub open spec fn root_refusal(options: ScanOptions, root_is_dir: bool) -> Option<Seq<char>> {
    if is_sensitive(options.root@) {
        Some("refusing to scan sensitive directory: "@ + options.root@)
    } else if !root_is_dir {
        Some("scan root is not a directory: "@ + options.root@)
    } else {
        None
    }
}

/// What the caller learned of a file's metadata (without following a
/// final symbolic link).
#[derive(Debug, Clone, Copy, PartialEq, Eq)]
pub struct FileMetadata {
    pub size_bytes: u64,
    pub created_at: Option<Timestamp>,
    pub modified_at: Option<Timestamp>,
    pub accessed_at: Option<Timestamp>,
    pub is_symlink: bool,
}

/// The path relative to the root, as `Path::strip_prefix` gives it on the
/// canonical text; the path itself when it is not under the root.
pub open spec fn relative_to(path: Seq<char>, root: Seq<char>) -> Seq<char> {
    if path_starts_with(path, root) {
        render(components(path).subrange(components(root).len() as int, components(path).len() as int))
    } else {
        path
    }
}

/// `f` records a file at `path` under `root` with this metadata: its name,
/// its lower-cased extension, its MIME type guessed from the path, the
/// hash of its path, and nothing of its contents.
pub open spec fn is_file_record(f: FileItem, root: Seq<char>, path: Seq<char>, m: FileMetadata) -> bool {
    &&& f.root@ == root
    &&& f.path@ == path
    &&& f.relative_path@ == relative_to(path, root)
    &&& f.file_name@ == match file_name(path) {
        Some(n) => n,
        None => Seq::empty(),
    }
    &&& crate::skill_engine::opt_view(f.extension) == match extension(path) {
        Some(e) => Some(ascii_lower(e)),
        None => None,
    }
    &&& f.size_bytes == m.size_bytes
    &&& f.created_at == m.created_at
    &&& f.modified_at == m.modified_at
    &&& f.accessed_at == m.accessed_at
    &&& f.is_hidden == is_hidden(path)
    &&& f.is_symlink == m.is_symlink
    &&& crate::skill_engine::opt_view(f.mime_type) == mime_for_path(path)
    &&& f.path_hash@ == hex_text(sha256_of(vstd::utf8::encode_utf8(path)))
    &&& f.path_hash@.len() == 64
}

/// The path relative to the root.
fn relative_to_of(path: &str, root: &str) -> (r: String)
    ensures
        r@ == relative_to(path@, root@),
{
    let p = crate::text::chars_of(path);
    let rt = crate::text::chars_of(root);
    if !crate::path::path_starts_with_of(&p, &rt) {
        return String::from_str(path);
    }
    let pc = crate::path::components_of(&p);
    let rc = crate::path::components_of(&rt);
    proof {
        assert(components(root@).is_prefix_of(components(path@)));
    }
    let mut rest: Vec<Vec<char>> = Vec::new();
    let mut i: usize = rc.len();
    while i < pc.len()
        invariant
            rc@.len() <= i <= pc@.len(),
            pc.deep_view() == components(path@),
            rc.deep_view() == components(root@),
            rest.deep_view() == pc.deep_view().subrange(rc@.len() as int, i as int),
        decreases pc.len() - i,
    {
        let ghost before = rest.deep_view();
        rest.push(pc[i].clone());
        proof {
            assert(rest.deep_view() =~= before.push(pc.deep_view()[i as int]));
            assert(pc.deep_view().subrange(rc@.len() as int, i + 1) =~= pc.deep_view().subrange(
                rc@.len() as int,
                i as int,
            ).push(pc.deep_view()[i as int]));
        }
        i = i + 1;
    }
    crate::text::string_of(&crate::path::render_of(&rest))
}

/// The record of a file at `path` under `root`, with a new id and the
/// current time as its indexing time.
pub fn build_file_item(root: &str, path: &str, metadata: &FileMetadata) -> (r: FileItem)
    ensures
        is_file_record(r, root@, path@, *metadata),
{
    let p = crate::text::chars_of(path);
    let file_name = match crate::path::file_name_of(&p) {
        Some(n) => crate::text::string_of(&n),
        None => String::new(),
    };
    let extension = match crate::path::extension_of(&p) {
        Some(e) => Some(crate::text::string_of(&crate::text::ascii_lower_chars(&e))),
        None => None,
    };
    let hash = crate::hashing::sha256_hex(path);
    proof {
        assert(path.spec_bytes() == vstd::utf8::encode_utf8(path@));
    }
    FileItem {
        id: crate::ids::new_id(),
        root: String::from_str(root),
        path: String::from_str(path),
        relative_path: relative_to_of(path, root),
        file_name,
        extension,
        size_bytes: metadata.size_bytes,
        created_at: metadata.created_at,
        modified_at: metadata.modified_at,
        accessed_at: metadata.accessed_at,
        is_hidden: is_hidden_path(path),
        is_symlink: metadata.is_symlink,
        mime_type: guess_mime(path),
        path_hash: hash,
        indexed_at: crate::clock::now(),
    }
}

/// The scanner of the file system; the walk itself is the caller's, the
/// decisions are a `ScanRun`'s.
#[derive(Debug, Default, Clone, Copy, PartialEq, Eq)]
pub struct DefaultFileScanner;

/// How a scan ended.
#[derive(Debug, Clone, Copy, PartialEq, Eq, Structural)]
pub enum ScanStatus {
    Completed,
    Cancelled,
}

/// What a scan found: the files, how it ended, and how many entries were
/// skipped or could not be read.
#[derive(Debug, PartialEq, Eq)]
pub struct ScanReport {
    pub files: Vec<FileItem>,
    pub status: ScanStatus,
    pub skipped_count: usize,
    pub error_count: usize,
}

/// What to do with an entry of the walk.
#[derive(Debug, Clone, Copy, PartialEq, Eq, Structural)]
pub enum EntryDecision {
    /// Not a file below the root: nothing to record.
    Ignore,
    /// A file that is hidden (and unwanted) or sensitive: counted as skipped.
    Skip,
    /// A file to record: its metadata is needed.
    Read,
}

/// What to do with an entry at `depth` below the root.
pub open spec fn entry_decision(options: ScanOptions, depth: usize, is_file: bool, path: Seq<char>) -> EntryDecision {
    if depth == 0 || !is_file {
        EntryDecision::Ignore
    } else if !options.include_hidden && is_hidden(path) {
        EntryDecision::Skip
    } else if is_sensitive(path) {
        EntryDecision::Skip
    } else {
        EntryDecision::Read
    }
}

/// Two paths in the order of `Ord for Path`, as texts.
pub open spec fn path_le(a: Seq<char>, b: Seq<char>) -> bool {
    path_order(components(a), components(b)) <= 0
}

/// Files in order of their paths.
pub open spec fn sorted_by_path(files: Seq<FileItem>) -> bool {
    forall|i: int, j: int| 0 <= i < j < files.len() ==> path_le(#[trigger] files[i].path@, #[trigger] files[j].path@)
}

/// A path the scan may record under these options: not sensitive, and not
/// hidden unless hidden files are wanted.
pub open spec fn admitted(options: ScanOptions, path: Seq<char>) -> bool {
    !is_sensitive(path) && (options.include_hidden || !is_hidden(path))
}

/// A file as a scan records it: admitted, under the scan's root, with its
/// path relative to the root and its 64-digit path hash.
pub open spec fn is_recorded(options: ScanOptions, f: FileItem) -> bool {
    &&& admitted(options, f.path@)
    &&& f.root@ == options.root@
    &&& f.relative_path@ == relative_to(f.path@, options.root@)
    &&& f.path_hash@.len() == 64
}

/// One scan of a root: the files recorded so far, the file waiting for its
/// metadata, and the counts.
pub struct ScanRun {
    options: ScanOptions,
    files: Vec<FileItem>,
    pending: Option<String>,
    skipped_count: usize,
    error_count: usize,
}

impl ScanRun {
    /// The options of the scan.
    pub closed spec fn options(&self) -> ScanOptions {
        self.options
    }

    /// The files recorded so far, in the order they were shown.
    pub closed spec fn files(&self) -> Seq<FileItem> {
        self.files@
    }

    /// The path of the file last admitted and not yet recorded, if any.
    pub closed spec fn pending(&self) -> Option<Seq<char>> {
        crate::skill_engine::opt_view(self.pending)
    }

    /// The entries skipped so far.
    pub closed spec fn skipped(&self) -> usize {
        self.skipped_count
    }

    /// The entries that could not be read so far.
    pub closed spec fn errors(&self) -> usize {
        self.error_count
    }

    /// Every file recorded, and the one waiting, is admitted under the
    /// scan's options and lies under its root.
    pub closed spec fn wf(&self) -> bool {
        &&& forall|i: int|
            0 <= i < self.files@.len() ==> is_recorded(self.options, #[trigger] self.files@[i])
        &&& match self.pending {
            Some(p) => admitted(self.options, p@),
            None => true,
        }
    }

    /// Starts a scan: a sensitive root or one that is not a directory is
    /// refused.
    pub fn start(options: ScanOptions, root_is_dir: bool) -> (r: Result<Self, String>)
        ensures
            match root_refusal(options, root_is_dir) {
                Some(m) => r matches Err(e) && e@ == m,
                None => r matches Ok(run) && run.wf() && run.options() == options && run.files().len() == 0
                    && run.pending() is None && run.skipped() == 0 && run.errors() == 0,
            },
    {
        if crate::platform::is_sensitive_path(options.root.as_str()) {
            return Err(String::from_str("refusing to scan sensitive directory: ").concat(options.root.as_str()));
        }
        if !root_is_dir {
            return Err(String::from_str("scan root is not a directory: ").concat(options.root.as_str()));
        }
        Ok(ScanRun { options, files: Vec::new(), pending: None, skipped_count: 0, error_count: 0 })
    }

    /// The depth the walk should go to.
    pub fn depth(&self) -> (r: usize)
        ensures
            r == walk_depth(self.options()),
    {
        walker_depth(&self.options)
    }

    /// Whether the walk should enter a path.
    pub fn descends_into(&self, path: &str) -> (r: bool)
        ensures
            r == descends(path@, self.options()),
    {
        should_descend(path, &self.options)
    }

    /// Counts an entry the walk could not read.
    pub fn walk_error(&mut self)
        requires
            old(self).wf(),
            old(self).errors() < usize::MAX,
        ensures
            final(self).wf(),
            final(self).options() == old(self).options(),
            final(self).files() == old(self).files(),
            final(self).pending() == old(self).pending(),
            final(self).skipped() == old(self).skipped(),
            final(self).errors() == old(self).errors() + 1,
    {
        self.error_count = self.error_count + 1;
    }

    /// Decides on an entry: nothing for the root or what is not a file,
    /// a skip (counted) for hidden or sensitive files, otherwise a file to
    /// read, which then waits for its metadata.
    pub fn visit(&mut self, depth: usize, is_file: bool, path: &str) -> (r: EntryDecision)
        requires
            old(self).wf(),
            old(self).skipped() < usize::MAX,
        ensures
            final(self).wf(),
            r == entry_decision(old(self).options(), depth, is_file, path@),
            final(self).options() == old(self).options(),
            final(self).files() == old(self).files(),
            final(self).errors() == old(self).errors(),
            final(self).pending() == if r == EntryDecision::Read {
                Some(path@)
            } else {
                None::<Seq<char>>
            },
            final(self).skipped() == old(self).skipped() + if r == EntryDecision::Skip {
                1int
            } else {
                0int
            },
    {
        self.pending = None;
        if depth == 0 || !is_file {
            return EntryDecision::Ignore;
        }
        if (!self.options.include_hidden && is_hidden_path(path)) || crate::platform::is_sensitive_path(path) {
            self.skipped_count = self.skipped_count + 1;
            return EntryDecision::Skip;
        }
        self.pending = Some(String::from_str(path));
        EntryDecision::Read
    }

    /// Records the file waiting for its metadata: its record when the
    /// metadata could be read, otherwise an error. Without a file waiting,
    /// nothing changes.
    pub fn add_file(&mut self, metadata: Option<FileMetadata>)
        requires
            old(self).wf(),
            old(self).errors() < usize::MAX,
        ensures
            final(self).wf(),
            final(self).options() == old(self).options(),
            final(self).skipped() == old(self).skipped(),
            final(self).pending() is None,
            match old(self).pending() {
                None => final(self).errors() == old(self).errors() && final(self).files() == old(self).files(),
                Some(path) => match metadata {
                    Some(m) => final(self).errors() == old(self).errors() && final(self).files().len() == old(
                        self,
                    ).files().len() + 1 && final(self).files().drop_last() == old(self).files()
                        && is_file_record(final(self).files().last(), old(self).options().root@, path, m),
                    None => final(self).errors() == old(self).errors() + 1 && final(self).files() == old(
                        self,
                    ).files(),
                },
            },
    {
        let pending = self.pending.take();
        match pending {
            None => {},
            Some(path) => match metadata {
                Some(m) => {
                    let f = build_file_item(self.options.root.as_str(), path.as_str(), &m);
                    let ghost before = self.files@;
                    self.files.push(f);
                    assert(self.files@.drop_last() =~= before);
                    assert forall|i: int| 0 <= i < self.files@.len() implies is_recorded(
                        self.options,
                        #[trigger] self.files@[i],
                    ) by {
                        if i < before.len() {
                            assert(self.files@[i] == before[i]);
                        }
                    }
                },
                None => {
                    self.error_count = self.error_count + 1;
                },
            },
        }
    }

    /// Ends a cancelled scan: the files so far, as recorded.
    pub fn cancel(self) -> (r: ScanReport)
        requires
            self.wf(),
        ensures
            r.files@ == self.files(),
            forall|i: int| 0 <= i < r.files@.len() ==> is_recorded(self.options(), #[trigger] r.files@[i]),
            r.status == ScanStatus::Cancelled,
            r.skipped_count == self.skipped(),
            r.error_count == self.errors(),
    {
        ScanReport {
            files: self.files,
            status: ScanStatus::Cancelled,
            skipped_count: self.skipped_count,
            error_count: self.error_count,
        }
    }

    /// Ends a completed scan: the files in order of their paths.
    pub fn finish(self) -> (r: ScanReport)
        requires
            self.wf(),
        ensures
            r.files@.to_multiset() == self.files().to_multiset(),
            forall|i: int| 0 <= i < r.files@.len() ==> is_recorded(self.options(), #[trigger] r.files@[i]),
            sorted_by_path(r.files@),
            r.status == ScanStatus::Completed,
            r.skipped_count == self.skipped(),
            r.error_count == self.errors(),
    {
        let files = sort_by_path(&self.files);
        proof {
            broadcast use vstd::seq_lib::group_to_multiset_ensures;

            assert forall|i: int| 0 <= i < files@.len() implies is_recorded(
                self.options,
                #[trigger] files@[i],
            ) by {
                assert(files@.to_multiset().count(files@[i]) > 0);
                assert(self.files@.contains(files@[i]));
                let j = choose|j: int| 0 <= j < self.files@.len() && self.files@[j] == files@[i];
                assert(is_recorded(self.options, self.files@[j]));
            }
        }
        ScanReport {
            files,
            status: ScanStatus::Completed,
            skipped_count: self.skipped_count,
            error_count: self.error_count,
        }
    }
}

/// `a <= b <= c` in path order gives `a <= c`.
proof fn lemma_path_le_trans(a: Seq<Seq<char>>, b: Seq<Seq<char>>, c: Seq<Seq<char>>)
    requires
        path_order(a, b) <= 0,
        path_order(b, c) <= 0,
    ensures
        path_order(a, c) <= 0,
{
    crate::path::lemma_path_order_basic(a, b);
    crate::path::lemma_path_order_basic(b, c);
    crate::path::lemma_path_order_basic(a, c);
    if path_order(a, b) < 0 && path_order(b, c) < 0 {
        crate::path::lemma_path_order_trans(a, b, c);
    }
}

/// The files in order of their paths; files with equal paths keep their
/// order.
pub fn sort_by_path(files: &Vec<FileItem>) -> (r: Vec<FileItem>)
    ensures
        r@.to_multiset() == files@.to_multiset(),
        sorted_by_path(r@),
{
    let mut out: Vec<FileItem> = Vec::new();
    let mut keys: Vec<Vec<Vec<char>>> = Vec::new();
    let mut i: usize = 0;
    assert(files@.subrange(0, 0) =~= Seq::<FileItem>::empty());
    while i < files.len()
        invariant
            i <= files@.len(),
            out@.len() == keys@.len(),
            forall|k: int| 0 <= k < keys@.len() ==> #[trigger] keys@[k].deep_view() == components(out@[k].path@),
            out@.to_multiset() == files@.subrange(0, i as int).to_multiset(),
            sorted_by_path(out@),
        decreases files.len() - i,
    {
        let f = files[i].clone();
        let key = crate::path::components_of(&crate::text::chars_of(f.path.as_str()));
        let mut p: usize = 0;
        while p < keys.len() && crate::path::path_order_of(&keys[p], &key) <= 0
            invariant
                p <= keys@.len(),
                out@.len() == keys@.len(),
                forall|k: int| 0 <= k < keys@.len() ==> #[trigger] keys@[k].deep_view() == components(out@[k].path@),
                key.deep_view() == components(f.path@),
                forall|k: int| 0 <= k < p ==> path_le(#[trigger] out@[k].path@, f.path@),
            decreases keys.len() - p,
        {
            assert(keys@[p as int].deep_view() == components(out@[p as int].path@));
            p = p + 1;
        }
        proof {
            if p < keys@.len() {
                assert(keys@[p as int].deep_view() == components(out@[p as int].path@));
                crate::path::lemma_path_order_basic(components(out@[p as int].path@), components(f.path@));
                assert forall|k: int| p <= k < out@.len() implies path_le(f.path@, #[trigger] out@[k].path@) by {
                    if k > p {
                        assert(path_le(out@[p as int].path@, out@[k].path@));
                        lemma_path_le_trans(components(f.path@), components(out@[p as int].path@), components(out@[k].path@));
                    }
                }
            }
        }
        let ghost old_out = out@;
        let ghost old_keys = keys@;
        let ghost fv = f;
        out.insert(p, f);
        keys.insert(p, key);
        proof {
            assert(files@.subrange(0, i + 1) =~= files@.subrange(0, i as int).push(files@[i as int]));
            assert(out@ == old_out.insert(p as int, fv));
            assert(fv == files@[i as int]);
            vstd::seq_lib::to_multiset_insert(old_out, p as int, fv);
            vstd::seq_lib::to_multiset_build(files@.subrange(0, i as int), files@[i as int]);
            assert(files@.subrange(0, i as int).push(files@[i as int]).to_multiset() == files@.subrange(0, i as int).to_multiset().insert(
                files@[i as int],
            ));
            assert forall|a: int, b: int| 0 <= a < b < out@.len() implies path_le(#[trigger] out@[a].path@, #[trigger] out@[b].path@) by {
                if a < p && b == p {
                } else if a < p && b > p {
                    assert(path_le(old_out[a].path@, old_out[b - 1].path@));
                } else if a == p && b > p {
                } else if a > p {
                    assert(path_le(old_out[a - 1].path@, old_out[b - 1].path@));
                } else {
                    assert(path_le(old_out[a].path@, old_out[b].path@));
                }
            }
            assert forall|k: int| 0 <= k < keys@.len() implies #[trigger] keys@[k].deep_view() == components(out@[k].path@) by {
                if k < p {
                } else if k > p {
                    assert(keys@[k] == old_keys[k - 1]);
                }
            }
        }
        i = i + 1;
    }
    assert(files@.subrange(0, files@.len() as int) =~= files@);
    out
}


/// What a walk does with an entry below the root: a directory, or the root
/// itself, records nothing; a file whose name begins with a dot is skipped
/// unless hidden files are wanted; a file at a sensitive path is always
/// skipped; any other file is read. The walk enters the root, never a
/// sensitive directory, and a hidden one only when hidden files are wanted;
/// it goes only one level deep unless recursive.
pub proof fn law_walk_decisions(options: ScanOptions, depth: usize, is_file: bool, path: Seq<char>)
    ensures
        ({
            let dotted = file_name(path) matches Some(n) && n.len() > 0 && n[0] == '.';
            &&& (depth == 0 || !is_file) ==> entry_decision(options, depth, is_file, path) == EntryDecision::Ignore
            &&& (depth > 0 && is_file && dotted && !options.include_hidden) ==> entry_decision(
                options,
                depth,
                is_file,
                path,
            ) == EntryDecision::Skip
            &&& (depth > 0 && is_file && is_sensitive(path)) ==> entry_decision(options, depth, is_file, path)
                == EntryDecision::Skip
            &&& (depth > 0 && is_file && !is_sensitive(path) && (options.include_hidden || !dotted))
                ==> entry_decision(options, depth, is_file, path) == EntryDecision::Read
            &&& components(path) == components(options.root@) ==> descends(path, options)
            &&& (components(path) != components(options.root@) && is_sensitive(path)) ==> !descends(path, options)
            &&& (components(path) != components(options.root@) && dotted && !options.include_hidden)
                ==> !descends(path, options)
            &&& !options.recursive ==> walk_depth(options) == 1
            &&& (options.recursive && options.max_depth is None) ==> walk_depth(options) == usize::MAX
        }),
{
}

} // verus!
