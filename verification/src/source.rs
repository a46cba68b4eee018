//! Sources of media files: what a source lists and how its files are named.

use vstd::prelude::*;
use crate::datetime::{self, DateTime};
use crate::error::{Error, ErrorView, Result};
use crate::path::{self, NativePath, NativeView};
use crate::text;

verus! {

/// Identifier of a source within one run. Its view is its text.
#[derive(Debug, Hash, PartialEq, Eq)]
pub struct SourceId(pub String);

impl View for SourceId {
    type V = Seq<char>;

    open spec fn view(&self) -> Seq<char> {
        self.0@
    }
}

impl Clone for SourceId {
    fn clone(&self) -> (r: Self)
        ensures
            r@ == self@,
    {
        SourceId(self.0.clone())
    }
}

impl SourceId {
    /// The text of the identifier.
    pub fn to_string(&self) -> (r: String)
        ensures
            r@ == self@,
    {
        self.0.clone()
    }
}

/// How a source finds one of its files again.
#[derive(Debug)]
pub enum BackendHandle {
    /// The absolute path of a file in a mounted file system.
    Path(NativePath),
    /// The object id of a file on a camera that speaks PTP.
    PtpObject(u32),
}

/// What a [`BackendHandle`] refers to.
pub enum HandleView {
    Path(NativeView),
    PtpObject(u32),
}

impl View for BackendHandle {
    type V = HandleView;

    open spec fn view(&self) -> HandleView {
        match self {
            BackendHandle::Path(p) => HandleView::Path(p@),
            BackendHandle::PtpObject(n) => HandleView::PtpObject(*n),
        }
    }
}

impl Clone for BackendHandle {
    fn clone(&self) -> (r: Self)
        ensures
            r@ == self@,
    {
        match self {
            BackendHandle::Path(p) => BackendHandle::Path(p.clone()),
            BackendHandle::PtpObject(n) => BackendHandle::PtpObject(*n),
        }
    }
}

/// A file that a source lists.
#[derive(Debug)]
pub struct SourceFile {
    /// Path below the source's root, with `/` between components.
    pub rel_path: String,
    /// Size in bytes.
    pub size: u64,
    /// When the file was last modified, where that is known.
    pub mtime: Option<DateTime>,
    /// Lowercase extension without its dot; empty if there is none.
    pub extension: String,
    /// How the source finds the file again.
    pub backend_handle: BackendHandle,
}

/// The contents of a [`SourceFile`].
pub struct SourceFileView {
    pub rel_path: Seq<char>,
    pub size: u64,
    pub mtime: Option<DateTime>,
    pub extension: Seq<char>,
    pub handle: HandleView,
}

impl View for SourceFile {
    type V = SourceFileView;

    open spec fn view(&self) -> SourceFileView {
        SourceFileView {
            rel_path: self.rel_path@,
            size: self.size,
            mtime: self.mtime,
            extension: self.extension@,
            handle: self.backend_handle@,
        }
    }
}

impl Clone for SourceFile {
    fn clone(&self) -> (r: Self)
        ensures
            r@ == self@,
    {
        SourceFile {
            rel_path: self.rel_path.clone(),
            size: self.size,
            mtime: self.mtime,
            extension: self.extension.clone(),
            backend_handle: self.backend_handle.clone(),
        }
    }
}

/// The contents of a list of files.
pub open spec fn files_view(v: Seq<SourceFile>) -> Seq<SourceFileView> {
    v.map_values(|f: SourceFile| f@)
}

// ---------------------------------------------------------------------------
// Sources in a file system
// ---------------------------------------------------------------------------

/// One result of walking a directory tree.
#[derive(Debug)]
pub enum WalkEntry {
    /// The walk could not read an entry.
    Unreadable,
    /// A directory, a link or another thing that is no regular file.
    NotFile,
    /// A regular file whose attributes could not be read.
    NoAttributes,
    /// A regular file. `plain_extension` tells whether its extension, where it has one, is
    /// text. `modified` counts seconds and nanoseconds since 1970; it is absent where it is
    /// unknown or earlier.
    File {
        path: NativePath,
        plain_extension: bool,
        size: u64,
        modified: Option<(u64, u32)>,
    },
}

/// The path of a file below a root; the whole path where it is not below it.
pub open spec fn rel_path(root: Seq<char>, abs: Seq<char>) -> Seq<char> {
    path::with_slashes(
        match path::strip_prefix(abs, root) {
            Some(rel) => rel,
            None => abs,
        },
    )
}

/// The lowercase extension of a path; empty if there is none, or none that is text.
pub open spec fn lower_extension(abs: Seq<char>, plain: bool) -> Seq<char> {
    match path::extension(abs) {
        Some(ext) if plain => text::ascii_lower(ext),
        _ => Seq::empty(),
    }
}

/// Whether `dt` is the date of a file that was modified at `modified`.
pub open spec fn is_mtime(modified: Option<(u64, u32)>, dt: Option<DateTime>) -> bool {
    match modified {
        None => dt is None,
        Some((secs, nanos)) => {
            &&& dt is Some <==> datetime::is_timestamp((secs as i64) as int, nanos as int)
            &&& dt matches Some(d) ==> d.is_civil() && d.unix_seconds() == (secs as i64) && d.nano
                == nanos
        },
    }
}

/// Whether `f` is how a source with this root lists a walked file.
pub open spec fn lists(root: Seq<char>, e: WalkEntry, f: SourceFileView) -> bool {
    match e {
        WalkEntry::File { path: abs, plain_extension, size, modified } => {
            &&& f.rel_path == rel_path(root, abs@.text)
            &&& f.size == size
            &&& f.extension == lower_extension(abs@.text, plain_extension)
            &&& f.handle == HandleView::Path(abs@)
            &&& is_mtime(modified, f.mtime)
        },
        _ => false,
    }
}

/// The regular files among walked entries, in their order.
pub open spec fn regular_files(entries: Seq<WalkEntry>) -> Seq<WalkEntry>
    decreases entries.len(),
{
    if entries.len() == 0 {
        Seq::empty()
    } else if entries.last() is File {
        regular_files(entries.drop_last()).push(entries.last())
    } else {
        regular_files(entries.drop_last())
    }
}

/// The paths whose flag is set.
pub open spec fn chosen(paths: Seq<Seq<char>>, flags: Seq<bool>) -> Seq<Seq<char>>
    decreases paths.len(),
{
    if paths.len() == 0 || flags.len() < paths.len() {
        Seq::empty()
    } else if flags[paths.len() - 1] {
        chosen(paths.drop_last(), flags).push(paths.last())
    } else {
        chosen(paths.drop_last(), flags)
    }
}

/// The subdirectories of a root.
pub open spec fn under_root(root: Seq<char>, subdirs: Seq<Seq<char>>) -> Seq<Seq<char>> {
    subdirs.map_values(|s: Seq<char>| path::join(root, s))
}

/// Where a source is walked: the subdirectories that exist, or the root itself
/// if there are none.
pub open spec fn walk_roots(
    root: Seq<char>,
    subdirs: Seq<Seq<char>>,
    exists: Seq<bool>,
) -> Seq<Seq<char>> {
    if chosen(under_root(root, subdirs), exists).len() == 0 {
        seq![root]
    } else {
        chosen(under_root(root, subdirs), exists)
    }
}

/// A source in a file system: a mounted card, a camera that mounts as a drive,
/// or any directory.
#[derive(Debug)]
pub struct FilesystemSource {
    id: SourceId,
    display_name: String,
    root: NativePath,
    /// Where to look below `root`; everywhere if empty.
    scan_subdirs: Vec<String>,
}

/// The contents of a [`FilesystemSource`].
pub struct FilesystemSourceView {
    pub id: Seq<char>,
    pub display_name: Seq<char>,
    pub root: NativeView,
    pub scan_subdirs: Seq<Seq<char>>,
}

impl View for FilesystemSource {
    type V = FilesystemSourceView;

    closed spec fn view(&self) -> FilesystemSourceView {
        FilesystemSourceView {
            id: self.id@,
            display_name: self.display_name@,
            root: self.root@,
            scan_subdirs: text::texts(self.scan_subdirs@),
        }
    }
}

impl FilesystemSource {
    /// A source that is walked from its root.
    pub fn new(id: &str, display_name: &str, root: NativePath) -> (r: Self)
        ensures
            r@ == (FilesystemSourceView {
                id: id@,
                display_name: display_name@,
                root: root@,
                scan_subdirs: Seq::empty(),
            }),
    {
        let r = FilesystemSource {
            id: SourceId(text::copy_str(id)),
            display_name: text::copy_str(display_name),
            root,
            scan_subdirs: Vec::new(),
        };
        proof {
            assert(text::texts(r.scan_subdirs@) =~= Seq::<Seq<char>>::empty());
        }
        r
    }

    /// The same source, walked only below the given subdirectories of its
    /// root. No subdirectory means everywhere.
    pub fn with_subdirs(self, subdirs: Vec<String>) -> (r: Self)
        ensures
            r@ == (FilesystemSourceView { scan_subdirs: text::texts(subdirs@), ..self@ }),
    {
        FilesystemSource {
            id: self.id,
            display_name: self.display_name,
            root: self.root,
            scan_subdirs: subdirs,
        }
    }

    /// The source's identifier.
    pub fn id(&self) -> (r: &SourceId)
        ensures
            r@ == self@.id,
    {
        &self.id
    }

    /// The name to show for the source.
    pub fn display_name(&self) -> (r: &str)
        ensures
            r@ == self@.display_name,
    {
        self.display_name.as_str()
    }

    /// The root of the source.
    pub fn root_path(&self) -> (r: &NativePath)
        ensures
            r@ == self@.root,
    {
        &self.root
    }

    /// The subdirectories whose existence decides where the source is walked.
    pub fn candidate_roots(&self) -> (r: Vec<String>)
        ensures
            text::texts(r@) == under_root(self@.root.text, self@.scan_subdirs),
    {
        let mut out: Vec<String> = Vec::new();
        let mut i: usize = 0;
        let ghost all = under_root(self@.root.text, self@.scan_subdirs);
        while i < self.scan_subdirs.len()
            invariant
                i <= self.scan_subdirs@.len(),
                all == under_root(self@.root.text, self@.scan_subdirs),
                text::texts(out@) == all.take(i as int),
            decreases self.scan_subdirs@.len() - i,
        {
            let p = path::join_path(self.root.text.as_str(), self.scan_subdirs[i].as_str());
            proof {
                assert(text::texts(out@.push(p)) =~= text::texts(out@).push(p@));
                assert(all.take(i + 1) =~= all.take(i as int).push(all[i as int]));
            }
            out.push(p);
            i += 1;
        }
        proof {
            assert(all.take(all.len() as int) =~= all);
        }
        out
    }

    /// Where the source is walked, given which of its candidate roots exist.
    pub fn scan_roots(&self, exists: &Vec<bool>) -> (r: Vec<String>)
        requires
            exists@.len() == self@.scan_subdirs.len(),
        ensures
            text::texts(r@) == walk_roots(self@.root.text, self@.scan_subdirs, exists@),
    {
        let candidates = self.candidate_roots();
        let mut out: Vec<String> = Vec::new();
        let mut i: usize = 0;
        let ghost all = under_root(self@.root.text, self@.scan_subdirs);
        proof {
            assert(text::texts(candidates@).len() == candidates@.len());
            assert(text::texts(out@) =~= chosen(all.take(0), exists@));
        }
        while i < candidates.len()
            invariant
                i <= candidates@.len(),
                candidates@.len() == exists@.len(),
                text::texts(candidates@) == all,
                text::texts(out@) == chosen(all.take(i as int), exists@),
            decreases candidates@.len() - i,
        {
            proof {
                assert(all.take(i + 1).drop_last() =~= all.take(i as int));
                assert(all.take(i + 1).last() == candidates@[i as int]@);
            }
            if exists[i] {
                let p = candidates[i].clone();
                proof {
                    assert(text::texts(out@.push(p)) =~= text::texts(out@).push(p@));
                }
                out.push(p);
            }
            i += 1;
        }
        proof {
            assert(all.take(all.len() as int) =~= all);
            assert(text::texts(out@).len() == out@.len());
        }
        if out.len() == 0 {
            let root = self.root.text.clone();
            proof {
                assert(text::texts(out@.push(root)) =~= seq![root@]);
            }
            out.push(root);
        }
        out
    }

    /// The files of the source, given what walking its roots found. Entries
    /// that cannot be read are left out.
    pub fn list_files(&self, entries: Vec<WalkEntry>) -> (r: Vec<SourceFile>)
        ensures
            r@.len() == regular_files(entries@).len(),
            forall|i: int|
                0 <= i < r@.len() ==> lists(self@.root.text, regular_files(entries@)[i], #[trigger] r@[i]@),
    {
        let mut out: Vec<SourceFile> = Vec::new();
        let mut i: usize = 0;
        while i < entries.len()
            invariant
                i <= entries@.len(),
                out@.len() == regular_files(entries@.take(i as int)).len(),
                forall|k: int|
                    0 <= k < out@.len() ==> lists(
                        self@.root.text,
                        regular_files(entries@.take(i as int))[k],
                        #[trigger] out@[k]@,
                    ),
            decreases entries@.len() - i,
        {
            proof {
                assert(entries@.take(i + 1).drop_last() =~= entries@.take(i as int));
                assert(entries@.take(i + 1).last() == entries@[i as int]);
            }
            match &entries[i] {
                WalkEntry::File { path: abs, plain_extension, size, modified } => {
                    let f = self.source_file(abs, *plain_extension, *size, *modified);
                    out.push(f);
                },
                _ => {},
            }
            i += 1;
        }
        proof {
            assert(entries@.take(entries@.len() as int) =~= entries@);
        }
        out
    }

    fn source_file(
        &self,
        abs: &NativePath,
        plain_extension: bool,
        size: u64,
        modified: Option<(u64, u32)>,
    ) -> (r: SourceFile)
        ensures
            r@.rel_path == rel_path(self@.root.text, abs@.text),
            r@.size == size,
            r@.extension == lower_extension(abs@.text, plain_extension),
            r@.handle == HandleView::Path(abs@),
            is_mtime(modified, r@.mtime),
    {
        let whole = abs.text.as_str();
        let rel = match path::relative_to(whole, self.root.text.as_str()) {
            Some(rel) => path::slashed(rel.as_str()),
            None => path::slashed(whole),
        };
        let extension = match path::extension_of(whole) {
            Some(ext) => if plain_extension {
                text::to_ascii_lower(ext.as_str())
            } else {
                String::new()
            },
            None => String::new(),
        };
        let mtime = match modified {
            Some((secs, nanos)) => datetime::mtime_date(secs, nanos),
            None => None,
        };
        SourceFile {
            rel_path: rel,
            size,
            mtime,
            extension,
            backend_handle: BackendHandle::Path(abs.clone()),
        }
    }

    /// Where a file of the source can be read.
    pub fn full_path(&self, file: &SourceFile) -> (r: Result<NativePath>)
        ensures
            match file@.handle {
                HandleView::Path(p) => r is Ok && r->Ok_0@ == p,
                HandleView::PtpObject(_) => r is Err && r->Err_0@ == ErrorView::Source(
                    "FilesystemSource cannot resolve PTP handles"@,
                ),
            },
    {
        match &file.backend_handle {
            BackendHandle::Path(p) => Ok(p.clone()),
            BackendHandle::PtpObject(_) => Err(
                Error::Source(text::copy_str("FilesystemSource cannot resolve PTP handles")),
            ),
        }
    }
}

/// The directory whose presence marks a camera card.
pub fn camera_card_marker(root: &str) -> (r: String)
    ensures
        r@ == path::join(root@, "DCIM"@),
{
    path::join_path(root, "DCIM")
}

/// Whether a directory is likely a camera card, given which paths are
/// directories: a `DCIM` directory at the root is what all cameras share.
pub fn looks_like_camera_card(root: &str, directories: &Vec<String>) -> (r: bool)
    ensures
        r == text::texts(directories@).contains(path::join(root@, "DCIM"@)),
{
    let marker = camera_card_marker(root);
    text::any_text(directories, marker.as_str())
}

// ---------------------------------------------------------------------------
// Laws
// ---------------------------------------------------------------------------

/// A file that is found below the root of a source is listed by its path from there, with its
/// own size, by its own extension in small letters, where that is text, and is found again by
/// its own bytes.
pub proof fn law_files_are_listed_as_they_are(
    root: Seq<char>,
    found: NativePath,
    plain: bool,
    size: u64,
    modified: Option<(u64, u32)>,
    f: SourceFile,
    rel: Seq<char>,
    front: Seq<char>,
    ext: Seq<char>,
)
    requires
        lists(
            root,
            (WalkEntry::File { path: found, plain_extension: plain, size, modified }),
            f@,
        ),
        root.len() > 0,
        found.text@ == root + seq!['/'] + rel,
        rel.len() > 0,
        rel[0] != '/',
        rel.last() != '/',
        !(rel[0] == '.' && (rel.len() == 1 || rel[1] == '/')),
        !(rel.last() == '.' && rel.len() > 1 && rel[rel.len() - 2] == '/'),
    ensures
        !rel.contains('\\') ==> f.rel_path@ == rel,
        f.rel_path@.len() == rel.len(),
        f.size == size,
        f.backend_handle matches BackendHandle::Path(p) && p.bytes@ == found.bytes@ && p.text@
            == found.text@,
        modified is None ==> f.mtime is None,
        !rel.contains('/') && front.len() > 0 && !ext.contains('.') && rel == front.push('.') + ext
            && plain && root.last() != '/' && rel != seq!['.', '.'] ==> f.extension@
            == text::ascii_lower(ext),
        !plain ==> f.extension@.len() == 0,
{
    path::law_prefix_is_stripped(root, rel);
    if !rel.contains('\\') {
        assert forall|i: int| 0 <= i < rel.len() implies path::with_slashes(rel)[i] == rel[i] by {
            assert(rel.contains(rel[i]));
        }
        assert(path::with_slashes(rel) =~= rel);
    }
    if !rel.contains('/') && front.len() > 0 && !ext.contains('.') && rel == front.push('.') + ext
        && plain && root.last() != '/' && rel != seq!['.', '.'] {
        assert(found.text@ =~= path::join(root, rel));
        assert(rel != seq!['.']) by {
            assert(rel.len() >= 2);
            assert(seq!['.'].len() == 1);
        }
        path::law_extension_follows_the_last_dot(root, rel, front, ext);
    }
}

/// A file without a known time of modification has no date from it; one with such a time has
/// the date of that second, counted in the calendar from 1970.
pub proof fn law_times_of_modification_are_dates(secs: u64, nanos: u32, dt: Option<DateTime>)
    requires
        is_mtime(Some((secs, nanos)), dt),
        secs < 8_000_000_000_000,
        nanos < 1_000_000_000,
    ensures
        dt matches Some(d) && d.is_civil() && d.nano == nanos && datetime::day_number(
            d.year as int,
            d.month as int,
            d.day as int,
        ) * 86400 + d.hour * 3600 + d.minute * 60 + d.second == secs,
{
    assert(secs as i64 == secs);
    reveal_with_fuel(datetime::days_before_month, 14);
}

/// Regular files are kept, in order, and nothing else.
pub proof fn law_regular_files_are_kept(entries: Seq<WalkEntry>, e: WalkEntry)
    ensures
        regular_files(Seq::empty()).len() == 0,
        regular_files(entries.push(e)) == if e is File {
            regular_files(entries).push(e)
        } else {
            regular_files(entries)
        },
{
    assert(entries.push(e).drop_last() =~= entries);
}

/// Whether a path is one of the subdirectories that exist.
pub open spec fn is_below_subdir(
    root: Seq<char>,
    subdirs: Seq<Seq<char>>,
    flags: Seq<bool>,
    p: Seq<char>,
) -> bool {
    exists|k: int|
        0 <= k < subdirs.len() && flags[k] && p == path::join(root, #[trigger] subdirs[k])
}

/// A source is walked from those of its subdirectories that exist, in order, and from its root
/// where none of them does.
pub proof fn law_existing_subdirectories_are_walked(
    root: Seq<char>,
    subdirs: Seq<Seq<char>>,
    flags: Seq<bool>,
    i: int,
)
    requires
        flags.len() == subdirs.len(),
        0 <= i < subdirs.len(),
    ensures
        flags[i] ==> walk_roots(root, subdirs, flags).contains(path::join(root, subdirs[i])),
        (forall|k: int| 0 <= k < flags.len() ==> !#[trigger] flags[k]) ==> walk_roots(
            root,
            subdirs,
            flags,
        ) == seq![root],
        walk_roots(root, Seq::empty(), Seq::empty()) == seq![root],
        forall|j: int|
            0 <= j < walk_roots(root, subdirs, flags).len() ==> #[trigger] walk_roots(
                root,
                subdirs,
                flags,
            )[j] == root || is_below_subdir(
                root,
                subdirs,
                flags,
                walk_roots(root, subdirs, flags)[j],
            ),
{
    let all = under_root(root, subdirs);
    lemma_chosen(all, flags);
    let c = chosen(all, flags);
    if flags[i] {
        assert(all[i] == path::join(root, subdirs[i]));
        let k = choose|k: int| 0 <= k < c.len() && c[k] == all[i];
        assert(walk_roots(root, subdirs, flags)[k] == all[i]);
    }
    assert forall|j: int| 0 <= j < c.len() implies is_below_subdir(
        root,
        subdirs,
        flags,
        #[trigger] c[j],
    ) by {
        assert(is_picked(all, flags, c[j]));
        let k = choose|k: int| 0 <= k < all.len() && flags[k] && #[trigger] all[k] == c[j];
        assert(all[k] == path::join(root, subdirs[k]));
    }
    if forall|k: int| 0 <= k < flags.len() ==> !#[trigger] flags[k] {
        if c.len() > 0 {
            assert(is_picked(all, flags, c[0]));
            let k = choose|k: int| 0 <= k < all.len() && flags[k] && #[trigger] all[k] == c[0];
            assert(!flags[k]);
        }
    }
}

/// Whether one of the paths whose flag is set is this one.
spec fn is_picked(paths: Seq<Seq<char>>, flags: Seq<bool>, p: Seq<char>) -> bool {
    exists|k: int| 0 <= k < paths.len() && flags[k] && #[trigger] paths[k] == p
}

proof fn lemma_chosen(paths: Seq<Seq<char>>, flags: Seq<bool>)
    requires
        flags.len() >= paths.len(),
    ensures
        forall|i: int|
            0 <= i < paths.len() && flags[i] ==> chosen(paths, flags).contains(#[trigger] paths[i]),
        forall|j: int|
            0 <= j < chosen(paths, flags).len() ==> is_picked(
                paths,
                flags,
                #[trigger] chosen(paths, flags)[j],
            ),
    decreases paths.len(),
{
    if paths.len() > 0 {
        let t = paths.drop_last();
        lemma_chosen(t, flags);
        let before = chosen(t, flags);
        let now = chosen(paths, flags);
        let n = paths.len() - 1;
        assert forall|i: int| 0 <= i < paths.len() && flags[i] implies now.contains(
            #[trigger] paths[i],
        ) by {
            if i == n {
                assert(now[now.len() - 1] == paths[i]);
            } else {
                assert(t[i] == paths[i]);
                let k = choose|k: int| 0 <= k < before.len() && before[k] == t[i];
                assert(now[k] == paths[i]);
            }
        }
        assert forall|j: int| 0 <= j < now.len() implies is_picked(
            paths,
            flags,
            #[trigger] now[j],
        ) by {
            if j < before.len() {
                assert(now[j] == before[j]);
                let k = choose|k: int|
                    0 <= k < t.len() && flags[k] && #[trigger] t[k] == before[j];
                assert(paths[k] == now[j]);
            } else {
                assert(paths[n] == now[j]);
            }
        }
    }
}

/// A file that does not lie below the root is listed by its whole path.
pub proof fn law_files_outside_keep_their_path(root: Seq<char>, abs: Seq<char>)
    ensures
        path::strip_prefix(abs, root) is None ==> rel_path(root, abs) == path::with_slashes(abs),
        path::strip_prefix(abs, root) matches Some(rel) ==> rel_path(root, abs)
            == path::with_slashes(rel),
{
}

} // verus!
