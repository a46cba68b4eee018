//! Planning: what is to be done with each file of a source.

use vstd::prelude::*;
use vstd::hash_map::StringHashMap;
use crate::classify::{self, MediaKind};
use crate::config::{EngineConfig, EngineConfigView, RawMode};
use crate::datetime::DateTime;
use crate::dedupe::{self, DedupeCache};
use crate::error::{Error, ErrorView, Result};
use crate::events::{self, DateSourceWire, MediaKindWire, PlannedAction, PlannedFile, PlannedFileView};
use crate::index::{self, DestIndex};
use crate::metadata::{self, DateSource, ResolvedMetadata, ResolvedView};
use crate::path::{self, NativeView};
use crate::profiles::{CameraProfile, ProfileView};
use crate::source::{self, SourceFile, SourceFileView, SourceId};
use crate::template::{self, PathTemplate};
use crate::text;

verus! {

/// A listed file with its date, where it has one.
#[derive(Debug)]
pub struct ScannedFile {
    pub source: SourceId,
    pub file: SourceFile,
    pub kind: MediaKind,
    pub metadata: Option<ResolvedMetadata>,
}

/// The contents of a [`ScannedFile`].
pub struct ScannedView {
    pub source: Seq<char>,
    pub file: SourceFileView,
    pub kind: MediaKind,
    pub metadata: Option<ResolvedView>,
}

impl View for ScannedFile {
    type V = ScannedView;

    open spec fn view(&self) -> ScannedView {
        ScannedView {
            source: self.source@,
            file: self.file@,
            kind: self.kind,
            metadata: metadata::opt_resolved(self.metadata),
        }
    }
}

/// A file to copy, with the sidecars that share its date and place.
#[derive(Debug)]
pub struct CopyUnit {
    pub parent: SourceFile,
    pub parent_kind: MediaKind,
    /// Empty where the parent is itself a sidecar without a media file.
    pub sidecars: Vec<SourceFile>,
}

/// The contents of a [`CopyUnit`].
pub struct UnitView {
    pub parent: SourceFileView,
    pub parent_kind: MediaKind,
    pub sidecars: Seq<SourceFileView>,
}

impl View for CopyUnit {
    type V = UnitView;

    open spec fn view(&self) -> UnitView {
        UnitView {
            parent: self.parent@,
            parent_kind: self.parent_kind,
            sidecars: source::files_view(self.sidecars@),
        }
    }
}

fn copy_files(v: &Vec<SourceFile>) -> (r: Vec<SourceFile>)
    ensures
        source::files_view(r@) == source::files_view(v@),
{
    let mut out: Vec<SourceFile> = Vec::new();
    let mut i: usize = 0;
    while i < v.len()
        invariant
            i <= v@.len(),
            source::files_view(out@) == source::files_view(v@.take(i as int)),
        decreases v@.len() - i,
    {
        let f = v[i].clone();
        proof {
            assert(source::files_view(out@.push(f)) =~= source::files_view(out@).push(f@));
            assert(source::files_view(v@.take(i + 1)) =~= source::files_view(
                v@.take(i as int),
            ).push(v@[i as int]@));
        }
        out.push(f);
        i += 1;
    }
    proof {
        assert(v@.take(v@.len() as int) =~= v@);
    }
    out
}

impl Clone for CopyUnit {
    fn clone(&self) -> (r: Self)
        ensures
            r@ == self@,
    {
        CopyUnit {
            parent: self.parent.clone(),
            parent_kind: self.parent_kind,
            sidecars: copy_files(&self.sidecars),
        }
    }
}

/// The contents of a list of units.
pub open spec fn units_view(v: Seq<CopyUnit>) -> Seq<UnitView> {
    v.map_values(|u: CopyUnit| u@)
}

/// What is to be done with every file, and the units to copy.
#[derive(Debug)]
pub struct SyncPlan {
    /// One row for each file: the files to copy, which have no place yet, and
    /// those that are already decided.
    pub items: Vec<PlannedFile>,
    /// The files to copy, with their sidecars. Empty for a plan that only
    /// shows what would happen.
    pub units: Vec<CopyUnit>,
}

/// The contents of a [`SyncPlan`].
pub struct PlanView {
    pub items: Seq<PlannedFileView>,
    pub units: Seq<UnitView>,
}

impl View for SyncPlan {
    type V = PlanView;

    open spec fn view(&self) -> PlanView {
        PlanView { items: events::planned_view(self.items@), units: units_view(self.units@) }
    }
}

impl Default for SyncPlan {
    fn default() -> (r: Self)
        ensures
            r@ == (PlanView { items: Seq::empty(), units: Seq::empty() }),
    {
        let r = SyncPlan { items: Vec::new(), units: Vec::new() };
        proof {
            assert(r@.items =~= Seq::<PlannedFileView>::empty());
            assert(r@.units =~= Seq::<UnitView>::empty());
        }
        r
    }
}

fn copy_planned(v: &Vec<PlannedFile>) -> (r: Vec<PlannedFile>)
    ensures
        events::planned_view(r@) == events::planned_view(v@),
{
    let mut out: Vec<PlannedFile> = Vec::new();
    let mut i: usize = 0;
    while i < v.len()
        invariant
            i <= v@.len(),
            events::planned_view(out@) == events::planned_view(v@.take(i as int)),
        decreases v@.len() - i,
    {
        let p = v[i].clone();
        proof {
            assert(events::planned_view(out@.push(p)) =~= events::planned_view(out@).push(p@));
            assert(events::planned_view(v@.take(i + 1)) =~= events::planned_view(
                v@.take(i as int),
            ).push(v@[i as int]@));
        }
        out.push(p);
        i += 1;
    }
    proof {
        assert(v@.take(v@.len() as int) =~= v@);
    }
    out
}

fn copy_units(v: &Vec<CopyUnit>) -> (r: Vec<CopyUnit>)
    ensures
        units_view(r@) == units_view(v@),
{
    let mut out: Vec<CopyUnit> = Vec::new();
    let mut i: usize = 0;
    while i < v.len()
        invariant
            i <= v@.len(),
            units_view(out@) == units_view(v@.take(i as int)),
        decreases v@.len() - i,
    {
        let u = v[i].clone();
        proof {
            assert(units_view(out@.push(u)) =~= units_view(out@).push(u@));
            assert(units_view(v@.take(i + 1)) =~= units_view(v@.take(i as int)).push(
                v@[i as int]@,
            ));
        }
        out.push(u);
        i += 1;
    }
    proof {
        assert(v@.take(v@.len() as int) =~= v@);
    }
    out
}

impl Clone for SyncPlan {
    fn clone(&self) -> (r: Self)
        ensures
            r@ == self@,
    {
        SyncPlan { items: copy_planned(&self.items), units: copy_units(&self.units) }
    }
}

/// How many files are to be copied.
pub open spec fn count_copies(items: Seq<PlannedFileView>) -> nat
    decreases items.len(),
{
    if items.len() == 0 {
        0
    } else {
        count_copies(items.drop_last()) + if items.last().action == PlannedAction::Copy {
            1nat
        } else {
            0nat
        }
    }
}

/// How many files cannot be copied.
pub open spec fn count_errors(items: Seq<PlannedFileView>) -> nat
    decreases items.len(),
{
    if items.len() == 0 {
        0
    } else {
        count_errors(items.drop_last()) + if items.last().action == PlannedAction::Error {
            1nat
        } else {
            0nat
        }
    }
}

/// Whether an action leaves a file out.
pub open spec fn is_skip(a: PlannedAction) -> bool {
    a == PlannedAction::SkipExists || a == PlannedAction::SkipFiltered || a
        == PlannedAction::SkipNoDate
}

/// How many files are left out.
pub open spec fn count_skips(items: Seq<PlannedFileView>) -> nat
    decreases items.len(),
{
    if items.len() == 0 {
        0
    } else {
        count_skips(items.drop_last()) + if is_skip(items.last().action) {
            1nat
        } else {
            0nat
        }
    }
}

impl SyncPlan {
    /// How many files are to be copied.
    pub fn copies(&self) -> (r: u64)
        ensures
            r == count_copies(self@.items),
    {
        let mut n: u64 = 0;
        let mut i: usize = 0;
        while i < self.items.len()
            invariant
                i <= self.items@.len(),
                n == count_copies(self@.items.take(i as int)),
                n <= i,
            decreases self.items@.len() - i,
        {
            proof {
                assert(self@.items.take(i + 1).drop_last() =~= self@.items.take(i as int));
            }
            if self.items[i].action == PlannedAction::Copy {
                n += 1;
            }
            i += 1;
        }
        proof {
            assert(self@.items.take(self@.items.len() as int) =~= self@.items);
        }
        n
    }

    /// How many files are left out.
    pub fn skips(&self) -> (r: u64)
        ensures
            r == count_skips(self@.items),
    {
        let mut n: u64 = 0;
        let mut i: usize = 0;
        while i < self.items.len()
            invariant
                i <= self.items@.len(),
                n == count_skips(self@.items.take(i as int)),
                n <= i,
            decreases self.items@.len() - i,
        {
            proof {
                assert(self@.items.take(i + 1).drop_last() =~= self@.items.take(i as int));
            }
            let a = self.items[i].action;
            if a == PlannedAction::SkipExists || a == PlannedAction::SkipFiltered || a
                == PlannedAction::SkipNoDate {
                n += 1;
            }
            i += 1;
        }
        proof {
            assert(self@.items.take(self@.items.len() as int) =~= self@.items);
        }
        n
    }

    /// How many files cannot be copied.
    pub fn errors(&self) -> (r: u64)
        ensures
            r == count_errors(self@.items),
    {
        let mut n: u64 = 0;
        let mut i: usize = 0;
        while i < self.items.len()
            invariant
                i <= self.items@.len(),
                n == count_errors(self@.items.take(i as int)),
                n <= i,
            decreases self.items@.len() - i,
        {
            proof {
                assert(self@.items.take(i + 1).drop_last() =~= self@.items.take(i as int));
            }
            if self.items[i].action == PlannedAction::Error {
                n += 1;
            }
            i += 1;
        }
        proof {
            assert(self@.items.take(self@.items.len() as int) =~= self@.items);
        }
        n
    }
}

/// Every file of a plan is copied, left out or an error, and only one of these.
pub proof fn law_counts_cover_the_plan(items: Seq<PlannedFileView>)
    ensures
        count_copies(items) + count_skips(items) + count_errors(items) == items.len(),
    decreases items.len(),
{
    if items.len() > 0 {
        law_counts_cover_the_plan(items.drop_last());
    }
}

// ---------------------------------------------------------------------------
// Destinations
// ---------------------------------------------------------------------------

/// A path with folders pushed onto it, empty ones left out.
pub open spec fn with_folders(root: Seq<char>, folders: Seq<Seq<char>>) -> Seq<char>
    decreases folders.len(),
{
    if folders.len() == 0 {
        root
    } else if folders.last().len() == 0 {
        with_folders(root, folders.drop_last())
    } else {
        path::join(with_folders(root, folders.drop_last()), folders.last())
    }
}

/// The root for files of a kind. Sidecars go with the images.
pub open spec fn root_for(cfg: EngineConfigView, kind: MediaKind) -> Seq<char> {
    match kind {
        MediaKind::Video => cfg.videos_root,
        _ => cfg.images_root,
    }
}

/// The folder layout for files of a kind.
pub open spec fn template_for(cfg: EngineConfigView, kind: MediaKind) -> Seq<char> {
    match kind {
        MediaKind::Video => cfg.videos_template,
        _ => cfg.images_template,
    }
}

/// The folder for files of a kind and date.
pub open spec fn dest_dir(cfg: EngineConfigView, kind: MediaKind, dt: DateTime) -> Seq<char> {
    with_folders(
        root_for(cfg, kind),
        text::split(template::rendered(template_for(cfg, kind), dt), '/'),
    )
}

/// Where a file of a kind, date and name goes.
pub open spec fn dest_path(
    cfg: EngineConfigView,
    kind: MediaKind,
    dt: DateTime,
    name: Seq<char>,
) -> Seq<char> {
    path::join(dest_dir(cfg, kind, dt), name)
}

/// Why no destination can be computed for files of a kind.
pub open spec fn layout_fault(cfg: EngineConfigView, kind: MediaKind) -> Option<ErrorView> {
    match template::fault(template_for(cfg, kind)) {
        None => None,
        Some(message) => Some(
            ErrorView::Template { template: template_for(cfg, kind), message },
        ),
    }
}

/// Where a file goes, given its kind, its date or its parent's, and its name.
pub fn dest_path_for(
    cfg: &EngineConfig,
    kind: MediaKind,
    datetime: &DateTime,
    source_file_name: &str,
) -> (r: Result<String>)
    ensures
        match layout_fault(cfg@, kind) {
            None => r is Ok && r->Ok_0@ == dest_path(cfg@, kind, *datetime, source_file_name@),
            Some(e) => r is Err && r->Err_0@ == e,
        },
{
    let (root, template_str) = match kind {
        MediaKind::Video => (&cfg.videos_root, &cfg.videos_template),
        _ => (&cfg.images_root, &cfg.images_template),
    };
    let template = match PathTemplate::parse(template_str.as_str()) {
        Ok(t) => t,
        Err(e) => {
            return Err(e);
        },
    };
    let rendered = template.render(datetime);
    let parts = text::split_on(rendered.as_str(), '/');
    let mut out = root.clone();
    let mut i: usize = 0;
    let ghost all = text::split(rendered@, '/');
    while i < parts.len()
        invariant
            i <= parts@.len(),
            text::texts(parts@) == all,
            out@ == with_folders(root@, all.take(i as int)),
        decreases parts@.len() - i,
    {
        proof {
            assert(all.take(i + 1).drop_last() =~= all.take(i as int));
            assert(all.take(i + 1).last() == parts@[i as int]@);
        }
        if parts[i].as_str().unicode_len() > 0 {
            out = path::join_path(out.as_str(), parts[i].as_str());
        }
        i += 1;
    }
    proof {
        assert(text::texts(parts@).len() == parts@.len());
        assert(all.take(all.len() as int) =~= all);
    }
    Ok(path::join_path(out.as_str(), source_file_name))
}

/// The file name at the end of a source path.
pub fn file_name_of(rel_path: &str) -> (r: String)
    ensures
        r@ == text::after_last(rel_path@, '/'),
{
    text::text_after_last(rel_path, '/')
}

// ---------------------------------------------------------------------------
// The fast plan: no dates
// ---------------------------------------------------------------------------

/// The name of a file without its extension.
pub open spec fn stem(name: Seq<char>) -> Seq<char> {
    if text::last_index(name, '.') < 0 {
        name
    } else {
        name.take(text::last_index(name, '.'))
    }
}

/// A directory and a stem.
pub type StemKey = (Seq<char>, Seq<char>);

/// What a sidecar shares with its media file: the directory, and the name
/// without extension up to the case of ASCII letters.
pub open spec fn stem_key(rel_path: Seq<char>) -> StemKey {
    (
        text::before_last(rel_path, '/'),
        text::ascii_upper(stem(text::after_last(rel_path, '/'))),
    )
}

/// What is known when files are sorted: the configuration, the camera and the
/// library.
pub struct Sorting {
    pub cfg: EngineConfigView,
    pub profile: ProfileView,
    pub source: Seq<char>,
    pub library: Map<index::IndexKey, NativeView>,
}

impl Sorting {
    /// What a file is to the camera.
    pub open spec fn kind(self, f: SourceFileView) -> Option<MediaKind> {
        classify::kind_for(self.profile.kind_of(f.extension))
    }

    /// Whether the filters keep files of a kind.
    pub open spec fn keeps(self, kind: MediaKind) -> bool {
        classify::kept(
            kind,
            self.cfg.filters.raw_mode,
            self.cfg.filters.include_videos,
            self.cfg.filters.include_sidecars,
        )
    }

    /// What the library would have the file under.
    pub open spec fn key(self, f: SourceFileView) -> index::IndexKey {
        (text::unicode_lower(text::after_last(f.rel_path, '/')), f.size)
    }

    /// Whether a file is to be copied for its own sake.
    pub open spec fn is_media(self, f: SourceFileView) -> bool {
        &&& self.kind(f) is Some
        &&& self.keeps(self.kind(f)->0)
        &&& !(self.kind(f)->0 is Sidecar)
        &&& !self.library.contains_key(self.key(f))
    }

    /// Whether a file is to be copied along with another one. Sidecars are not
    /// looked up in the library.
    pub open spec fn is_sidecar(self, f: SourceFileView) -> bool {
        &&& self.kind(f) is Some
        &&& self.keeps(self.kind(f)->0)
        &&& self.kind(f)->0 is Sidecar
    }

    /// The row of a file that is not to be copied; `None` for one that is, and
    /// for one that the camera does not know.
    pub open spec fn row(self, f: SourceFileView) -> Option<PlannedFileView> {
        if self.kind(f) is None {
            None
        } else if !self.keeps(self.kind(f)->0) {
            Some(
                decided(
                    self.source,
                    f,
                    self.kind(f)->0,
                    PlannedAction::SkipFiltered,
                    None,
                    "filtered by user settings"@,
                ),
            )
        } else if self.kind(f)->0 is Sidecar || !self.library.contains_key(self.key(f)) {
            None
        } else {
            Some(
                decided(
                    self.source,
                    f,
                    self.kind(f)->0,
                    PlannedAction::SkipExists,
                    Some(self.library[self.key(f)].text),
                    "already in library (pre-skip index)"@,
                ),
            )
        }
    }

    /// The files to copy for their own sake, in order.
    pub open spec fn media(self, fs: Seq<SourceFileView>) -> Seq<(SourceFileView, MediaKind)>
        decreases fs.len(),
    {
        if fs.len() == 0 {
            Seq::empty()
        } else if self.is_media(fs.last()) {
            self.media(fs.drop_last()).push((fs.last(), self.kind(fs.last())->0))
        } else {
            self.media(fs.drop_last())
        }
    }

    /// The files to copy along with others, in order.
    pub open spec fn sidecars(self, fs: Seq<SourceFileView>) -> Seq<SourceFileView>
        decreases fs.len(),
    {
        if fs.len() == 0 {
            Seq::empty()
        } else if self.is_sidecar(fs.last()) {
            self.sidecars(fs.drop_last()).push(fs.last())
        } else {
            self.sidecars(fs.drop_last())
        }
    }

    /// The rows of the files that are not to be copied, in order.
    pub open spec fn rows(self, fs: Seq<SourceFileView>) -> Seq<PlannedFileView>
        decreases fs.len(),
    {
        if fs.len() == 0 {
            Seq::empty()
        } else if self.row(fs.last()) is Some {
            self.rows(fs.drop_last()).push(self.row(fs.last())->0)
        } else {
            self.rows(fs.drop_last())
        }
    }
}

/// A row for a file that is not to be copied.
pub open spec fn decided(
    source: Seq<char>,
    f: SourceFileView,
    kind: MediaKind,
    action: PlannedAction,
    dest_path: Option<Seq<char>>,
    reason: Seq<char>,
) -> PlannedFileView {
    PlannedFileView {
        source,
        source_rel_path: f.rel_path,
        source_size: f.size,
        kind: events::wire_kind(kind),
        action,
        dest_path,
        datetime: None,
        date_source: None,
        reason: Some(reason),
    }
}

/// The last media file with a key, or -1.
pub open spec fn owner(media: Seq<(SourceFileView, MediaKind)>, key: StemKey) -> int
    decreases media.len(),
{
    if media.len() == 0 {
        -1
    } else if stem_key(media.last().0.rel_path) == key {
        media.len() - 1
    } else {
        owner(media.drop_last(), key)
    }
}

/// The sidecars of the media file at a position, in order.
pub open spec fn owned(
    media: Seq<(SourceFileView, MediaKind)>,
    sidecars: Seq<SourceFileView>,
    i: int,
) -> Seq<SourceFileView>
    decreases sidecars.len(),
{
    if sidecars.len() == 0 {
        Seq::empty()
    } else if owner(media, stem_key(sidecars.last().rel_path)) == i {
        owned(media, sidecars.drop_last(), i).push(sidecars.last())
    } else {
        owned(media, sidecars.drop_last(), i)
    }
}

/// A unit for each sidecar without a media file, in order.
pub open spec fn orphans(
    media: Seq<(SourceFileView, MediaKind)>,
    sidecars: Seq<SourceFileView>,
) -> Seq<UnitView>
    decreases sidecars.len(),
{
    if sidecars.len() == 0 {
        Seq::empty()
    } else if owner(media, stem_key(sidecars.last().rel_path)) < 0 {
        orphans(media, sidecars.drop_last()).push(
            UnitView {
                parent: sidecars.last(),
                parent_kind: MediaKind::Sidecar,
                sidecars: Seq::empty(),
            },
        )
    } else {
        orphans(media, sidecars.drop_last())
    }
}

/// The units to copy: the media files with their sidecars, then the sidecars
/// without media files.
pub open spec fn units(
    media: Seq<(SourceFileView, MediaKind)>,
    sidecars: Seq<SourceFileView>,
) -> Seq<UnitView> {
    Seq::new(
        media.len(),
        |i: int|
            UnitView {
                parent: media[i].0,
                parent_kind: media[i].1,
                sidecars: owned(media, sidecars, i),
            },
    ) + orphans(media, sidecars)
}

/// What is to be copied, and the rows of what is not.
#[derive(Debug)]
pub struct CheapPlan {
    pub units: Vec<CopyUnit>,
    pub decided: Vec<PlannedFile>,
}

/// The contents of a [`CheapPlan`].
pub struct CheapPlanView {
    pub units: Seq<UnitView>,
    pub decided: Seq<PlannedFileView>,
}

impl View for CheapPlan {
    type V = CheapPlanView;

    open spec fn view(&self) -> CheapPlanView {
        CheapPlanView {
            units: units_view(self.units@),
            decided: events::planned_view(self.decided@),
        }
    }
}

fn decided_skip(
    source_id: &SourceId,
    f: &SourceFile,
    kind: MediaKind,
    action: PlannedAction,
    dest_path: Option<String>,
    reason: &str,
) -> (r: PlannedFile)
    ensures
        r@ == decided(source_id@, f@, kind, action, text::opt_text(dest_path), reason@),
{
    PlannedFile {
        source: source_id.clone(),
        source_rel_path: f.rel_path.clone(),
        source_size: f.size,
        kind: MediaKindWire::from(kind),
        action,
        dest_path,
        datetime: None,
        date_source: None,
        reason: Some(text::copy_str(reason)),
    }
}

fn stem_key_text(rel_path: &str) -> (r: String)
    ensures
        r@ == text::paired(stem_key(rel_path@).0, stem_key(rel_path@).1),
{
    let dir = text::text_before_last(rel_path, '/');
    let name = text::text_after_last(rel_path, '/');
    let stem = match text::rfind(name.as_str(), '.') {
        Some(_) => text::text_before_last(name.as_str(), '.'),
        None => name,
    };
    let upper = text::to_ascii_upper(stem.as_str());
    text::paired_text(dir.as_str(), upper.as_str())
}

/// The contents of files with their kinds.
pub open spec fn media_view(v: Seq<(SourceFile, MediaKind)>) -> Seq<(SourceFileView, MediaKind)> {
    v.map_values(|m: (SourceFile, MediaKind)| (m.0@, m.1))
}

spec fn is_stem_index(
    m: Map<Seq<char>, usize>,
    media: Seq<(SourceFileView, MediaKind)>,
) -> bool {
    forall|k: StemKey|
        #![trigger text::paired(k.0, k.1)]
        {
            &&& m.contains_key(text::paired(k.0, k.1)) <==> owner(media, k) >= 0
            &&& m.contains_key(text::paired(k.0, k.1)) ==> m[text::paired(k.0, k.1)] == owner(
                media,
                k,
            )
        }
}

proof fn lemma_owner_bounds(media: Seq<(SourceFileView, MediaKind)>, key: StemKey)
    ensures
        -1 <= owner(media, key) < media.len(),
        owner(media, key) >= 0 ==> stem_key(media[owner(media, key)].0.rel_path) == key,
        forall|j: int|
            owner(media, key) < j < media.len() ==> stem_key((#[trigger] media[j]).0.rel_path)
                != key,
    decreases media.len(),
{
    if media.len() > 0 && stem_key(media.last().0.rel_path) != key {
        let t = media.drop_last();
        lemma_owner_bounds(t, key);
        assert forall|j: int| owner(media, key) < j < media.len() implies stem_key(
            (#[trigger] media[j]).0.rel_path,
        ) != key by {
            if j < media.len() - 1 {
                assert(t[j] == media[j]);
            }
        }
    }
}

fn index_by_stem(media: &Vec<(SourceFile, MediaKind)>) -> (r: StringHashMap<usize>)
    ensures
        is_stem_index(r@, media_view(media@)),
{
    let mut out: StringHashMap<usize> = StringHashMap::new();
    let mut i: usize = 0;
    let ghost all = media_view(media@);
    while i < media.len()
        invariant
            i <= media@.len(),
            all == media_view(media@),
            is_stem_index(out@, all.take(i as int)),
        decreases media@.len() - i,
    {
        let key = stem_key_text(media[i].0.rel_path.as_str());
        let ghost before = out@;
        let ghost own = stem_key(media@[i as int].0@.rel_path);
        proof {
            assert(all.take(i + 1).drop_last() =~= all.take(i as int));
            assert(all.take(i + 1).last() == all[i as int]);
        }
        out.insert(key, i);
        proof {
            assert forall|k: StemKey|
                #![trigger text::paired(k.0, k.1)]
                {
                    &&& out@.contains_key(text::paired(k.0, k.1)) <==> owner(all.take(i + 1), k)
                        >= 0
                    &&& out@.contains_key(text::paired(k.0, k.1)) ==> out@[text::paired(k.0, k.1)]
                        == owner(all.take(i + 1), k)
                } by {
                if text::paired(k.0, k.1) == text::paired(own.0, own.1) {
                    text::lemma_paired_injective(k.0, k.1, own.0, own.1);
                } else {
                    assert(k != own);
                }
            }
        }
        i += 1;
    }
    proof {
        assert(all.take(all.len() as int) =~= all);
    }
    out
}

proof fn lemma_units_step(
    media: Seq<(SourceFileView, MediaKind)>,
    sidecars: Seq<SourceFileView>,
    n: int,
)
    requires
        0 <= n < sidecars.len(),
    ensures
        ({
            let before = units(media, sidecars.take(n));
            let after = units(media, sidecars.take(n + 1));
            let s = sidecars[n];
            let k = owner(media, stem_key(s.rel_path));
            if k < 0 {
                after == before.push(
                    UnitView {
                        parent: s,
                        parent_kind: MediaKind::Sidecar,
                        sidecars: Seq::empty(),
                    },
                )
            } else {
                k < media.len() <= before.len() && after == before.update(
                    k,
                    UnitView { sidecars: before[k].sidecars.push(s), ..before[k] },
                )
            }
        }),
{
    let s = sidecars[n];
    let k = owner(media, stem_key(s.rel_path));
    lemma_owner_bounds(media, stem_key(s.rel_path));
    assert(sidecars.take(n + 1).drop_last() =~= sidecars.take(n));
    assert(sidecars.take(n + 1).last() == s);
    let before = units(media, sidecars.take(n));
    let after = units(media, sidecars.take(n + 1));
    if k < 0 {
        assert(after =~= before.push(
            UnitView { parent: s, parent_kind: MediaKind::Sidecar, sidecars: Seq::empty() },
        ));
    } else {
        assert(after =~= before.update(
            k,
            UnitView { sidecars: before[k].sidecars.push(s), ..before[k] },
        ));
    }
}

fn pair_sidecars(media: Vec<(SourceFile, MediaKind)>, sidecars: Vec<SourceFile>) -> (r: Vec<
    CopyUnit,
>)
    ensures
        units_view(r@) == units(media_view(media@), source::files_view(sidecars@)),
{
    let by_stem = index_by_stem(&media);
    let ghost ms = media_view(media@);
    let ghost ss = source::files_view(sidecars@);
    let mut out: Vec<CopyUnit> = Vec::new();
    let mut i: usize = 0;
    while i < media.len()
        invariant
            i <= media@.len(),
            ms == media_view(media@),
            units_view(out@) =~= units(ms, Seq::empty()).take(i as int),
        decreases media@.len() - i,
    {
        let u = CopyUnit {
            parent: media[i].0.clone(),
            parent_kind: media[i].1,
            sidecars: Vec::new(),
        };
        proof {
            assert(u@.sidecars =~= Seq::<SourceFileView>::empty());
            assert(units_view(out@.push(u)) =~= units_view(out@).push(u@));
        }
        out.push(u);
        i += 1;
    }
    proof {
        assert(ss.take(0) =~= Seq::<SourceFileView>::empty());
        assert(units_view(out@) =~= units(ms, ss.take(0)));
    }
    let mut n: usize = 0;
    while n < sidecars.len()
        invariant
            n <= sidecars@.len(),
            ms == media_view(media@),
            ss == source::files_view(sidecars@),
            is_stem_index(by_stem@, ms),
            units_view(out@) == units(ms, ss.take(n as int)),
        decreases sidecars@.len() - n,
    {
        let f = sidecars[n].clone();
        let key = stem_key_text(f.rel_path.as_str());
        let ghost before = units_view(out@);
        proof {
            lemma_units_step(ms, ss, n as int);
            assert(ss[n as int] == f@);
        }
        match by_stem.get(key.as_str()) {
            Some(k) => {
                let k: usize = *k;
                proof {
                    assert(k == owner(ms, stem_key(f@.rel_path)));
                    assert(before[k as int] == out@[k as int]@);
                }
                let mut u = CopyUnit {
                    parent: f.clone(),
                    parent_kind: MediaKind::Sidecar,
                    sidecars: Vec::new(),
                };
                let ghost old_unit = out@[k as int]@;
                let ghost old_out = out@;
                std::mem::swap(&mut u, &mut out[k]);
                proof {
                    assert(source::files_view(u.sidecars@.push(f)) =~= source::files_view(
                        u.sidecars@,
                    ).push(f@));
                }
                u.sidecars.push(f);
                out.set(k, u);
                proof {
                    assert(units_view(out@) =~= before.update(
                        k as int,
                        UnitView { sidecars: old_unit.sidecars.push(f@), ..old_unit },
                    ));
                }
            },
            None => {
                let u = CopyUnit {
                    parent: f,
                    parent_kind: MediaKind::Sidecar,
                    sidecars: Vec::new(),
                };
                proof {
                    assert(u@.sidecars =~= Seq::<SourceFileView>::empty());
                    assert(units_view(out@.push(u)) =~= before.push(u@));
                }
                out.push(u);
            },
        }
        n += 1;
    }
    proof {
        assert(ss.take(ss.len() as int) =~= ss);
    }
    out
}

/// Sorts the files of a source without reading their dates: which the library
/// has already, which the filters leave out, and which are to be copied, each
/// sidecar with its media file. Files that the camera does not know are
/// ignored.
pub fn cheap_plan(
    cfg: &EngineConfig,
    profile: &CameraProfile,
    source_id: &SourceId,
    files: Vec<SourceFile>,
    dest_index: &DestIndex,
) -> (r: CheapPlan)
    ensures
        ({
            let sorting = Sorting {
                cfg: cfg@,
                profile: profile@,
                source: source_id@,
                library: dest_index@,
            };
            let fs = source::files_view(files@);
            &&& r@.units == units(sorting.media(fs), sorting.sidecars(fs))
            &&& r@.decided == sorting.rows(fs)
        }),
{
    let ghost sorting = Sorting {
        cfg: cfg@,
        profile: profile@,
        source: source_id@,
        library: dest_index@,
    };
    let ghost fs = source::files_view(files@);
    let mut media: Vec<(SourceFile, MediaKind)> = Vec::new();
    let mut sidecars: Vec<SourceFile> = Vec::new();
    let mut rows: Vec<PlannedFile> = Vec::new();
    let mut i: usize = 0;
    proof {
        assert(media_view(media@) =~= sorting.media(fs.take(0)));
        assert(source::files_view(sidecars@) =~= sorting.sidecars(fs.take(0)));
        assert(events::planned_view(rows@) =~= sorting.rows(fs.take(0)));
    }
    while i < files.len()
        invariant
            i <= files@.len(),
            fs == source::files_view(files@),
            sorting == (Sorting {
                cfg: cfg@,
                profile: profile@,
                source: source_id@,
                library: dest_index@,
            }),
            media_view(media@) == sorting.media(fs.take(i as int)),
            source::files_view(sidecars@) == sorting.sidecars(fs.take(i as int)),
            events::planned_view(rows@) == sorting.rows(fs.take(i as int)),
        decreases files@.len() - i,
    {
        let f = &files[i];
        proof {
            assert(fs.take(i + 1).drop_last() =~= fs.take(i as int));
            assert(fs.take(i + 1).last() == f@);
        }
        if let Some(kind) = classify::classify(profile, f.extension.as_str()) {
            if !classify::should_include(
                kind,
                cfg.filters.raw_mode,
                cfg.filters.include_videos,
                cfg.filters.include_sidecars,
            ) {
                let row = decided_skip(
                    source_id,
                    f,
                    kind,
                    PlannedAction::SkipFiltered,
                    None,
                    "filtered by user settings",
                );
                proof {
                    assert(events::planned_view(rows@.push(row)) =~= events::planned_view(
                        rows@,
                    ).push(row@));
                }
                rows.push(row);
            } else if kind.is_sidecar() {
                let own = f.clone();
                proof {
                    assert(source::files_view(sidecars@.push(own)) =~= source::files_view(
                        sidecars@,
                    ).push(own@));
                }
                sidecars.push(own);
            } else {
                let basename = file_name_of(f.rel_path.as_str());
                match dest_index.lookup(basename.as_str(), f.size) {
                    Some(existing) => {
                        let row = decided_skip(
                            source_id,
                            f,
                            kind,
                            PlannedAction::SkipExists,
                            Some(existing.text.clone()),
                            "already in library (pre-skip index)",
                        );
                        proof {
                            assert(events::planned_view(rows@.push(row)) =~= events::planned_view(
                                rows@,
                            ).push(row@));
                        }
                        rows.push(row);
                    },
                    None => {
                        let own = (f.clone(), kind);
                        proof {
                            assert(media_view(media@.push(own)) =~= media_view(media@).push(
                                (own.0@, own.1),
                            ));
                        }
                        media.push(own);
                    },
                }
            }
        }
        i += 1;
    }
    proof {
        assert(fs.take(fs.len() as int) =~= fs);
    }
    CheapPlan { units: pair_sidecars(media, sidecars), decided: rows }
}

/// A row for a file that is to be copied: it has no place yet, and the date of
/// its last modification where that is known.
pub open spec fn provisional(
    source: Seq<char>,
    f: SourceFileView,
    kind: MediaKind,
) -> PlannedFileView {
    PlannedFileView {
        source,
        source_rel_path: f.rel_path,
        source_size: f.size,
        kind: events::wire_kind(kind),
        action: PlannedAction::Copy,
        dest_path: None,
        datetime: f.mtime,
        date_source: if f.mtime is Some {
            Some(DateSourceWire::FileMtime)
        } else {
            None
        },
        reason: None,
    }
}

/// The rows of a list of sidecars.
pub open spec fn sidecar_rows(source: Seq<char>, fs: Seq<SourceFileView>) -> Seq<PlannedFileView> {
    fs.map_values(|f: SourceFileView| provisional(source, f, MediaKind::Sidecar))
}

/// The rows of the files of units, in order.
pub open spec fn unit_rows(source: Seq<char>, us: Seq<UnitView>) -> Seq<PlannedFileView>
    decreases us.len(),
{
    if us.len() == 0 {
        Seq::empty()
    } else {
        unit_rows(source, us.drop_last()).push(
            provisional(source, us.last().parent, us.last().parent_kind),
        ) + sidecar_rows(source, us.last().sidecars)
    }
}

/// A row for a file that is to be copied.
pub fn provisional_file(source_id: &SourceId, f: &SourceFile, kind: MediaKind) -> (r: PlannedFile)
    ensures
        r@ == provisional(source_id@, f@, kind),
{
    let date_source = match f.mtime {
        Some(_) => Some(DateSourceWire::from(DateSource::FileMtime)),
        None => None,
    };
    PlannedFile {
        source: source_id.clone(),
        source_rel_path: f.rel_path.clone(),
        source_size: f.size,
        kind: MediaKindWire::from(kind),
        action: PlannedAction::Copy,
        dest_path: None,
        datetime: f.mtime,
        date_source,
        reason: None,
    }
}

impl CheapPlan {
    /// The plan for preview and for execution: a row for each file to copy,
    /// then the rows that are decided.
    pub fn into_sync_plan(self, source_id: &SourceId) -> (r: SyncPlan)
        ensures
            r@.items == unit_rows(source_id@, self@.units) + self@.decided,
            r@.units == self@.units,
    {
        let ghost us = self@.units;
        let mut items: Vec<PlannedFile> = Vec::new();
        let mut i: usize = 0;
        proof {
            assert(events::planned_view(items@) =~= unit_rows(source_id@, us.take(0)));
        }
        while i < self.units.len()
            invariant
                i <= self.units@.len(),
                us == units_view(self.units@),
                events::planned_view(items@) == unit_rows(source_id@, us.take(i as int)),
            decreases self.units@.len() - i,
        {
            let u = &self.units[i];
            proof {
                assert(us.take(i + 1).drop_last() =~= us.take(i as int));
                assert(us.take(i + 1).last() == u@);
            }
            let row = provisional_file(source_id, &u.parent, u.parent_kind);
            proof {
                assert(events::planned_view(items@.push(row)) =~= events::planned_view(
                    items@,
                ).push(row@));
            }
            items.push(row);
            let ghost head = events::planned_view(items@);
            let ghost rows = sidecar_rows(source_id@, u@.sidecars);
            let mut k: usize = 0;
            proof {
                assert(head + rows.take(0) =~= head);
            }
            while k < u.sidecars.len()
                invariant
                    k <= u.sidecars@.len(),
                    rows == sidecar_rows(source_id@, source::files_view(u.sidecars@)),
                    events::planned_view(items@) == head + rows.take(k as int),
                decreases u.sidecars@.len() - k,
            {
                let row = provisional_file(source_id, &u.sidecars[k], MediaKind::Sidecar);
                proof {
                    assert(events::planned_view(items@.push(row)) =~= events::planned_view(
                        items@,
                    ).push(row@));
                    assert(head + rows.take(k + 1) =~= (head + rows.take(k as int)).push(row@));
                }
                items.push(row);
                k += 1;
            }
            proof {
                assert(rows.take(rows.len() as int) =~= rows);
            }
            i += 1;
        }
        proof {
            assert(us.take(us.len() as int) =~= us);
        }
        let ghost head = events::planned_view(items@);
        let ghost rest = self@.decided;
        let mut k: usize = 0;
        proof {
            assert(head + rest.take(0) =~= head);
        }
        while k < self.decided.len()
            invariant
                k <= self.decided@.len(),
                rest == events::planned_view(self.decided@),
                events::planned_view(items@) == head + rest.take(k as int),
            decreases self.decided@.len() - k,
        {
            let row = self.decided[k].clone();
            proof {
                assert(events::planned_view(items@.push(row)) =~= events::planned_view(
                    items@,
                ).push(row@));
                assert(head + rest.take(k + 1) =~= (head + rest.take(k as int)).push(row@));
            }
            items.push(row);
            k += 1;
        }
        proof {
            assert(rest.take(rest.len() as int) =~= rest);
        }
        SyncPlan { items, units: self.units }
    }
}

// ---------------------------------------------------------------------------
// The full plan: dates and destinations
// ---------------------------------------------------------------------------

/// A row or the error that stands in its place.
pub type Row = std::result::Result<PlannedFileView, ErrorView>;

/// A row for a listed file that is not to be copied.
pub open spec fn undated(
    s: ScannedView,
    kind: MediaKindWire,
    action: PlannedAction,
    reason: Seq<char>,
) -> PlannedFileView {
    PlannedFileView {
        source: s.source,
        source_rel_path: s.file.rel_path,
        source_size: s.file.size,
        kind,
        action,
        dest_path: None,
        datetime: None,
        date_source: None,
        reason: Some(reason),
    }
}

/// A row for a listed file with a date, routed by a kind.
pub open spec fn placed(
    cfg: EngineConfigView,
    c: dedupe::Listings,
    s: ScannedView,
    wire: MediaKindWire,
    route: MediaKind,
    date: ResolvedView,
) -> Row {
    match layout_fault(cfg, route) {
        Some(e) => Err(e),
        None => {
            let name = text::after_last(s.file.rel_path, '/');
            let dest = dest_path(cfg, route, date.datetime, name);
            let v = dedupe::decide(c, dest, name, s.file.size);
            Ok(
                PlannedFileView {
                    source: s.source,
                    source_rel_path: s.file.rel_path,
                    source_size: s.file.size,
                    kind: wire,
                    action: v.0,
                    dest_path: Some(dest),
                    datetime: Some(date.datetime),
                    date_source: Some(events::wire_date_source(date.source)),
                    reason: v.1,
                },
            )
        },
    }
}

/// The row of a media file, or of a sidecar on its own.
pub open spec fn media_row(cfg: EngineConfigView, c: dedupe::Listings, s: ScannedView) -> Row {
    if !classify::kept(
        s.kind,
        cfg.filters.raw_mode,
        cfg.filters.include_videos,
        cfg.filters.include_sidecars,
    ) {
        Ok(
            undated(
                s,
                events::wire_kind(s.kind),
                PlannedAction::SkipFiltered,
                "filtered by user settings"@,
            ),
        )
    } else if s.metadata is None {
        Ok(
            undated(
                s,
                events::wire_kind(s.kind),
                PlannedAction::SkipNoDate,
                "no usable date (no EXIF and no mtime)"@,
            ),
        )
    } else {
        placed(cfg, c, s, events::wire_kind(s.kind), s.kind, s.metadata->0)
    }
}

/// The row of a sidecar: it has the date and the folder of its media file.
pub open spec fn sidecar_row(
    cfg: EngineConfigView,
    c: dedupe::Listings,
    s: ScannedView,
    parent: ScannedView,
) -> Row {
    if !cfg.filters.include_sidecars {
        Ok(undated(s, MediaKindWire::Sidecar, PlannedAction::SkipFiltered, "sidecars disabled"@))
    } else if parent.metadata is None {
        Ok(
            undated(
                s,
                MediaKindWire::Sidecar,
                PlannedAction::SkipNoDate,
                "parent media has no date"@,
            ),
        )
    } else {
        placed(cfg, c, s, MediaKindWire::Sidecar, parent.kind, parent.metadata->0)
    }
}

/// The contents of a list of listed files.
pub open spec fn scanned_view(v: Seq<ScannedFile>) -> Seq<ScannedView> {
    v.map_values(|s: ScannedFile| s@)
}

/// The files that are sidecars, or those that are not, in order.
pub open spec fn of_class(ss: Seq<ScannedView>, sidecar: bool) -> Seq<ScannedView>
    decreases ss.len(),
{
    if ss.len() == 0 {
        Seq::empty()
    } else if (ss.last().kind is Sidecar) == sidecar {
        of_class(ss.drop_last(), sidecar).push(ss.last())
    } else {
        of_class(ss.drop_last(), sidecar)
    }
}

/// Listed files with their kinds.
pub open spec fn kinds_of(ss: Seq<ScannedView>) -> Seq<(SourceFileView, MediaKind)> {
    ss.map_values(|s: ScannedView| (s.file, s.kind))
}

/// The row of a sidecar, whether it has a media file or not.
pub open spec fn side_row(
    cfg: EngineConfigView,
    c: dedupe::Listings,
    media: Seq<ScannedView>,
    s: ScannedView,
) -> Row {
    let k = owner(kinds_of(media), stem_key(s.file.rel_path));
    if k >= 0 {
        sidecar_row(cfg, c, s, media[k])
    } else {
        media_row(cfg, c, s)
    }
}

/// The rows of listed files: the media files first, then the sidecars.
pub open spec fn full_rows(
    cfg: EngineConfigView,
    c: dedupe::Listings,
    ss: Seq<ScannedView>,
) -> Seq<Row> {
    let media = of_class(ss, false);
    media.map_values(|s: ScannedView| media_row(cfg, c, s)) + of_class(ss, true).map_values(
        |s: ScannedView| side_row(cfg, c, media, s),
    )
}

/// The first row that is an error, or the number of rows.
pub open spec fn first_error(rows: Seq<Row>) -> int
    decreases rows.len(),
{
    if rows.len() == 0 {
        0
    } else if first_error(rows.drop_last()) < rows.len() - 1 || rows.last() is Err {
        first_error(rows.drop_last())
    } else {
        rows.len() as int
    }
}

/// The rows themselves, where none is an error.
pub open spec fn good_rows(rows: Seq<Row>) -> Seq<PlannedFileView> {
    rows.map_values(|r: Row| r->Ok_0)
}

pub proof fn lemma_first_error(rows: Seq<Row>)
    ensures
        0 <= first_error(rows) <= rows.len(),
        first_error(rows) < rows.len() ==> rows[first_error(rows)] is Err,
        forall|i: int| 0 <= i < first_error(rows) ==> #[trigger] rows[i] is Ok,
    decreases rows.len(),
{
    if rows.len() > 0 {
        let t = rows.drop_last();
        lemma_first_error(t);
        assert forall|i: int| 0 <= i < first_error(rows) implies #[trigger] rows[i] is Ok by {
            if i < rows.len() - 1 {
                assert(t[i] == rows[i]);
            }
        }
    }
}

proof fn lemma_first_error_is(rows: Seq<Row>, n: int)
    requires
        0 <= n < rows.len(),
        rows[n] is Err,
        forall|i: int| 0 <= i < n ==> #[trigger] rows[i] is Ok,
    ensures
        first_error(rows) == n,
{
    lemma_first_error(rows);
    let k = first_error(rows);
    if k < n {
        assert(rows[k] is Ok);
    }
    if n < k {
        assert(rows[n] is Ok);
    }
}

fn undated_file(s: &ScannedFile, kind: MediaKindWire, action: PlannedAction, reason: &str) -> (r:
    PlannedFile)
    ensures
        r@ == undated(s@, kind, action, reason@),
{
    PlannedFile {
        source: s.source.clone(),
        source_rel_path: s.file.rel_path.clone(),
        source_size: s.file.size,
        kind,
        action,
        dest_path: None,
        datetime: None,
        date_source: None,
        reason: Some(text::copy_str(reason)),
    }
}

/// Whether a result is the row or the error that a model says.
pub open spec fn is_row(r: Result<PlannedFile>, row: Row) -> bool {
    match row {
        Ok(p) => r is Ok && r->Ok_0@ == p,
        Err(e) => r is Err && r->Err_0@ == e,
    }
}

fn placed_row(
    cfg: &EngineConfig,
    cache: &DedupeCache,
    s: &ScannedFile,
    wire: MediaKindWire,
    route: MediaKind,
    date: &ResolvedMetadata,
) -> (r: Result<PlannedFile>)
    ensures
        is_row(r, placed(cfg@, cache@, s@, wire, route, date@)),
{
    let name = file_name_of(s.file.rel_path.as_str());
    match dest_path_for(cfg, route, &date.datetime, name.as_str()) {
        Err(e) => Err(e),
        Ok(dest) => {
            let (action, reason) = cache.decide_action_with_reason(
                dest.as_str(),
                name.as_str(),
                s.file.size,
            );
            Ok(
                PlannedFile {
                    source: s.source.clone(),
                    source_rel_path: s.file.rel_path.clone(),
                    source_size: s.file.size,
                    kind: wire,
                    action,
                    dest_path: Some(dest),
                    datetime: Some(date.datetime),
                    date_source: Some(DateSourceWire::from(date.source)),
                    reason,
                },
            )
        },
    }
}

fn plan_one_media(cfg: &EngineConfig, s: &ScannedFile, cache: &DedupeCache) -> (r: Result<
    PlannedFile,
>)
    ensures
        is_row(r, media_row(cfg@, cache@, s@)),
{
    if !classify::should_include(
        s.kind,
        cfg.filters.raw_mode,
        cfg.filters.include_videos,
        cfg.filters.include_sidecars,
    ) {
        return Ok(
            undated_file(
                s,
                MediaKindWire::from(s.kind),
                PlannedAction::SkipFiltered,
                "filtered by user settings",
            ),
        );
    }
    match &s.metadata {
        None => Ok(
            undated_file(
                s,
                MediaKindWire::from(s.kind),
                PlannedAction::SkipNoDate,
                "no usable date (no EXIF and no mtime)",
            ),
        ),
        Some(date) => placed_row(cfg, cache, s, MediaKindWire::from(s.kind), s.kind, date),
    }
}

fn plan_sidecar_with_parent(
    cfg: &EngineConfig,
    s: &ScannedFile,
    parent: &ScannedFile,
    cache: &DedupeCache,
) -> (r: Result<PlannedFile>)
    ensures
        is_row(r, sidecar_row(cfg@, cache@, s@, parent@)),
{
    if !cfg.filters.include_sidecars {
        return Ok(
            undated_file(
                s,
                MediaKindWire::Sidecar,
                PlannedAction::SkipFiltered,
                "sidecars disabled",
            ),
        );
    }
    match &parent.metadata {
        None => Ok(
            undated_file(
                s,
                MediaKindWire::Sidecar,
                PlannedAction::SkipNoDate,
                "parent media has no date",
            ),
        ),
        Some(date) => placed_row(cfg, cache, s, MediaKindWire::Sidecar, parent.kind, date),
    }
}

/// Positions of the files that are sidecars, or of those that are not.
fn class_positions(scanned: &Vec<ScannedFile>, sidecar: bool) -> (r: Vec<usize>)
    ensures
        forall|i: int| 0 <= i < r@.len() ==> (#[trigger] r@[i]) < scanned@.len(),
        r@.len() == of_class(scanned_view(scanned@), sidecar).len(),
        forall|i: int|
            0 <= i < r@.len() ==> scanned@[(#[trigger] r@[i]) as int]@ == of_class(
                scanned_view(scanned@),
                sidecar,
            )[i],
{
    let ghost all = scanned_view(scanned@);
    let mut out: Vec<usize> = Vec::new();
    let mut i: usize = 0;
    while i < scanned.len()
        invariant
            i <= scanned@.len(),
            all == scanned_view(scanned@),
            forall|k: int| 0 <= k < out@.len() ==> (#[trigger] out@[k]) < scanned@.len(),
            out@.len() == of_class(all.take(i as int), sidecar).len(),
            forall|k: int|
                0 <= k < out@.len() ==> scanned@[(#[trigger] out@[k]) as int]@ == of_class(
                    all.take(i as int),
                    sidecar,
                )[k],
        decreases scanned@.len() - i,
    {
        proof {
            assert(all.take(i + 1).drop_last() =~= all.take(i as int));
            assert(all.take(i + 1).last() == scanned@[i as int]@);
        }
        if scanned[i].kind.is_sidecar() == sidecar {
            out.push(i);
        }
        i += 1;
    }
    proof {
        assert(all.take(all.len() as int) =~= all);
    }
    out
}

/// Plans listed files with their dates: where each goes, and whether it can go
/// there by the listings that are cached. A sidecar takes the folder and date
/// of the media file with its name; one without a media file is planned on its
/// own.
pub fn build_plan(cfg: &EngineConfig, scanned: &Vec<ScannedFile>, cache: &DedupeCache) -> (r:
    Result<SyncPlan>)
    ensures
        ({
            let rows = full_rows(cfg@, cache@, scanned_view(scanned@));
            let k = first_error(rows);
            if k < rows.len() {
                r is Err && r->Err_0@ == rows[k]->Err_0
            } else {
                r is Ok && r->Ok_0@.items == good_rows(rows) && r->Ok_0@.units =~= Seq::<
                    UnitView,
                >::empty()
            }
        }),
{
    let ghost ss = scanned_view(scanned@);
    let ghost ms = of_class(ss, false);
    let ghost rows = full_rows(cfg@, cache@, ss);
    let media = class_positions(scanned, false);
    let sidecars = class_positions(scanned, true);
    let mut pairs: Vec<(SourceFile, MediaKind)> = Vec::new();
    let mut items: Vec<PlannedFile> = Vec::new();
    let mut i: usize = 0;
    proof {
        lemma_first_error(rows);
    }
    while i < media.len()
        invariant
            i <= media@.len(),
            media@.len() == ms.len(),
            ss == scanned_view(scanned@),
            ms == of_class(ss, false),
            rows == full_rows(cfg@, cache@, ss),
            forall|k: int| 0 <= k < media@.len() ==> (#[trigger] media@[k]) < scanned@.len(),
            forall|k: int|
                0 <= k < media@.len() ==> scanned@[(#[trigger] media@[k]) as int]@ == ms[k],
            media_view(pairs@) == kinds_of(ms).take(i as int),
            items@.len() == i,
            forall|k: int| 0 <= k < i ==> rows[k] == Row::Ok((#[trigger] items@[k])@),
        decreases media@.len() - i,
    {
        let s = &scanned[media[i]];
        proof {
            assert(rows[i as int] == media_row(cfg@, cache@, ms[i as int]));
        }
        match plan_one_media(cfg, s, cache) {
            Ok(row) => {
                items.push(row);
            },
            Err(e) => {
                proof {
                    assert forall|k: int| 0 <= k < i implies #[trigger] rows[k] is Ok by {
                        assert(rows[k] == Row::Ok(items@[k]@));
                    }
                    lemma_first_error_is(rows, i as int);
                }
                return Err(e);
            },
        }
        let pair = (s.file.clone(), s.kind);
        proof {
            assert(media_view(pairs@.push(pair)) =~= media_view(pairs@).push((pair.0@, pair.1)));
            assert(kinds_of(ms).take(i + 1) =~= kinds_of(ms).take(i as int).push(
                kinds_of(ms)[i as int],
            ));
        }
        pairs.push(pair);
        i += 1;
    }
    proof {
        assert(kinds_of(ms).take(ms.len() as int) =~= kinds_of(ms));
    }
    let by_stem = index_by_stem(&pairs);
    let mut n: usize = 0;
    let ghost sides = of_class(ss, true);
    while n < sidecars.len()
        invariant
            n <= sidecars@.len(),
            sidecars@.len() == sides.len(),
            media@.len() == ms.len(),
            ss == scanned_view(scanned@),
            ms == of_class(ss, false),
            sides == of_class(ss, true),
            rows == full_rows(cfg@, cache@, ss),
            forall|k: int| 0 <= k < media@.len() ==> (#[trigger] media@[k]) < scanned@.len(),
            forall|k: int|
                0 <= k < media@.len() ==> scanned@[(#[trigger] media@[k]) as int]@ == ms[k],
            forall|k: int| 0 <= k < sidecars@.len() ==> (#[trigger] sidecars@[k]) < scanned@.len(),
            forall|k: int|
                0 <= k < sidecars@.len() ==> scanned@[(#[trigger] sidecars@[k]) as int]@
                    == sides[k],
            is_stem_index(by_stem@, kinds_of(ms)),
            items@.len() == ms.len() + n,
            forall|k: int| 0 <= k < items@.len() ==> rows[k] == Row::Ok((#[trigger] items@[k])@),
        decreases sidecars@.len() - n,
    {
        let s = &scanned[sidecars[n]];
        let key = stem_key_text(s.file.rel_path.as_str());
        let ghost at = ms.len() + n;
        proof {
            assert(rows[at as int] == side_row(cfg@, cache@, ms, sides[n as int]));
            lemma_owner_bounds(kinds_of(ms), stem_key(s@.file.rel_path));
        }
        let result = match by_stem.get(key.as_str()) {
            Some(k) => {
                let parent = &scanned[media[*k]];
                plan_sidecar_with_parent(cfg, s, parent, cache)
            },
            None => plan_one_media(cfg, s, cache),
        };
        match result {
            Ok(row) => {
                items.push(row);
            },
            Err(e) => {
                proof {
                    assert forall|k: int| 0 <= k < at implies #[trigger] rows[k] is Ok by {
                        assert(rows[k] == Row::Ok(items@[k]@));
                    }
                    lemma_first_error_is(rows, at as int);
                }
                return Err(e);
            },
        }
        n += 1;
    }
    let r = SyncPlan { items, units: Vec::new() };
    proof {
        assert(rows.len() == ms.len() + sides.len());
        if first_error(rows) < rows.len() {
            assert(rows[first_error(rows)] == Row::Ok(items@[first_error(rows)]@));
        }
        assert(r@.items =~= good_rows(rows));
        assert(r@.units =~= Seq::<UnitView>::empty());
    }
    Ok(r)
}

/// The directories that planned files go to, in order.
pub open spec fn dest_dirs(items: Seq<PlannedFileView>) -> Seq<Seq<char>>
    decreases items.len(),
{
    if items.len() == 0 {
        Seq::empty()
    } else if items.last().dest_path is Some && path::parent(items.last().dest_path->0) is Some {
        dest_dirs(items.drop_last()).push(path::parent(items.last().dest_path->0)->0)
    } else {
        dest_dirs(items.drop_last())
    }
}

/// The directories that planned files go to: those whose listings decide what
/// can go there.
pub fn wanted_dirs(plan: &SyncPlan) -> (r: Vec<String>)
    ensures
        text::texts(r@) == dest_dirs(plan@.items),
{
    let ghost all = plan@.items;
    let mut out: Vec<String> = Vec::new();
    let mut i: usize = 0;
    proof {
        assert(text::texts(out@) =~= dest_dirs(all.take(0)));
    }
    while i < plan.items.len()
        invariant
            i <= plan.items@.len(),
            all == plan@.items,
            text::texts(out@) == dest_dirs(all.take(i as int)),
        decreases plan.items@.len() - i,
    {
        proof {
            assert(all.take(i + 1).drop_last() =~= all.take(i as int));
            assert(all.take(i + 1).last() == plan.items@[i as int]@);
        }
        if let Some(dest) = &plan.items[i].dest_path {
            if let Some(dir) = path::parent_of(dest.as_str()) {
                proof {
                    assert(text::texts(out@.push(dir)) =~= text::texts(out@).push(dir@));
                }
                out.push(dir);
            }
        }
        i += 1;
    }
    proof {
        assert(all.take(all.len() as int) =~= all);
    }
    out
}

// ---------------------------------------------------------------------------
// Laws
// ---------------------------------------------------------------------------

/// How often a file is in a list.
pub open spec fn occurs(fs: Seq<SourceFileView>, f: SourceFileView) -> nat
    decreases fs.len(),
{
    if fs.len() == 0 {
        0
    } else {
        occurs(fs.drop_last(), f) + if fs.last() == f {
            1nat
        } else {
            0nat
        }
    }
}

/// How often a file is in the units to copy, as a parent or as a sidecar.
pub open spec fn unit_occurs(us: Seq<UnitView>, f: SourceFileView) -> nat
    decreases us.len(),
{
    if us.len() == 0 {
        0
    } else {
        unit_occurs(us.drop_last(), f) + (if us.last().parent == f {
            1nat
        } else {
            0nat
        }) + occurs(us.last().sidecars, f)
    }
}

proof fn lemma_occurs_push(fs: Seq<SourceFileView>, x: SourceFileView, f: SourceFileView)
    ensures
        occurs(fs.push(x), f) == occurs(fs, f) + if x == f {
            1nat
        } else {
            0nat
        },
{
    assert(fs.push(x).drop_last() =~= fs);
}

proof fn lemma_unit_occurs_update(
    us: Seq<UnitView>,
    k: int,
    x: SourceFileView,
    f: SourceFileView,
)
    requires
        0 <= k < us.len(),
    ensures
        unit_occurs(us.update(k, UnitView { sidecars: us[k].sidecars.push(x), ..us[k] }), f)
            == unit_occurs(us, f) + if x == f {
            1nat
        } else {
            0nat
        },
    decreases us.len(),
{
    let u = UnitView { sidecars: us[k].sidecars.push(x), ..us[k] };
    let after = us.update(k, u);
    lemma_occurs_push(us[k].sidecars, x, f);
    if k == us.len() - 1 {
        assert(after.drop_last() =~= us.drop_last());
    } else {
        assert(after.drop_last() =~= us.drop_last().update(k, u));
        lemma_unit_occurs_update(us.drop_last(), k, x, f);
    }
}

/// The files of a list of files with kinds.
pub open spec fn files_of(media: Seq<(SourceFileView, MediaKind)>) -> Seq<SourceFileView> {
    media.map_values(|m: (SourceFileView, MediaKind)| m.0)
}

proof fn lemma_bare_units(media: Seq<(SourceFileView, MediaKind)>, n: int, f: SourceFileView)
    requires
        0 <= n <= media.len(),
    ensures
        unit_occurs(units(media, Seq::empty()).take(n), f) == occurs(files_of(media).take(n), f),
    decreases n,
{
    let us = units(media, Seq::empty());
    if n > 0 {
        lemma_bare_units(media, n - 1, f);
        assert(us.take(n).drop_last() =~= us.take(n - 1));
        assert(files_of(media).take(n).drop_last() =~= files_of(media).take(n - 1));
        assert(us.take(n).last() == us[n - 1]);
        assert(us[n - 1].sidecars =~= Seq::<SourceFileView>::empty());
    }
}

proof fn lemma_units_occurs(
    media: Seq<(SourceFileView, MediaKind)>,
    sidecars: Seq<SourceFileView>,
    n: int,
    f: SourceFileView,
)
    requires
        0 <= n <= sidecars.len(),
    ensures
        unit_occurs(units(media, sidecars.take(n)), f) == occurs(files_of(media), f) + occurs(
            sidecars.take(n),
            f,
        ),
    decreases n,
{
    if n == 0 {
        assert(sidecars.take(0) =~= Seq::<SourceFileView>::empty());
        let us = units(media, Seq::empty());
        lemma_bare_units(media, media.len() as int, f);
        assert(us.take(media.len() as int) =~= us);
        assert(files_of(media).take(media.len() as int) =~= files_of(media));
    } else {
        lemma_units_occurs(media, sidecars, n - 1, f);
        lemma_units_step(media, sidecars, n - 1);
        assert(sidecars.take(n) =~= sidecars.take(n - 1).push(sidecars[n - 1]));
        lemma_occurs_push(sidecars.take(n - 1), sidecars[n - 1], f);
        let s = sidecars[n - 1];
        let k = owner(media, stem_key(s.rel_path));
        let before = units(media, sidecars.take(n - 1));
        if k < 0 {
            let u = UnitView {
                parent: s,
                parent_kind: MediaKind::Sidecar,
                sidecars: Seq::empty(),
            };
            assert(before.push(u).drop_last() =~= before);
        } else {
            lemma_owner_bounds(media, stem_key(s.rel_path));
            lemma_unit_occurs_update(before, k, s, f);
        }
    }
}

proof fn lemma_sorted_occurs(sorting: Sorting, fs: Seq<SourceFileView>, f: SourceFileView)
    ensures
        occurs(files_of(sorting.media(fs)), f) == if sorting.is_media(f) {
            occurs(fs, f)
        } else {
            0
        },
        occurs(sorting.sidecars(fs), f) == if sorting.is_sidecar(f) {
            occurs(fs, f)
        } else {
            0
        },
    decreases fs.len(),
{
    if fs.len() > 0 {
        let t = fs.drop_last();
        let x = fs.last();
        lemma_sorted_occurs(sorting, t, f);
        if sorting.is_media(x) {
            let pair = (x, sorting.kind(x)->0);
            assert(files_of(sorting.media(t).push(pair)) =~= files_of(sorting.media(t)).push(x));
            lemma_occurs_push(files_of(sorting.media(t)), x, f);
        }
        if sorting.is_sidecar(x) {
            lemma_occurs_push(sorting.sidecars(t), x, f);
        }
    }
}

/// No file is lost and none is copied twice: a listed file that the camera
/// knows and the filters keep, and that the library does not have, is in the
/// units to copy as often as it is listed; any other file is not in them, and
/// has a row that says why if the camera knows it.
pub proof fn law_every_file_is_planned_once(
    sorting: Sorting,
    fs: Seq<SourceFileView>,
    f: SourceFileView,
)
    ensures
        unit_occurs(units(sorting.media(fs), sorting.sidecars(fs)), f) == if sorting.is_media(f)
            || sorting.is_sidecar(f) {
            occurs(fs, f)
        } else {
            0
        },
        sorting.kind(f) is Some ==> (sorting.row(f) is Some <==> !sorting.is_media(f)
            && !sorting.is_sidecar(f)),
        sorting.kind(f) is None ==> sorting.row(f) is None,
        fs.contains(f) && sorting.row(f) is Some ==> sorting.rows(fs).contains(sorting.row(f)->0),
{
    let media = sorting.media(fs);
    let sides = sorting.sidecars(fs);
    lemma_units_occurs(media, sides, sides.len() as int, f);
    assert(sides.take(sides.len() as int) =~= sides);
    lemma_sorted_occurs(sorting, fs, f);
    if fs.contains(f) && sorting.row(f) is Some {
        lemma_rows_contain(sorting, fs, f);
    }
}

proof fn lemma_rows_contain(sorting: Sorting, fs: Seq<SourceFileView>, f: SourceFileView)
    requires
        fs.contains(f),
        sorting.row(f) is Some,
    ensures
        sorting.rows(fs).contains(sorting.row(f)->0),
    decreases fs.len(),
{
    let i = choose|i: int| 0 <= i < fs.len() && fs[i] == f;
    let t = fs.drop_last();
    let rows = sorting.rows(fs);
    if i == fs.len() - 1 {
        assert(rows[rows.len() - 1] == sorting.row(f)->0);
    } else {
        assert(t[i] == f);
        lemma_rows_contain(sorting, t, f);
        let before = sorting.rows(t);
        let k = choose|k: int| 0 <= k < before.len() && before[k] == sorting.row(f)->0;
        assert(rows[k] == sorting.row(f)->0);
    }
}

/// A media file that was imported once is not copied again, however the folder
/// layout has changed since: if a file with its name, in any case, and its
/// size lies below a destination root, outside the staging directory, the file
/// is left out.
pub proof fn law_imported_files_are_not_copied_again(
    cfg: EngineConfigView,
    profile: ProfileView,
    source: Seq<char>,
    library: Seq<index::IndexedFileView>,
    f: SourceFileView,
    i: int,
)
    requires
        0 <= i < library.len(),
        !library[i].staged(),
        text::unicode_lower(library[i].name) == text::unicode_lower(
            text::after_last(f.rel_path, '/'),
        ),
        library[i].size == f.size,
    ensures
        ({
            let sorting = Sorting { cfg, profile, source, library: index::indexed(library) };
            &&& !sorting.is_media(f)
            &&& sorting.kind(f) is Some && !(sorting.kind(f)->0 is Sidecar) && sorting.keeps(
                sorting.kind(f)->0,
            ) ==> sorting.row(f) is Some && sorting.row(f)->0.action == PlannedAction::SkipExists
        }),
{
    let key = (text::unicode_lower(text::after_last(f.rel_path, '/')), f.size);
    index::law_index_finds_library_files(library, key);
    assert(library[i].key() == key);
}

proof fn lemma_split_no_separator(s: Seq<char>)
    ensures
        forall|i: int|
            0 <= i < text::split(s, '/').len() ==> !(#[trigger] text::split(s, '/')[i]).contains('/'),
    decreases s.len(),
{
    let parts = text::split(s, '/');
    let k = text::last_index(s, '/');
    text::lemma_last_index_bounds(s, '/');
    if k < 0 {
        assert(parts =~= seq![s]);
    } else {
        lemma_split_no_separator(s.take(k));
        let head = text::split(s.take(k), '/');
        let tail = s.skip(k + 1);
        assert forall|i: int| 0 <= i < parts.len() implies !(#[trigger] parts[i]).contains('/') by {
            if i < head.len() {
                assert(parts[i] == head[i]);
            } else {
                assert(parts[i] == tail);
                if tail.contains('/') {
                    let j = choose|j: int| 0 <= j < tail.len() && tail[j] == '/';
                    assert(s[k + 1 + j] == '/');
                }
            }
        }
    }
}

proof fn lemma_with_folders_below(root: Seq<char>, folders: Seq<Seq<char>>)
    requires
        forall|i: int| 0 <= i < folders.len() ==> !(#[trigger] folders[i]).contains('/'),
    ensures
        path::is_below(with_folders(root, folders), root),
    decreases folders.len(),
{
    if folders.len() > 0 {
        let t = folders.drop_last();
        assert forall|i: int| 0 <= i < t.len() implies !(#[trigger] t[i]).contains('/') by {
            assert(t[i] == folders[i]);
        }
        lemma_with_folders_below(root, t);
        let last = folders[folders.len() - 1];
        if last.len() > 0 {
            lemma_join_below(root, with_folders(root, t), last);
        }
    }
}

proof fn lemma_join_below(root: Seq<char>, base: Seq<char>, name: Seq<char>)
    requires
        path::is_below(base, root),
        !name.contains('/'),
    ensures
        path::is_below(path::join(base, name), root),
{
    if name.len() > 0 && name[0] == '/' {
        assert(name.contains(name[0]));
    }
    if root.len() > 0 {
        let r = path::join(base, name);
        assert(root =~= r.subrange(0, root.len() as int)) by {
            assert(root =~= base.subrange(0, root.len() as int));
            assert forall|i: int| 0 <= i < root.len() implies root[i] == r[i] by {
                assert(base.subrange(0, root.len() as int)[i] == base[i]);
            }
        }
        if base.len() == root.len() {
            assert(base =~= root);
        }
    }
}

/// Files never leave the destination root: the path of every file is its root and, behind
/// a separator, the rest, and none of the folders that are pushed onto the root climbs out
/// of it or starts anew.
pub proof fn law_destination_stays_under_root(
    cfg: EngineConfigView,
    kind: MediaKind,
    dt: DateTime,
    name: Seq<char>,
)
    requires
        layout_fault(cfg, kind) is None,
        !name.contains('/'),
    ensures
        path::is_below(dest_path(cfg, kind, dt, name), root_for(cfg, kind)),
        ({
            let folders = text::split(template::rendered(template_for(cfg, kind), dt), '/');
            &&& dest_path(cfg, kind, dt, name) == path::join(
                with_folders(root_for(cfg, kind), folders),
                name,
            )
            &&& !folders.contains(".."@)
            &&& forall|i: int|
                0 <= i < folders.len() ==> !path::is_absolute(#[trigger] folders[i])
        }),
{
    let r = template::rendered(template_for(cfg, kind), dt);
    template::law_rendered_stays_inside(template_for(cfg, kind), dt);
    let folders = text::split(r, '/');
    lemma_split_no_separator(r);
    lemma_with_folders_below(root_for(cfg, kind), folders);
    lemma_join_below(root_for(cfg, kind), with_folders(root_for(cfg, kind), folders), name);
    assert forall|i: int| 0 <= i < folders.len() implies !path::is_absolute(
        #[trigger] folders[i],
    ) by {
        if folders[i].len() > 0 && folders[i][0] == '/' {
            assert(folders[i].contains(folders[i][0]));
        }
    }
}

/// A sidecar goes to the folder of its media file: wherever both have a place,
/// the places have the same parent directory.
pub proof fn law_sidecar_lands_beside_its_media(
    cfg: EngineConfigView,
    c: dedupe::Listings,
    side: ScannedView,
    media: ScannedView,
)
    requires
        !(media.kind is Sidecar),
        sidecar_row(cfg, c, side, media) is Ok,
        media_row(cfg, c, media) is Ok,
        sidecar_row(cfg, c, side, media)->Ok_0.dest_path is Some,
        media_row(cfg, c, media)->Ok_0.dest_path is Some,
        is_plain_name(text::after_last(side.file.rel_path, '/')),
        is_plain_name(text::after_last(media.file.rel_path, '/')),
    ensures
        path::parent(sidecar_row(cfg, c, side, media)->Ok_0.dest_path->0) == path::parent(
            media_row(cfg, c, media)->Ok_0.dest_path->0,
        ),
        sidecar_row(cfg, c, side, media)->Ok_0.datetime == media_row(cfg, c, media)->Ok_0.datetime,
{
    let dt = media.metadata->0.datetime;
    let dir = dest_dir(cfg, media.kind, dt);
    path::law_parent_of_join(dir, text::after_last(side.file.rel_path, '/'));
    path::law_parent_of_join(dir, text::after_last(media.file.rel_path, '/'));
}

/// A name that a directory can hold.
pub open spec fn is_plain_name(name: Seq<char>) -> bool {
    name.len() > 0 && !name.contains('/') && name != seq!['.']
}

/// Where files go, their dates and whether a layout is refused do not depend on
/// what is already there.
pub proof fn law_destinations_do_not_depend_on_listings(
    cfg: EngineConfigView,
    c1: dedupe::Listings,
    c2: dedupe::Listings,
    ss: Seq<ScannedView>,
)
    ensures
        full_rows(cfg, c1, ss).len() == full_rows(cfg, c2, ss).len(),
        forall|i: int|
            #![trigger full_rows(cfg, c1, ss)[i]]
            #![trigger full_rows(cfg, c2, ss)[i]]
            0 <= i < full_rows(cfg, c1, ss).len() ==> {
                let a = full_rows(cfg, c1, ss)[i];
                let b = full_rows(cfg, c2, ss)[i];
                &&& a is Ok <==> b is Ok
                &&& a is Err ==> a == b
                &&& a is Ok ==> a->Ok_0.dest_path == b->Ok_0.dest_path && a->Ok_0.datetime
                    == b->Ok_0.datetime
            },
{
}

// ---------------------------------------------------------------------------
// Which files belong together
// ---------------------------------------------------------------------------

/// Whether a path is a name in a folder: the folder, a separator and the name, or the name
/// alone where the folder is empty.
pub open spec fn is_in(p: Seq<char>, folder: Seq<char>, name: Seq<char>) -> bool {
    !name.contains('/') && (p == folder.push('/') + name || (folder.len() == 0 && p == name))
}

/// Whether a name is a stem with an extension behind its last dot, or a stem without a dot.
pub open spec fn has_stem(name: Seq<char>, s: Seq<char>) -> bool {
    ||| name == s && !name.contains('.')
    ||| exists|ext: Seq<char>| #[trigger] (s.push('.') + ext) == name && !ext.contains('.')
}

/// Whether two names have stems that are alike up to the case of ASCII letters.
pub open spec fn share_a_stem(x: Seq<char>, y: Seq<char>) -> bool {
    exists|s: Seq<char>, t: Seq<char>|
        #![trigger has_stem(x, s), has_stem(y, t)]
        has_stem(x, s) && has_stem(y, t) && s.len() == t.len() && forall|i: int|
            0 <= i < s.len() ==> text::alike(#[trigger] s[i], t[i])
}

/// Whether two files lie in one folder and have one name but for the extension and the case
/// of ASCII letters.
pub open spec fn belong_together(a: Seq<char>, b: Seq<char>) -> bool {
    exists|folder: Seq<char>, x: Seq<char>, y: Seq<char>|
        #![trigger is_in(a, folder, x), is_in(b, folder, y)]
        is_in(a, folder, x) && is_in(b, folder, y) && share_a_stem(x, y)
}

proof fn lemma_is_in(p: Seq<char>)
    ensures
        is_in(p, text::before_last(p, '/'), text::after_last(p, '/')),
        forall|folder: Seq<char>, name: Seq<char>| #[trigger]
            is_in(p, folder, name) ==> folder == text::before_last(p, '/') && name
                == text::after_last(p, '/'),
{
    text::law_text_is_cut_at_the_last(p, '/');
    assert forall|folder: Seq<char>, name: Seq<char>| #[trigger]
        is_in(p, folder, name) implies folder == text::before_last(p, '/') && name
        == text::after_last(p, '/') by {
        if p == folder.push('/') + name {
            text::law_cut_is_unique(p, '/', folder, name);
        } else {
            assert(folder =~= Seq::<char>::empty());
        }
    }
}

proof fn lemma_has_stem(name: Seq<char>)
    ensures
        has_stem(name, stem(name)),
        forall|s: Seq<char>| #[trigger] has_stem(name, s) ==> s == stem(name),
{
    text::law_text_is_cut_at_the_last(name, '.');
    text::lemma_last_index_bounds(name, '.');
    if name.contains('.') {
        assert(stem(name) == text::before_last(name, '.'));
        assert(stem(name).push('.') + text::after_last(name, '.') == name);
    }
    assert forall|s: Seq<char>| #[trigger] has_stem(name, s) implies s == stem(name) by {
        if !(name == s && !name.contains('.')) {
            let ext = choose|ext: Seq<char>| #[trigger]
                (s.push('.') + ext) == name && !ext.contains('.');
            text::law_cut_is_unique(name, '.', s, ext);
            assert(name[s.len() as int] == '.');
            assert(name.contains('.'));
        }
    }
}

proof fn lemma_key_is_belonging(a: Seq<char>, b: Seq<char>)
    ensures
        stem_key(a) == stem_key(b) <==> belong_together(a, b),
{
    let x = text::after_last(a, '/');
    let y = text::after_last(b, '/');
    lemma_is_in(a);
    lemma_is_in(b);
    lemma_has_stem(x);
    lemma_has_stem(y);
    text::law_folded_texts_are_alike(stem(x), stem(y));
    if stem_key(a) == stem_key(b) {
        assert(is_in(b, text::before_last(a, '/'), y));
        assert(share_a_stem(x, y));
    }
    if belong_together(a, b) {
        let (folder, x1, y1) = choose|folder: Seq<char>, x1: Seq<char>, y1: Seq<char>|
            #![trigger is_in(a, folder, x1), is_in(b, folder, y1)]
            is_in(a, folder, x1) && is_in(b, folder, y1) && share_a_stem(x1, y1);
        assert(x1 == x && y1 == y);
        let (s, t) = choose|s: Seq<char>, t: Seq<char>|
            #![trigger has_stem(x, s), has_stem(y, t)]
            has_stem(x, s) && has_stem(y, t) && s.len() == t.len() && forall|i: int|
                0 <= i < s.len() ==> text::alike(#[trigger] s[i], t[i]);
        assert(s == stem(x) && t == stem(y));
    }
}

proof fn lemma_owned(
    media: Seq<(SourceFileView, MediaKind)>,
    sidecars: Seq<SourceFileView>,
    i: int,
    f: SourceFileView,
)
    ensures
        owned(media, sidecars, i).contains(f) <==> sidecars.contains(f) && owner(
            media,
            stem_key(f.rel_path),
        ) == i,
    decreases sidecars.len(),
{
    if sidecars.len() > 0 {
        let t = sidecars.drop_last();
        let x = sidecars.last();
        lemma_owned(media, t, i, f);
        let before = owned(media, t, i);
        let now = owned(media, sidecars, i);
        assert(sidecars =~= t.push(x));
        assert(sidecars[sidecars.len() - 1] == x);
        if t.contains(f) {
            let k = choose|k: int| 0 <= k < t.len() && t[k] == f;
            assert(sidecars[k] == f);
        }
        if sidecars.contains(f) && f != x {
            let k = choose|k: int| 0 <= k < sidecars.len() && sidecars[k] == f;
            assert(t[k] == f);
        }
        if now.len() > before.len() {
            assert(now[before.len() as int] == x);
            if before.contains(f) {
                let k = choose|k: int| 0 <= k < before.len() && before[k] == f;
                assert(now[k] == f);
            }
            if now.contains(f) && f != x {
                let k = choose|k: int| 0 <= k < now.len() && now[k] == f;
                assert(before[k] == f);
            }
        }
    }
}

proof fn lemma_orphaned(
    media: Seq<(SourceFileView, MediaKind)>,
    sidecars: Seq<SourceFileView>,
    f: SourceFileView,
)
    ensures
        orphans(media, sidecars).contains(
            UnitView { parent: f, parent_kind: MediaKind::Sidecar, sidecars: Seq::empty() },
        ) <==> sidecars.contains(f) && owner(media, stem_key(f.rel_path)) < 0,
        forall|i: int|
            0 <= i < orphans(media, sidecars).len() ==> {
                let u = #[trigger] orphans(media, sidecars)[i];
                &&& u.parent_kind == MediaKind::Sidecar
                &&& u.sidecars == Seq::<SourceFileView>::empty()
                &&& sidecars.contains(u.parent)
                &&& owner(media, stem_key(u.parent.rel_path)) < 0
            },
    decreases sidecars.len(),
{
    if sidecars.len() > 0 {
        let t = sidecars.drop_last();
        let x = sidecars.last();
        let lone = UnitView {
            parent: f,
            parent_kind: MediaKind::Sidecar,
            sidecars: Seq::<SourceFileView>::empty(),
        };
        lemma_orphaned(media, t, f);
        let before = orphans(media, t);
        let now = orphans(media, sidecars);
        assert(sidecars[sidecars.len() - 1] == x);
        if t.contains(f) {
            let k = choose|k: int| 0 <= k < t.len() && t[k] == f;
            assert(sidecars[k] == f);
        }
        if sidecars.contains(f) && f != x {
            let k = choose|k: int| 0 <= k < sidecars.len() && sidecars[k] == f;
            assert(t[k] == f);
        }
        assert forall|i: int| 0 <= i < now.len() implies ({
            let u = #[trigger] now[i];
            &&& u.parent_kind == MediaKind::Sidecar
            &&& u.sidecars == Seq::<SourceFileView>::empty()
            &&& sidecars.contains(u.parent)
            &&& owner(media, stem_key(u.parent.rel_path)) < 0
        }) by {
            if i < before.len() {
                assert(now[i] == before[i]);
                let k = choose|k: int| 0 <= k < t.len() && t[k] == before[i].parent;
                assert(sidecars[k] == before[i].parent);
            }
        }
        if before.contains(lone) {
            let k = choose|k: int| 0 <= k < before.len() && before[k] == lone;
            assert(now[k] == lone);
        }
        if now.len() > before.len() {
            assert(now[before.len() as int].parent == x);
            if now.contains(lone) && f != x {
                let k = choose|k: int| 0 <= k < now.len() && now[k] == lone;
                assert(before[k] == lone);
            }
        }
    }
}

/// Every file that is to be copied for its own sake leads one unit, in order, and a sidecar is
/// in the unit of the last of them that lies in its own folder and has its name but for the
/// extension; where there is none, it is a unit of its own.
pub proof fn law_sidecars_go_with_their_own_media(
    media: Seq<(SourceFileView, MediaKind)>,
    sidecars: Seq<SourceFileView>,
    f: SourceFileView,
    i: int,
)
    requires
        0 <= i < units(media, sidecars).len(),
    ensures
        units(media, sidecars).len() >= media.len(),
        i < media.len() ==> {
            let u = units(media, sidecars)[i];
            &&& u.parent == media[i].0
            &&& u.parent_kind == media[i].1
            &&& u.sidecars.contains(f) <==> {
                &&& sidecars.contains(f)
                &&& belong_together(media[i].0.rel_path, f.rel_path)
                &&& forall|j: int|
                    i < j < media.len() ==> !belong_together(
                        (#[trigger] media[j]).0.rel_path,
                        f.rel_path,
                    )
            }
        },
        i >= media.len() ==> {
            let u = units(media, sidecars)[i];
            &&& u.parent_kind == MediaKind::Sidecar
            &&& u.sidecars.len() == 0
            &&& sidecars.contains(u.parent)
            &&& forall|j: int|
                0 <= j < media.len() ==> !belong_together(
                    (#[trigger] media[j]).0.rel_path,
                    u.parent.rel_path,
                )
        },
        sidecars.contains(f) && (forall|j: int|
            0 <= j < media.len() ==> !belong_together((#[trigger] media[j]).0.rel_path, f.rel_path))
            ==> exists|k: int|
            media.len() <= k < units(media, sidecars).len() && (#[trigger] units(
                media,
                sidecars,
            )[k]).parent == f,
{
    let us = units(media, sidecars);
    let key = stem_key(f.rel_path);
    let lone = orphans(media, sidecars);
    lemma_owner_bounds(media, key);
    lemma_owned(media, sidecars, i, f);
    lemma_orphaned(media, sidecars, f);
    assert forall|j: int| 0 <= j < media.len() implies (belong_together(
        (#[trigger] media[j]).0.rel_path,
        f.rel_path,
    ) <==> stem_key(media[j].0.rel_path) == key) by {
        lemma_key_is_belonging(media[j].0.rel_path, f.rel_path);
    }
    if i >= media.len() {
        let u = us[i];
        assert(u == lone[i - media.len()]);
        lemma_owner_bounds(media, stem_key(u.parent.rel_path));
        assert forall|j: int| 0 <= j < media.len() implies !belong_together(
            (#[trigger] media[j]).0.rel_path,
            u.parent.rel_path,
        ) by {
            lemma_key_is_belonging(media[j].0.rel_path, u.parent.rel_path);
        }
    }
    if sidecars.contains(f) && owner(media, key) < 0 {
        let w = UnitView {
            parent: f,
            parent_kind: MediaKind::Sidecar,
            sidecars: Seq::<SourceFileView>::empty(),
        };
        let k = choose|k: int| 0 <= k < lone.len() && lone[k] == w;
        assert(us[media.len() + k] == w);
    }
}

// ---------------------------------------------------------------------------
// Where files go
// ---------------------------------------------------------------------------

proof fn lemma_plain_folders(root: Seq<char>, r: Seq<char>)
    requires
        root.len() > 0,
        root.last() != '/',
        r.len() > 0,
        r[0] != '/',
        r.last() != '/',
        forall|i: int| 0 <= i < r.len() - 1 && #[trigger] r[i] == '/' ==> r[i + 1] != '/',
    ensures
        with_folders(root, text::split(r, '/')) == root.push('/') + r,
    decreases r.len(),
{
    let k = text::last_index(r, '/');
    text::lemma_last_index_bounds(r, '/');
    if k < 0 {
        let one = seq![r];
        assert(text::split(r, '/') =~= one);
        assert(one.drop_last() =~= Seq::<Seq<char>>::empty());
        assert(with_folders(root, one.drop_last()) == root);
    } else {
        let head = r.take(k);
        let tail = r.skip(k + 1);
        assert(head.last() == r[k - 1]);
        assert(r[k - 1] != '/');
        assert forall|i: int| 0 <= i < head.len() - 1 && #[trigger] head[i] == '/' implies head[i
            + 1] != '/' by {
            assert(r[i] == '/');
        }
        lemma_plain_folders(root, head);
        let folders = text::split(r, '/');
        assert(folders.drop_last() =~= text::split(head, '/'));
        assert(folders.last() == tail);
        assert(tail[0] == r[k + 1]);
        assert(with_folders(root, folders) =~= root.push('/') + r);
    }
}

/// A file goes below the root of its kind, into the folders that the layout of its kind gives
/// for its date, under its own name: videos by the root and the layout for videos, images and
/// sidecars by those for images. What is set for the other kind does not matter.
pub proof fn law_each_kind_has_its_own_layout(
    cfg: EngineConfig,
    dt: DateTime,
    kind: MediaKind,
    name: Seq<char>,
)
    ensures
        dest_path(cfg@, MediaKind::Video, dt, name) == path::join(
            with_folders(
                cfg.videos_root@,
                text::split(template::rendered(cfg.videos_template@, dt), '/'),
            ),
            name,
        ),
        !(kind is Video) ==> dest_path(cfg@, kind, dt, name) == path::join(
            with_folders(
                cfg.images_root@,
                text::split(template::rendered(cfg.images_template@, dt), '/'),
            ),
            name,
        ),
        layout_fault(cfg@, MediaKind::Video) is None <==> template::fault(
            cfg.videos_template@,
        ) is None,
        !(kind is Video) ==> (layout_fault(cfg@, kind) is None <==> template::fault(
            cfg.images_template@,
        ) is None),
        layout_fault(cfg@, MediaKind::Video) is Some ==> layout_fault(cfg@, MediaKind::Video) == Some(
            ErrorView::Template {
                template: cfg.videos_template@,
                message: template::fault(cfg.videos_template@)->0,
            },
        ),
        !(kind is Video) && layout_fault(cfg@, kind) is Some ==> layout_fault(cfg@, kind) == Some(
            ErrorView::Template {
                template: cfg.images_template@,
                message: template::fault(cfg.images_template@)->0,
            },
        ),
{
}

/// The path of a file is its root, what its layout stands for on its date and its name, with
/// separators between them, wherever the layout has no empty folder.
pub proof fn law_destination_is_root_layout_and_name(
    cfg: EngineConfig,
    kind: MediaKind,
    dt: DateTime,
    name: Seq<char>,
    root: Seq<char>,
    layout: Seq<char>,
)
    requires
        root == if kind is Video {
            cfg.videos_root@
        } else {
            cfg.images_root@
        },
        layout == template::rendered(
            if kind is Video {
                cfg.videos_template@
            } else {
                cfg.images_template@
            },
            dt,
        ),
        root.len() > 0,
        root.last() != '/',
        name.len() > 0,
        name[0] != '/',
        layout.len() > 0 ==> layout[0] != '/' && layout.last() != '/',
        forall|i: int| 0 <= i < layout.len() - 1 && #[trigger] layout[i] == '/' ==> layout[i + 1]
            != '/',
    ensures
        layout.len() > 0 ==> dest_path(cfg@, kind, dt, name) == root + seq!['/'] + layout + seq!['/']
            + name,
        layout.len() == 0 ==> dest_path(cfg@, kind, dt, name) == root + seq!['/'] + name,
{
    if layout.len() > 0 {
        lemma_plain_folders(root, layout);
        assert(dest_path(cfg@, kind, dt, name) =~= root + seq!['/'] + layout + seq!['/'] + name);
    } else {
        let one = text::split(layout, '/');
        assert(one =~= seq![layout]);
        assert(one.drop_last() =~= Seq::<Seq<char>>::empty());
        assert(with_folders(root, one.drop_last()) == root);
        assert(dest_path(cfg@, kind, dt, name) =~= root + seq!['/'] + name);
    }
}

/// Empty folders of a layout do not show.
pub proof fn law_empty_folders_do_not_show(root: Seq<char>, folders: Seq<Seq<char>>, i: int)
    requires
        0 <= i < folders.len(),
        folders[i].len() == 0,
    ensures
        with_folders(root, folders) == with_folders(root, folders.remove(i)),
    decreases folders.len(),
{
    let t = folders.drop_last();
    if i == folders.len() - 1 {
        assert(folders.remove(i) =~= t);
    } else {
        law_empty_folders_do_not_show(root, t, i);
        assert(folders.remove(i).drop_last() =~= t.remove(i));
        assert(folders.remove(i).last() == folders.last());
    }
}

// ---------------------------------------------------------------------------
// What is imported
// ---------------------------------------------------------------------------

/// Whether a file below a destination root, outside the staging directories, has the name of a
/// file, in whatever case, and its size.
pub open spec fn is_known(library: Seq<index::IndexedFile>, f: SourceFile) -> bool {
    exists|k: int|
        0 <= k < library.len() && is_copy_of(#[trigger] library[k], f)
}

/// Whether a file of the library has the name of a file, in whatever case, and its size.
pub open spec fn is_copy_of(l: index::IndexedFile, f: SourceFile) -> bool {
    &&& l.size == f.size
    &&& text::unicode_lower(l.name@) == text::unicode_lower(text::after_last(f.rel_path@, '/'))
    &&& forall|i: int|
        0 <= i < l.folders@.len() ==> (#[trigger] l.folders@[i])@ != index::STAGING_DIR_NAME@
}

proof fn lemma_is_copy_of(l: index::IndexedFile, f: SourceFile)
    ensures
        is_copy_of(l, f) <==> !l@.staged() && l@.key() == (
            text::unicode_lower(text::after_last(f@.rel_path, '/')),
            f@.size,
        ),
{
    let folders = text::texts(l.folders@);
    if folders.contains(index::STAGING_DIR_NAME@) {
        let i = choose|i: int| 0 <= i < folders.len() && folders[i] == index::STAGING_DIR_NAME@;
        assert(l.folders@[i]@ == index::STAGING_DIR_NAME@);
    }
    if exists|i: int|
        0 <= i < l.folders@.len() && (#[trigger] l.folders@[i])@ == index::STAGING_DIR_NAME@ {
        let i = choose|i: int|
            0 <= i < l.folders@.len() && (#[trigger] l.folders@[i])@ == index::STAGING_DIR_NAME@;
        assert(folders[i] == index::STAGING_DIR_NAME@);
    }
}

/// A file of a kind that the settings keep is imported for its own sake exactly if it is an
/// image or a video and the library has no file of its name and size; a sidecar that they keep
/// is imported along with others, whatever the library has. A file that the settings leave out
/// is skipped for that, one that the library has is skipped for that and said to be where the
/// library has it, and a file that the camera does not know is not mentioned.
pub proof fn law_what_is_imported(
    cfg: EngineConfig,
    profile: CameraProfile,
    source: Seq<char>,
    library: Seq<index::IndexedFile>,
    f: SourceFile,
)
    ensures
        ({
            let sorting = Sorting {
                cfg: cfg@,
                profile: profile@,
                source,
                library: index::indexed(index::found_view(library)),
            };
            let kind = classify::kind_for(profile@.kind_of(f.extension@));
            let wanted = kind is Some && match kind->0 {
                MediaKind::Image { raw } => cfg.filters.raw_mode == RawMode::All || (
                cfg.filters.raw_mode == RawMode::RawOnly) == raw,
                MediaKind::Video => cfg.filters.include_videos,
                MediaKind::Sidecar => cfg.filters.include_sidecars,
            };
            let row = sorting.row(f@);
            &&& sorting.kind(f@) == kind
            &&& sorting.is_media(f@) <==> wanted && !(kind->0 is Sidecar) && !is_known(library, f)
            &&& sorting.is_sidecar(f@) <==> wanted && kind->0 is Sidecar
            &&& row is Some <==> kind is Some && !sorting.is_media(f@) && !sorting.is_sidecar(f@)
            &&& row matches Some(r) ==> {
                &&& r.source == source && r.source_rel_path == f.rel_path@ && r.source_size == f.size
                &&& r.kind == events::wire_kind(kind->0)
                &&& r.datetime is None && r.date_source is None && r.reason is Some
                &&& r.action == if wanted {
                    PlannedAction::SkipExists
                } else {
                    PlannedAction::SkipFiltered
                }
                &&& !wanted ==> r.dest_path is None
                &&& wanted ==> exists|k: int|
                    0 <= k < library.len() && is_copy_of(#[trigger] library[k], f) && r.dest_path
                        == Some(library[k].path.text@)
            }
        }),
{
    let fs = index::found_view(library);
    let key = (text::unicode_lower(text::after_last(f.rel_path@, '/')), f.size);
    index::law_index_finds_library_files(fs, key);
    assert forall|k: int| 0 <= k < library.len() implies (is_copy_of(#[trigger] library[k], f)
        <==> !fs[k].staged() && fs[k].key() == key) by {
        lemma_is_copy_of(library[k], f);
    }
    if index::indexed(fs).contains_key(key) {
        let k = choose|k: int|
            0 <= k < fs.len() && !(#[trigger] fs[k]).staged() && fs[k].key() == key && fs[k].path
                == index::indexed(fs)[key];
        assert(is_copy_of(library[k], f));
        assert(fs[k].path.text == library[k].path.text@);
    }
    if is_known(library, f) {
        let k = choose|k: int| 0 <= k < library.len() && is_copy_of(#[trigger] library[k], f);
        assert(!fs[k].staged() && fs[k].key() == key);
    }
}

/// Files are sorted one by one and in order: what a list comes to is what its parts come to,
/// one after the other, and each file comes to at most one of a media file, a sidecar and a
/// row.
pub proof fn law_files_are_sorted_one_by_one(
    sorting: Sorting,
    fs: Seq<SourceFileView>,
    f: SourceFileView,
)
    ensures
        sorting.media(Seq::empty()).len() == 0,
        sorting.sidecars(Seq::empty()).len() == 0,
        sorting.rows(Seq::empty()).len() == 0,
        sorting.media(fs.push(f)) == if sorting.is_media(f) {
            sorting.media(fs).push((f, sorting.kind(f)->0))
        } else {
            sorting.media(fs)
        },
        sorting.sidecars(fs.push(f)) == if sorting.is_sidecar(f) {
            sorting.sidecars(fs).push(f)
        } else {
            sorting.sidecars(fs)
        },
        sorting.rows(fs.push(f)) == if sorting.row(f) is Some {
            sorting.rows(fs).push(sorting.row(f)->0)
        } else {
            sorting.rows(fs)
        },
        !(sorting.is_media(f) && sorting.is_sidecar(f)),
        sorting.row(f) is Some ==> !sorting.is_media(f) && !sorting.is_sidecar(f),
{
    assert(fs.push(f).drop_last() =~= fs);
}

/// A file that is to be copied is shown as it is listed: with its own path, size and kind, no
/// place yet, and the time of its last modification where that is known.
pub proof fn law_rows_show_their_files(source: Seq<char>, f: SourceFile, kind: MediaKind)
    ensures
        ({
            let r = provisional(source, f@, kind);
            &&& r.source == source && r.source_rel_path == f.rel_path@ && r.source_size == f.size
            &&& r.kind == events::wire_kind(kind)
            &&& r.action is Copy && r.dest_path is None && r.reason is None
            &&& r.datetime == f.mtime
            &&& r.date_source == if f.mtime is Some {
                Some(DateSourceWire::FileMtime)
            } else {
                None
            }
        }),
{
}

/// The rows of units follow the units: the media file of each, then its sidecars, in order.
pub proof fn law_unit_rows_follow_the_units(source: Seq<char>, us: Seq<UnitView>, u: UnitView)
    ensures
        unit_rows(source, Seq::empty()).len() == 0,
        unit_rows(source, us.push(u)).len() == unit_rows(source, us).len() + 1 + u.sidecars.len(),
        unit_rows(source, us.push(u)).take(unit_rows(source, us).len() as int) == unit_rows(
            source,
            us,
        ),
        unit_rows(source, us.push(u))[unit_rows(source, us).len() as int] == provisional(
            source,
            u.parent,
            u.parent_kind,
        ),
        forall|i: int|
            0 <= i < u.sidecars.len() ==> unit_rows(source, us.push(u))[unit_rows(source, us).len()
                + 1 + i] == provisional(source, #[trigger] u.sidecars[i], MediaKind::Sidecar),
{
    assert(us.push(u).drop_last() =~= us);
    assert(unit_rows(source, us.push(u)).take(unit_rows(source, us).len() as int) =~= unit_rows(
        source,
        us,
    ));
    assert forall|i: int| 0 <= i < u.sidecars.len() implies unit_rows(source, us.push(u))[unit_rows(
        source,
        us,
    ).len() + 1 + i] == provisional(source, #[trigger] u.sidecars[i], MediaKind::Sidecar) by {
        assert(sidecar_rows(source, u.sidecars)[i] == provisional(
            source,
            u.sidecars[i],
            MediaKind::Sidecar,
        ));
    }
}

/// Every row counts once, under its own heading.
pub proof fn law_rows_count_under_their_heading(items: Seq<PlannedFileView>, p: PlannedFileView)
    ensures
        count_copies(Seq::empty()) == 0 && count_skips(Seq::empty()) == 0 && count_errors(
            Seq::empty(),
        ) == 0,
        count_copies(items.push(p)) == count_copies(items) + if p.action is Copy {
            1int
        } else {
            0int
        },
        count_errors(items.push(p)) == count_errors(items) + if p.action is Error {
            1int
        } else {
            0int
        },
        count_skips(items.push(p)) == count_skips(items) + if p.action is Copy || p.action is Error {
            0int
        } else {
            1int
        },
{
    assert(items.push(p).drop_last() =~= items);
}

// ---------------------------------------------------------------------------
// The plan with dates
// ---------------------------------------------------------------------------

/// A file with a date goes where its kind and its date say, and what is to be done with it is
/// what its place says; it keeps its own path, size and kind. One that the settings leave out
/// and one without a date have no place.
pub proof fn law_dated_files_have_a_place(
    cfg: EngineConfig,
    c: dedupe::Listings,
    s: ScannedFile,
    row: PlannedFileView,
)
    requires
        media_row(cfg@, c, s@) == Ok::<PlannedFileView, ErrorView>(row),
    ensures
        ({
            let wanted = match s.kind {
                MediaKind::Image { raw } => cfg.filters.raw_mode == RawMode::All || (
                cfg.filters.raw_mode == RawMode::RawOnly) == raw,
                MediaKind::Video => cfg.filters.include_videos,
                MediaKind::Sidecar => cfg.filters.include_sidecars,
            };
            let name = text::after_last(s.file.rel_path@, '/');
            &&& row.source == s.source.0@ && row.source_rel_path == s.file.rel_path@
                && row.source_size == s.file.size && row.kind == events::wire_kind(s.kind)
            &&& !wanted ==> row.action is SkipFiltered && row.dest_path is None
            &&& wanted && s.metadata is None ==> row.action is SkipNoDate && row.dest_path is None
            &&& wanted && s.metadata is Some ==> {
                let d = s.metadata->0;
                let dest = dest_path(cfg@, s.kind, d.datetime, name);
                &&& row.dest_path == Some(dest)
                &&& row.datetime == Some(d.datetime)
                &&& row.date_source == Some(events::wire_date_source(d.source))
                &&& row.action == dedupe::decide(c, dest, name, s.file.size).0
                &&& row.reason == dedupe::decide(c, dest, name, s.file.size).1
            }
        }),
{
}

/// A sidecar has the date and the folder of its media file, and its own name; without a date of
/// the media file, or where sidecars are left out, it has no place.
pub proof fn law_sidecars_have_the_place_of_their_media(
    cfg: EngineConfig,
    c: dedupe::Listings,
    s: ScannedFile,
    parent: ScannedFile,
    row: PlannedFileView,
)
    requires
        sidecar_row(cfg@, c, s@, parent@) == Ok::<PlannedFileView, ErrorView>(row),
    ensures
        ({
            let name = text::after_last(s.file.rel_path@, '/');
            &&& row.source == s.source.0@ && row.source_rel_path == s.file.rel_path@
                && row.source_size == s.file.size && row.kind is Sidecar
            &&& !cfg.filters.include_sidecars ==> row.action is SkipFiltered && row.dest_path is None
            &&& cfg.filters.include_sidecars && parent.metadata is None ==> row.action is SkipNoDate
                && row.dest_path is None
            &&& cfg.filters.include_sidecars && parent.metadata is Some ==> {
                let d = parent.metadata->0;
                let dest = dest_path(cfg@, parent.kind, d.datetime, name);
                &&& row.dest_path == Some(dest)
                &&& row.datetime == Some(d.datetime)
                &&& row.action == dedupe::decide(c, dest, name, s.file.size).0
                &&& row.reason == dedupe::decide(c, dest, name, s.file.size).1
            }
        }),
{
}

/// A plan with dates is refused only for a layout that cannot be used, and only where a file
/// that is to be placed needs it.
pub proof fn law_only_layouts_are_refused(
    cfg: EngineConfig,
    c: dedupe::Listings,
    s: ScannedFile,
    parent: ScannedFile,
)
    ensures
        media_row(cfg@, c, s@) is Err ==> s.metadata is Some && layout_fault(cfg@, s.kind) == Some(
            media_row(cfg@, c, s@)->Err_0,
        ),
        sidecar_row(cfg@, c, s@, parent@) is Err ==> parent.metadata is Some && layout_fault(
            cfg@,
            parent.kind,
        ) == Some(sidecar_row(cfg@, c, s@, parent@)->Err_0),
{
}

/// The files are planned media first, then sidecars, each class in its order; each sidecar with
/// the last media file that lies in its folder and has its name but for the extension, and on
/// its own where there is none.
pub proof fn law_full_plan_pairs_sidecars(
    cfg: EngineConfigView,
    c: dedupe::Listings,
    ss: Seq<ScannedView>,
    i: int,
    k: int,
)
    requires
        0 <= i < of_class(ss, true).len(),
    ensures
        full_rows(cfg, c, ss).len() == of_class(ss, false).len() + of_class(ss, true).len(),
        forall|j: int|
            0 <= j < of_class(ss, false).len() ==> #[trigger] full_rows(cfg, c, ss)[j] == media_row(
                cfg,
                c,
                of_class(ss, false)[j],
            ),
        ({
            let media = of_class(ss, false);
            let side = of_class(ss, true)[i];
            let row = full_rows(cfg, c, ss)[media.len() + i];
            &&& 0 <= k < media.len() && belong_together(
                media[k].file.rel_path,
                side.file.rel_path,
            ) && (forall|j: int|
                k < j < media.len() ==> !belong_together(
                    (#[trigger] media[j]).file.rel_path,
                    side.file.rel_path,
                )) ==> row == sidecar_row(cfg, c, side, media[k])
            &&& (forall|j: int|
                0 <= j < media.len() ==> !belong_together(
                    (#[trigger] media[j]).file.rel_path,
                    side.file.rel_path,
                )) ==> row == media_row(cfg, c, side)
        }),
{
    let media = of_class(ss, false);
    let side = of_class(ss, true)[i];
    let key = stem_key(side.file.rel_path);
    let ks = kinds_of(media);
    lemma_owner_bounds(ks, key);
    assert forall|j: int| 0 <= j < media.len() implies (belong_together(
        (#[trigger] media[j]).file.rel_path,
        side.file.rel_path,
    ) <==> stem_key(ks[j].0.rel_path) == key) by {
        lemma_key_is_belonging(media[j].file.rel_path, side.file.rel_path);
    }
    let o = owner(ks, key);
    if o >= 0 {
        assert(stem_key(ks[o].0.rel_path) == key);
        assert(belong_together(media[o].file.rel_path, side.file.rel_path));
    }
    if 0 <= k < media.len() && belong_together(media[k].file.rel_path, side.file.rel_path) && (
    forall|j: int|
        k < j < media.len() ==> !belong_together(
            (#[trigger] media[j]).file.rel_path,
            side.file.rel_path,
        )) {
        assert(stem_key(ks[k].0.rel_path) == key);
        if o < k {
            assert(stem_key(ks[k].0.rel_path) != key);
        }
        if k < o {
            assert(!belong_together(media[o].file.rel_path, side.file.rel_path));
        }
    }
}

/// The classes of files keep their order, and every file is in exactly one of them.
pub proof fn law_classes_keep_their_order(ss: Seq<ScannedView>, s: ScannedView, sidecar: bool)
    ensures
        of_class(Seq::empty(), sidecar).len() == 0,
        of_class(ss.push(s), sidecar) == if (s.kind is Sidecar) == sidecar {
            of_class(ss, sidecar).push(s)
        } else {
            of_class(ss, sidecar)
        },
{
    assert(ss.push(s).drop_last() =~= ss);
}

/// The directory of every file that has a place is asked for, and no other directory.
pub proof fn law_every_destination_is_asked_for(items: Seq<PlannedFileView>, f: PlannedFileView)
    ensures
        dest_dirs(Seq::empty()).len() == 0,
        f.dest_path is None ==> dest_dirs(items.push(f)) == dest_dirs(items),
        f.dest_path matches Some(p) ==> (match path::parent(p) {
            Some(d) => dest_dirs(items.push(f)) == dest_dirs(items).push(d),
            None => dest_dirs(items.push(f)) == dest_dirs(items),
        }),
{
    assert(items.push(f).drop_last() =~= items);
}

/// A sidecar is put behind those that its unit has already, and one without a media file
/// behind all units: the order of the sidecars is kept.
pub proof fn law_sidecars_keep_their_order(
    media: Seq<(SourceFileView, MediaKind)>,
    sidecars: Seq<SourceFileView>,
    f: SourceFileView,
    i: int,
)
    requires
        0 <= i < media.len(),
    ensures
        ({
            let before = units(media, sidecars)[i].sidecars;
            let after = units(media, sidecars.push(f))[i].sidecars;
            after == before || after == before.push(f)
        }),
        ({
            let before = units(media, sidecars).skip(media.len() as int);
            let after = units(media, sidecars.push(f)).skip(media.len() as int);
            after == before || after == before.push(
                UnitView { parent: f, parent_kind: MediaKind::Sidecar, sidecars: Seq::empty() },
            )
        }),
        units(media, Seq::empty())[i].sidecars.len() == 0,
        units(media, Seq::empty()).len() == media.len(),
{
    assert(sidecars.push(f).drop_last() =~= sidecars);
    assert(units(media, sidecars).skip(media.len() as int) =~= orphans(media, sidecars));
    assert(units(media, sidecars.push(f)).skip(media.len() as int) =~= orphans(
        media,
        sidecars.push(f),
    ));
}

/// The first row that is an error is the one that a plan fails with.
pub proof fn law_first_fault_is_found(rows: Seq<Row>, n: int)
    requires
        0 <= n < rows.len(),
    ensures
        first_error(rows) == n <==> rows[n] is Err && (forall|i: int|
            0 <= i < n ==> (#[trigger] rows[i]) is Ok),
        first_error(rows) == rows.len() <==> (forall|i: int|
            0 <= i < rows.len() ==> (#[trigger] rows[i]) is Ok),
{
    lemma_first_error(rows);
    if rows[n] is Err && (forall|i: int| 0 <= i < n ==> (#[trigger] rows[i]) is Ok) {
        lemma_first_error_is(rows, n);
    }
}

/// A row that is left out says why: the settings, the library, or that there is no date.
pub proof fn law_rows_say_why(
    sorting: Sorting,
    f: SourceFileView,
    cfg: EngineConfigView,
    c: dedupe::Listings,
    s: ScannedView,
    parent: ScannedView,
)
    ensures
        sorting.row(f) matches Some(r) ==> match r.action {
            PlannedAction::SkipFiltered => r.reason == Some("filtered by user settings"@),
            PlannedAction::SkipExists => r.reason == Some("already in library (pre-skip index)"@),
            _ => false,
        },
        media_row(cfg, c, s) matches Ok(r) ==> {
            &&& r.action is SkipFiltered ==> r.dest_path is None && r.reason == Some(
                "filtered by user settings"@,
            )
            &&& r.action is SkipNoDate ==> s.metadata is None && r.reason == Some(
                "no usable date (no EXIF and no mtime)"@,
            )
        },
        sidecar_row(cfg, c, s, parent) matches Ok(r) ==> {
            &&& r.action is SkipFiltered ==> !cfg.filters.include_sidecars && r.reason == Some(
                "sidecars disabled"@,
            )
            &&& r.action is SkipNoDate ==> parent.metadata is None && r.reason == Some(
                "parent media has no date"@,
            )
        },
{
}

} // verus!
