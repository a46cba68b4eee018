//! Camera profiles: which extensions a camera writes and how its card is
//! recognised.

use vstd::prelude::*;
use crate::error::{Error, ErrorView, Result};
use crate::path;
use crate::text;

verus! {

/// File extensions and folder layout of a camera.
#[derive(Debug)]
pub struct CameraProfile {
    pub id: String,
    pub display_name: String,
    pub match_rules: MatchRules,
    pub image_extensions: Vec<String>,
    pub raw_extensions: Vec<String>,
    pub video_extensions: Vec<String>,
    pub sidecar_extensions: Vec<String>,
    /// Subdirectories of the source's root that hold media. Empty means all.
    pub dcim_subdirs: Vec<String>,
}

/// What selects a profile for a source.
#[derive(Debug)]
pub struct MatchRules {
    pub exif_make: Vec<String>,
    pub exif_model_glob: Vec<String>,
    pub marker_paths: Vec<String>,
}

/// What an extension says about a file.
#[derive(Debug, Clone, Copy, PartialEq, Eq, Structural)]
pub enum ExtensionKind {
    Image,
    RawImage,
    Video,
    Sidecar,
}

/// The contents of [`MatchRules`].
pub struct MatchRulesView {
    pub exif_make: Seq<Seq<char>>,
    pub exif_model_glob: Seq<Seq<char>>,
    pub marker_paths: Seq<Seq<char>>,
}

/// The contents of a [`CameraProfile`].
pub struct ProfileView {
    pub id: Seq<char>,
    pub display_name: Seq<char>,
    pub match_rules: MatchRulesView,
    pub image_extensions: Seq<Seq<char>>,
    pub raw_extensions: Seq<Seq<char>>,
    pub video_extensions: Seq<Seq<char>>,
    pub sidecar_extensions: Seq<Seq<char>>,
    pub dcim_subdirs: Seq<Seq<char>>,
}

impl View for MatchRules {
    type V = MatchRulesView;

    open spec fn view(&self) -> MatchRulesView {
        MatchRulesView {
            exif_make: text::texts(self.exif_make@),
            exif_model_glob: text::texts(self.exif_model_glob@),
            marker_paths: text::texts(self.marker_paths@),
        }
    }
}

impl View for CameraProfile {
    type V = ProfileView;

    open spec fn view(&self) -> ProfileView {
        ProfileView {
            id: self.id@,
            display_name: self.display_name@,
            match_rules: self.match_rules@,
            image_extensions: text::texts(self.image_extensions@),
            raw_extensions: text::texts(self.raw_extensions@),
            video_extensions: text::texts(self.video_extensions@),
            sidecar_extensions: text::texts(self.sidecar_extensions@),
            dcim_subdirs: text::texts(self.dcim_subdirs@),
        }
    }
}

impl Clone for MatchRules {
    fn clone(&self) -> (r: Self)
        ensures
            r@ == self@,
    {
        MatchRules {
            exif_make: text::copy_all(&self.exif_make),
            exif_model_glob: text::copy_all(&self.exif_model_glob),
            marker_paths: text::copy_all(&self.marker_paths),
        }
    }
}

impl Clone for CameraProfile {
    fn clone(&self) -> (r: Self)
        ensures
            r@ == self@,
    {
        CameraProfile {
            id: self.id.clone(),
            display_name: self.display_name.clone(),
            match_rules: self.match_rules.clone(),
            image_extensions: text::copy_all(&self.image_extensions),
            raw_extensions: text::copy_all(&self.raw_extensions),
            video_extensions: text::copy_all(&self.video_extensions),
            sidecar_extensions: text::copy_all(&self.sidecar_extensions),
            dcim_subdirs: text::copy_all(&self.dcim_subdirs),
        }
    }
}

impl Default for MatchRules {
    fn default() -> (r: Self)
        ensures
            r@ == (MatchRulesView {
                exif_make: Seq::empty(),
                exif_model_glob: Seq::empty(),
                marker_paths: Seq::empty(),
            }),
    {
        let r = MatchRules {
            exif_make: Vec::new(),
            exif_model_glob: Vec::new(),
            marker_paths: Vec::new(),
        };
        proof {
            assert(text::texts(r.exif_make@) =~= Seq::<Seq<char>>::empty());
        }
        r
    }
}

/// Whether a list holds a text up to the case of ASCII letters.
pub open spec fn holds_ignoring_case(list: Seq<Seq<char>>, s: Seq<char>) -> bool {
    exists|i: int| 0 <= i < list.len() && text::same_ignoring_case(#[trigger] list[i], s)
}

fn has_ignoring_case(list: &Vec<String>, s: &str) -> (r: bool)
    ensures
        r == holds_ignoring_case(text::texts(list@), s@),
{
    let mut i: usize = 0;
    while i < list.len()
        invariant
            i <= list@.len(),
            forall|j: int|
                0 <= j < i ==> !text::same_ignoring_case(#[trigger] text::texts(list@)[j], s@),
        decreases list@.len() - i,
    {
        if text::eq_ignore_ascii_case(list[i].as_str(), s) {
            proof {
                assert(text::texts(list@)[i as int] == list@[i as int]@);
            }
            return true;
        }
        i += 1;
    }
    false
}

impl ProfileView {
    /// What an extension means to the camera. Raw formats win over other
    /// images, those over videos and those over sidecars.
    pub open spec fn kind_of(self, ext: Seq<char>) -> Option<ExtensionKind> {
        if holds_ignoring_case(self.raw_extensions, ext) {
            Some(ExtensionKind::RawImage)
        } else if holds_ignoring_case(self.image_extensions, ext) {
            Some(ExtensionKind::Image)
        } else if holds_ignoring_case(self.video_extensions, ext) {
            Some(ExtensionKind::Video)
        } else if holds_ignoring_case(self.sidecar_extensions, ext) {
            Some(ExtensionKind::Sidecar)
        } else {
            None
        }
    }

    /// Whether a marker of the camera is among the paths that exist.
    pub open spec fn marked(self, root: Seq<char>, existing: Seq<Seq<char>>) -> bool {
        exists|i: int|
            0 <= i < self.match_rules.marker_paths.len() && existing.contains(
                path::join(root, #[trigger] self.match_rules.marker_paths[i]),
            )
    }
}

impl CameraProfile {
    /// Whether any marker path of the profile exists below `source_root`,
    /// given the paths that do.
    pub fn matches_markers(&self, source_root: &str, existing: &Vec<String>) -> (r: bool)
        ensures
            r == self@.marked(source_root@, text::texts(existing@)),
    {
        let mut i: usize = 0;
        while i < self.match_rules.marker_paths.len()
            invariant
                i <= self.match_rules.marker_paths@.len(),
                forall|j: int|
                    0 <= j < i ==> !text::texts(existing@).contains(
                        path::join(source_root@, #[trigger] self@.match_rules.marker_paths[j]),
                    ),
            decreases self.match_rules.marker_paths@.len() - i,
        {
            let p = path::join_path(source_root, self.match_rules.marker_paths[i].as_str());
            if text::any_text(existing, p.as_str()) {
                proof {
                    assert(self@.match_rules.marker_paths[i as int]
                        == self.match_rules.marker_paths@[i as int]@);
                }
                return true;
            }
            i += 1;
        }
        false
    }

    /// Whether `make` is one of the camera makes of the profile, whatever the
    /// case of its ASCII letters.
    pub fn matches_make(&self, make: &str) -> (r: bool)
        ensures
            r == holds_ignoring_case(self@.match_rules.exif_make, make@),
    {
        has_ignoring_case(&self.match_rules.exif_make, make)
    }

    /// What an extension means to the camera, whatever the case of its ASCII
    /// letters.
    pub fn classify_extension(&self, ext: &str) -> (r: Option<ExtensionKind>)
        ensures
            r == self@.kind_of(ext@),
    {
        if has_ignoring_case(&self.raw_extensions, ext) {
            Some(ExtensionKind::RawImage)
        } else if has_ignoring_case(&self.image_extensions, ext) {
            Some(ExtensionKind::Image)
        } else if has_ignoring_case(&self.video_extensions, ext) {
            Some(ExtensionKind::Video)
        } else if has_ignoring_case(&self.sidecar_extensions, ext) {
            Some(ExtensionKind::Sidecar)
        } else {
            None
        }
    }
}

// ---------------------------------------------------------------------------
// Registry
// ---------------------------------------------------------------------------

/// Profiles in the order in which their ids were first added. No two have the
/// same id. The view is their contents.
#[derive(Debug)]
pub struct ProfileRegistry {
    profiles: Vec<CameraProfile>,
}

/// The contents of a list of profiles.
pub open spec fn profiles_view(v: Seq<CameraProfile>) -> Seq<ProfileView> {
    v.map_values(|p: CameraProfile| p@)
}

/// No two profiles have the same id.
pub open spec fn distinct_ids(ps: Seq<ProfileView>) -> bool {
    forall|i: int, j: int| 0 <= i < j < ps.len() ==> (#[trigger] ps[i]).id != (#[trigger] ps[j]).id
}

/// Where the profile with an id stands, or -1.
pub open spec fn position(ps: Seq<ProfileView>, id: Seq<char>) -> int
    decreases ps.len(),
{
    if ps.len() == 0 {
        -1
    } else if ps.last().id == id {
        ps.len() - 1
    } else {
        position(ps.drop_last(), id)
    }
}

/// The profile with an id.
pub open spec fn find(ps: Seq<ProfileView>, id: Seq<char>) -> Option<ProfileView> {
    if position(ps, id) < 0 {
        None
    } else {
        Some(ps[position(ps, id)])
    }
}

/// The profiles after one more was added: it takes the place of one with its
/// id, or comes last.
pub open spec fn with_profile(ps: Seq<ProfileView>, p: ProfileView) -> Seq<ProfileView> {
    if position(ps, p.id) < 0 {
        ps.push(p)
    } else {
        ps.update(position(ps, p.id), p)
    }
}

/// The first profile that has markers and is marked, or -1.
pub open spec fn first_marked(
    ps: Seq<ProfileView>,
    root: Seq<char>,
    existing: Seq<Seq<char>>,
) -> int
    decreases ps.len(),
{
    if ps.len() == 0 {
        -1
    } else if first_marked(ps.drop_last(), root, existing) >= 0 {
        first_marked(ps.drop_last(), root, existing)
    } else if ps.last().match_rules.marker_paths.len() > 0 && ps.last().marked(root, existing) {
        ps.len() - 1
    } else {
        -1
    }
}

/// The profile for a source: the first that is marked, else `dcim-generic`.
pub open spec fn detected(
    ps: Seq<ProfileView>,
    root: Seq<char>,
    existing: Seq<Seq<char>>,
) -> ProfileView {
    if first_marked(ps, root, existing) >= 0 {
        ps[first_marked(ps, root, existing)]
    } else {
        ps[position(ps, "dcim-generic"@)]
    }
}

/// Whether there is a profile for a source.
pub open spec fn detectable(
    ps: Seq<ProfileView>,
    root: Seq<char>,
    existing: Seq<Seq<char>>,
) -> bool {
    first_marked(ps, root, existing) >= 0 || find(ps, "dcim-generic"@) is Some
}

/// Marker paths below a root.
pub open spec fn markers_under(root: Seq<char>, markers: Seq<Seq<char>>) -> Seq<Seq<char>> {
    markers.map_values(|m: Seq<char>| path::join(root, m))
}

/// The marker paths of all profiles below a root.
pub open spec fn all_markers(ps: Seq<ProfileView>, root: Seq<char>) -> Seq<Seq<char>>
    decreases ps.len(),
{
    if ps.len() == 0 {
        Seq::empty()
    } else {
        all_markers(ps.drop_last(), root) + markers_under(root, ps.last().match_rules.marker_paths)
    }
}

proof fn lemma_position(ps: Seq<ProfileView>, id: Seq<char>)
    ensures
        -1 <= position(ps, id) < ps.len(),
        position(ps, id) >= 0 ==> ps[position(ps, id)].id == id,
        forall|j: int| position(ps, id) < j < ps.len() ==> (#[trigger] ps[j]).id != id,
    decreases ps.len(),
{
    if ps.len() > 0 && ps.last().id != id {
        lemma_position(ps.drop_last(), id);
        assert forall|j: int| position(ps, id) < j < ps.len() implies (#[trigger] ps[j]).id
            != id by {
            if j < ps.len() - 1 {
                assert(ps.drop_last()[j] == ps[j]);
            }
        }
    }
}

proof fn lemma_first_marked(ps: Seq<ProfileView>, root: Seq<char>, existing: Seq<Seq<char>>)
    ensures
        -1 <= first_marked(ps, root, existing) < ps.len(),
    decreases ps.len(),
{
    if ps.len() > 0 {
        lemma_first_marked(ps.drop_last(), root, existing);
    }
}

fn index_of(v: &Vec<CameraProfile>, id: &str) -> (r: Option<usize>)
    ensures
        match r {
            Some(i) => i < v@.len() && position(profiles_view(v@), id@) == i,
            None => position(profiles_view(v@), id@) == -1,
        },
{
    let ghost ps = profiles_view(v@);
    proof {
        lemma_position(ps, id@);
    }
    let mut i: usize = v.len();
    while i > 0
        invariant
            i <= v@.len(),
            ps == profiles_view(v@),
            -1 <= position(ps, id@) < i,
            position(ps, id@) >= 0 ==> ps[position(ps, id@)].id == id@,
            forall|j: int| position(ps, id@) < j < ps.len() ==> (#[trigger] ps[j]).id != id@,
        decreases i,
    {
        i -= 1;
        proof {
            assert(ps[i as int] == v@[i as int]@);
        }
        if text::same_text(v[i].id.as_str(), id) {
            return Some(i);
        }
    }
    None
}

impl View for ProfileRegistry {
    type V = Seq<ProfileView>;

    closed spec fn view(&self) -> Seq<ProfileView> {
        profiles_view(self.profiles@)
    }
}

impl Default for ProfileRegistry {
    fn default() -> (r: Self)
        ensures
            r@ == Seq::<ProfileView>::empty(),
    {
        let r = ProfileRegistry { profiles: Vec::new() };
        proof {
            assert(r@ =~= Seq::<ProfileView>::empty());
        }
        r
    }
}

impl Clone for ProfileRegistry {
    fn clone(&self) -> (r: Self)
        ensures
            r@ == self@,
    {
        proof {
            use_type_invariant(self);
        }
        let mut out: Vec<CameraProfile> = Vec::new();
        let mut i: usize = 0;
        while i < self.profiles.len()
            invariant
                i <= self.profiles@.len(),
                profiles_view(out@) == profiles_view(self.profiles@.take(i as int)),
            decreases self.profiles@.len() - i,
        {
            let p = self.profiles[i].clone();
            proof {
                assert(profiles_view(out@.push(p)) =~= profiles_view(out@).push(p@));
                assert(profiles_view(self.profiles@.take(i + 1)) =~= profiles_view(
                    self.profiles@.take(i as int),
                ).push(self.profiles@[i as int]@));
            }
            out.push(p);
            i += 1;
        }
        proof {
            assert(self.profiles@.take(self.profiles@.len() as int) =~= self.profiles@);
        }
        ProfileRegistry { profiles: out }
    }
}

impl ProfileRegistry {
    #[verifier::type_invariant]
    spec fn ids_distinct(self) -> bool {
        distinct_ids(profiles_view(self.profiles@))
    }

    /// Adds a profile. One with the same id is replaced where it stands.
    pub fn insert(&mut self, profile: CameraProfile)
        ensures
            final(self)@ == with_profile(old(self)@, profile@),
            distinct_ids(final(self)@),
    {
        proof {
            use_type_invariant(&*self);
            lemma_position(self@, profile@.id);
        }
        let ghost before = self@;
        let ghost p = profile@;
        let mut all: Vec<CameraProfile> = Vec::new();
        std::mem::swap(&mut all, &mut self.profiles);
        match index_of(&all, profile.id.as_str()) {
            Some(i) => {
                proof {
                    assert(profiles_view(all@.update(i as int, profile)) =~= before.update(
                        i as int,
                        p,
                    ));
                }
                all.set(i, profile);
            },
            None => {
                proof {
                    assert(profiles_view(all@.push(profile)) =~= before.push(p));
                }
                all.push(profile);
            },
        }
        self.profiles = all;
    }

    /// The profile with an id.
    pub fn get(&self, id: &str) -> (r: Option<&CameraProfile>)
        ensures
            match r {
                Some(p) => find(self@, id@) == Some(p@),
                None => find(self@, id@) is None,
            },
    {
        match index_of(&self.profiles, id) {
            Some(i) => Some(&self.profiles[i]),
            None => None,
        }
    }

    /// The profiles in their order.
    pub fn iter(&self) -> (r: &Vec<CameraProfile>)
        ensures
            profiles_view(r@) == self@,
    {
        &self.profiles
    }

    /// The marker paths of all profiles below a root: the paths whose
    /// existence decides which profile is detected.
    pub fn marker_candidates(&self, source_root: &str) -> (r: Vec<String>)
        ensures
            text::texts(r@) == all_markers(self@, source_root@),
    {
        let mut out: Vec<String> = Vec::new();
        let mut i: usize = 0;
        proof {
            assert(text::texts(out@) =~= all_markers(self@.take(0), source_root@));
        }
        while i < self.profiles.len()
            invariant
                i <= self.profiles@.len(),
                text::texts(out@) == all_markers(self@.take(i as int), source_root@),
            decreases self.profiles@.len() - i,
        {
            let markers = &self.profiles[i].match_rules.marker_paths;
            let ghost before = text::texts(out@);
            let ghost own = markers_under(source_root@, text::texts(markers@));
            let mut m: usize = 0;
            proof {
                assert(before + own.take(0) =~= before);
            }
            while m < markers.len()
                invariant
                    m <= markers@.len(),
                    own == markers_under(source_root@, text::texts(markers@)),
                    text::texts(out@) == before + own.take(m as int),
                decreases markers@.len() - m,
            {
                let p = path::join_path(source_root, markers[m].as_str());
                proof {
                    assert(text::texts(out@.push(p)) =~= text::texts(out@).push(p@));
                    assert(before + own.take(m + 1) =~= (before + own.take(m as int)).push(p@));
                }
                out.push(p);
                m += 1;
            }
            proof {
                assert(own.take(own.len() as int) =~= own);
                assert(self@.take(i + 1).drop_last() =~= self@.take(i as int));
                assert(self@.take(i + 1).last() == self.profiles@[i as int]@);
            }
            i += 1;
        }
        proof {
            assert(self@.take(self@.len() as int) =~= self@);
        }
        out
    }

    /// The profile for a source root, given which marker paths exist below it:
    /// the first profile with a marker there, else `dcim-generic`.
    pub fn detect_for_source(&self, source_root: &str, existing: &Vec<String>) -> (r:
        &CameraProfile)
        requires
            detectable(self@, source_root@, text::texts(existing@)),
        ensures
            r@ == detected(self@, source_root@, text::texts(existing@)),
    {
        let mut i: usize = 0;
        proof {
            assert(self@.take(0) =~= Seq::<ProfileView>::empty());
        }
        while i < self.profiles.len()
            invariant
                i <= self.profiles@.len(),
                first_marked(self@.take(i as int), source_root@, text::texts(existing@)) == -1,
            decreases self.profiles@.len() - i,
        {
            proof {
                assert(self@.take(i + 1).drop_last() =~= self@.take(i as int));
                assert(self@.take(i + 1).last() == self.profiles@[i as int]@);
            }
            let p = &self.profiles[i];
            if p.match_rules.marker_paths.len() > 0 && p.matches_markers(source_root, existing) {
                proof {
                    lemma_first_marked_stable(self@, i + 1, source_root@, text::texts(existing@));
                }
                return p;
            }
            i += 1;
        }
        proof {
            assert(self@.take(self@.len() as int) =~= self@);
            lemma_position(self@, "dcim-generic"@);
        }
        match self.get("dcim-generic") {
            Some(p) => p,
            None => &self.profiles[0],
        }
    }
}

proof fn lemma_first_marked_stable(
    ps: Seq<ProfileView>,
    n: int,
    root: Seq<char>,
    existing: Seq<Seq<char>>,
)
    requires
        0 <= n <= ps.len(),
        first_marked(ps.take(n), root, existing) >= 0,
    ensures
        first_marked(ps, root, existing) == first_marked(ps.take(n), root, existing),
    decreases ps.len() - n,
{
    if n == ps.len() {
        assert(ps.take(n) =~= ps);
    } else {
        assert(ps.take(n + 1).drop_last() =~= ps.take(n));
        lemma_first_marked_stable(ps, n + 1, root, existing);
    }
}

// ---------------------------------------------------------------------------
// Built-in profiles
// ---------------------------------------------------------------------------

/// The profile for Sony bodies that write to a card in Sony's layout.
pub open spec fn sony_profile() -> ProfileView {
    ProfileView {
        id: "sony-a7m4"@,
        display_name: "Sony α7 IV (and similar)"@,
        match_rules: MatchRulesView {
            exif_make: seq!["SONY"@],
            exif_model_glob: Seq::empty(),
            marker_paths: seq!["PRIVATE/SONY/SONYCARD.IND"@],
        },
        image_extensions: seq!["JPG"@, "JPEG"@, "HEIF"@, "HIF"@],
        raw_extensions: seq!["ARW"@],
        video_extensions: seq!["MP4"@, "MTS"@, "M2TS"@],
        sidecar_extensions: seq!["XMP"@],
        dcim_subdirs: seq!["DCIM"@, "PRIVATE/M4ROOT/CLIP"@, "AVCHD/BDMV/STREAM"@],
    }
}

/// The profile for any device with a `DCIM` folder. It has no markers, so it is
/// only ever the fallback.
pub open spec fn generic_profile() -> ProfileView {
    ProfileView {
        id: "dcim-generic"@,
        display_name: "Generic DCIM device"@,
        match_rules: MatchRulesView {
            exif_make: Seq::empty(),
            exif_model_glob: Seq::empty(),
            marker_paths: Seq::empty(),
        },
        image_extensions: seq!["JPG"@, "JPEG"@, "HEIC"@, "HEIF"@, "HIF"@, "PNG"@],
        raw_extensions: seq![
            "ARW"@,
            "CR2"@,
            "CR3"@,
            "NEF"@,
            "NRW"@,
            "RAF"@,
            "ORF"@,
            "RW2"@,
            "DNG"@,
            "GPR"@,
        ],
        video_extensions: seq!["MP4"@, "MOV"@, "MTS"@, "M2TS"@, "AVI"@],
        sidecar_extensions: seq!["XMP"@],
        dcim_subdirs: seq!["DCIM"@],
    }
}

fn strings(items: &[&str]) -> (r: Vec<String>)
    ensures
        text::texts(r@) == items@.map_values(|s: &str| s@),
{
    let mut out: Vec<String> = Vec::new();
    let mut i: usize = 0;
    let ghost all = items@.map_values(|s: &str| s@);
    while i < items.len()
        invariant
            i <= items@.len(),
            all == items@.map_values(|s: &str| s@),
            text::texts(out@) == all.take(i as int),
        decreases items@.len() - i,
    {
        let s = text::copy_str(items[i]);
        proof {
            assert(text::texts(out@.push(s)) =~= text::texts(out@).push(s@));
            assert(all.take(i + 1) =~= all.take(i as int).push(s@));
        }
        out.push(s);
        i += 1;
    }
    proof {
        assert(all.take(all.len() as int) =~= all);
    }
    out
}

fn sony() -> (r: CameraProfile)
    ensures
        r@ == sony_profile(),
{
    let p = CameraProfile {
        id: text::copy_str("sony-a7m4"),
        display_name: text::copy_str("Sony α7 IV (and similar)"),
        match_rules: MatchRules {
            exif_make: strings(&["SONY"]),
            exif_model_glob: strings(&[]),
            marker_paths: strings(&["PRIVATE/SONY/SONYCARD.IND"]),
        },
        image_extensions: strings(&["JPG", "JPEG", "HEIF", "HIF"]),
        raw_extensions: strings(&["ARW"]),
        video_extensions: strings(&["MP4", "MTS", "M2TS"]),
        sidecar_extensions: strings(&["XMP"]),
        dcim_subdirs: strings(&["DCIM", "PRIVATE/M4ROOT/CLIP", "AVCHD/BDMV/STREAM"]),
    };
    proof {
        let v = sony_profile();
        assert(p@.match_rules.exif_make =~= v.match_rules.exif_make);
        assert(p@.match_rules.exif_model_glob =~= v.match_rules.exif_model_glob);
        assert(p@.match_rules.marker_paths =~= v.match_rules.marker_paths);
        assert(p@.image_extensions =~= v.image_extensions);
        assert(p@.raw_extensions =~= v.raw_extensions);
        assert(p@.video_extensions =~= v.video_extensions);
        assert(p@.sidecar_extensions =~= v.sidecar_extensions);
        assert(p@.dcim_subdirs =~= v.dcim_subdirs);
    }
    p
}

fn generic() -> (r: CameraProfile)
    ensures
        r@ == generic_profile(),
{
    let p = CameraProfile {
        id: text::copy_str("dcim-generic"),
        display_name: text::copy_str("Generic DCIM device"),
        match_rules: MatchRules {
            exif_make: strings(&[]),
            exif_model_glob: strings(&[]),
            marker_paths: strings(&[]),
        },
        image_extensions: strings(&["JPG", "JPEG", "HEIC", "HEIF", "HIF", "PNG"]),
        raw_extensions: strings(
            &["ARW", "CR2", "CR3", "NEF", "NRW", "RAF", "ORF", "RW2", "DNG", "GPR"],
        ),
        video_extensions: strings(&["MP4", "MOV", "MTS", "M2TS", "AVI"]),
        sidecar_extensions: strings(&["XMP"]),
        dcim_subdirs: strings(&["DCIM"]),
    };
    proof {
        let v = generic_profile();
        assert(p@.match_rules.exif_make =~= v.match_rules.exif_make);
        assert(p@.match_rules.exif_model_glob =~= v.match_rules.exif_model_glob);
        assert(p@.match_rules.marker_paths =~= v.match_rules.marker_paths);
        assert(p@.image_extensions =~= v.image_extensions);
        assert(p@.raw_extensions =~= v.raw_extensions);
        assert(p@.video_extensions =~= v.video_extensions);
        assert(p@.sidecar_extensions =~= v.sidecar_extensions);
        assert(p@.dcim_subdirs =~= v.dcim_subdirs);
    }
    p
}

impl ProfileRegistry {
    /// The registry of the built-in profiles.
    pub fn with_builtins() -> (r: Result<Self>)
        ensures
            r is Ok,
            r->Ok_0@ == seq![sony_profile(), generic_profile()],
            find(r->Ok_0@, "sony-a7m4"@) == Some(sony_profile()),
            find(r->Ok_0@, "dcim-generic"@) == Some(generic_profile()),
    {
        let mut r = ProfileRegistry::default();
        r.insert(sony());
        r.insert(generic());
        proof {
            reveal_strlit("sony-a7m4");
            reveal_strlit("dcim-generic");
            let s = sony_profile();
            let g = generic_profile();
            assert(s.id.len() != g.id.len());
            assert(with_profile(Seq::empty(), s) =~= seq![s]);
            assert(seq![s].drop_last() =~= Seq::<ProfileView>::empty());
            assert(position(seq![s].drop_last(), g.id) == -1);
            assert(position(seq![s], g.id) == -1);
            assert(with_profile(seq![s], g) =~= seq![s, g]);
            assert(seq![s, g].drop_last() =~= seq![s]);
            assert(position(seq![s], s.id) == 0);
        }
        Ok(r)
    }
}

// ---------------------------------------------------------------------------
// Profiles of the user
// ---------------------------------------------------------------------------

/// Whether a file in the directory of the user's profiles is a profile.
pub fn is_profile_file(p: &str) -> (r: bool)
    ensures
        r == (path::extension(p@) == Some("toml"@)),
{
    match path::extension_of(p) {
        Some(e) => text::same_text(e.as_str(), "toml"),
        None => false,
    }
}

/// The error for a profile of the user that cannot be read.
pub fn user_profile_error(p: &str, reason: &Error) -> (r: Error)
    ensures
        r@ == ErrorView::Profile(
            "failed to parse user profile "@ + p@ + ": "@ + reason@.message(),
        ),
{
    Error::Profile(
        text::with(
            text::with(text::with(text::copy_str("failed to parse user profile "), p), ": "),
            &reason.to_string(),
        ),
    )
}

// ---------------------------------------------------------------------------
// Laws
// ---------------------------------------------------------------------------

/// Adding a profile overrides by id: it is what its id finds from then on,
/// every other id finds what it found before, and the order of the ids that
/// were there stays.
pub proof fn law_insert_overrides_by_id(ps: Seq<ProfileView>, p: ProfileView, id: Seq<char>)
    ensures
        find(with_profile(ps, p), p.id) == Some(p),
        id != p.id ==> find(with_profile(ps, p), id) == find(ps, id),
        distinct_ids(ps) ==> distinct_ids(with_profile(ps, p)),
        forall|i: int|
            0 <= i < ps.len() ==> (#[trigger] with_profile(ps, p)[i]).id == ps[i].id,
{
    let qs = with_profile(ps, p);
    lemma_position(ps, p.id);
    lemma_position(qs, p.id);
    lemma_position(ps, id);
    lemma_position(qs, id);
    let k = position(ps, p.id);
    if k < 0 {
        assert(qs[ps.len() as int] == p);
    } else {
        assert(qs[k] == p);
        let m = position(qs, p.id);
        if m > k {
            assert(qs[m] == ps[m]);
        }
    }
    if id != p.id {
        let a = position(ps, id);
        let b = position(qs, id);
        if a >= 0 {
            assert(qs[a] == ps[a]);
        }
        if b >= 0 {
            assert(b != k);
            assert(b < ps.len());
            assert(qs[b] == ps[b]);
        }
    }
}

/// A profile is detected for a source only by its markers, and the profiles
/// that come first win.
pub proof fn law_detection(ps: Seq<ProfileView>, root: Seq<char>, existing: Seq<Seq<char>>)
    ensures
        first_marked(ps, root, existing) >= 0 ==> detected(ps, root, existing).marked(root, existing),
        forall|j: int|
            0 <= j < ps.len() && j < first_marked(ps, root, existing) ==> !((#[trigger] ps[j]).match_rules.marker_paths.len() > 0
                && ps[j].marked(root, existing)),
        first_marked(ps, root, existing) < 0 ==> forall|j: int|
            0 <= j < ps.len() ==> !(#[trigger] ps[j]).marked(root, existing),
    decreases ps.len(),
{
    lemma_first_marked(ps, root, existing);
    if ps.len() > 0 {
        let t = ps.drop_last();
        law_detection(t, root, existing);
        lemma_first_marked(t, root, existing);
        assert forall|j: int|
            0 <= j < ps.len() && j < first_marked(ps, root, existing) implies !((#[trigger] ps[j]).match_rules.marker_paths.len()
            > 0 && ps[j].marked(root, existing)) by {
            assert(t[j] == ps[j]);
        }
        if first_marked(ps, root, existing) < 0 {
            assert forall|j: int| 0 <= j < ps.len() implies !(#[trigger] ps[j]).marked(
                root,
                existing,
            ) by {
                if j < ps.len() - 1 {
                    assert(t[j] == ps[j]);
                }
            }
        }
    }
}

/// Whether a camera has a marker that exists below a root.
pub open spec fn leaves_a_mark(p: CameraProfile, root: Seq<char>, existing: Seq<String>) -> bool {
    exists|i: int, k: int|
        #![trigger p.match_rules.marker_paths@[i], existing[k]]
        0 <= i < p.match_rules.marker_paths@.len() && 0 <= k < existing.len() && existing[k]@
            == path::join(root, p.match_rules.marker_paths@[i]@)
}

proof fn lemma_leaves_a_mark(p: CameraProfile, root: Seq<char>, existing: Seq<String>)
    ensures
        leaves_a_mark(p, root, existing) <==> p@.marked(root, text::texts(existing)),
{
    let ms = p@.match_rules.marker_paths;
    let es = text::texts(existing);
    if p@.marked(root, es) {
        let i = choose|i: int| 0 <= i < ms.len() && es.contains(path::join(root, #[trigger] ms[i]));
        let k = choose|k: int| 0 <= k < es.len() && es[k] == path::join(root, ms[i]);
        assert(p.match_rules.marker_paths@[i]@ == ms[i]);
        assert(existing[k]@ == es[k]);
    }
    if leaves_a_mark(p, root, existing) {
        let (i, k) = choose|i: int, k: int|
            #![trigger p.match_rules.marker_paths@[i], existing[k]]
            0 <= i < p.match_rules.marker_paths@.len() && 0 <= k < existing.len() && existing[k]@
                == path::join(root, p.match_rules.marker_paths@[i]@);
        assert(es[k] == path::join(root, ms[i]));
        assert(es.contains(path::join(root, ms[i])));
    }
}

/// The camera of a source is the first profile that has left a mark on it; where none has, it
/// is the generic one, and no other.
pub proof fn law_camera_is_the_first_that_left_a_mark(
    ps: Seq<CameraProfile>,
    root: Seq<char>,
    existing: Seq<String>,
    j: int,
)
    requires
        0 <= j < ps.len(),
    ensures
        leaves_a_mark(ps[j], root, existing) && (forall|k: int|
            0 <= k < j ==> !leaves_a_mark(#[trigger] ps[k], root, existing)) ==> detected(
            profiles_view(ps),
            root,
            text::texts(existing),
        ) == ps[j]@,
        (forall|k: int| 0 <= k < ps.len() ==> !leaves_a_mark(#[trigger] ps[k], root, existing))
            && ps[j].id@ == "dcim-generic"@ && distinct_ids(profiles_view(ps)) ==> detected(
            profiles_view(ps),
            root,
            text::texts(existing),
        ) == ps[j]@,
{
    let vs = profiles_view(ps);
    let es = text::texts(existing);
    law_detection(vs, root, es);
    lemma_first_marked(vs, root, es);
    lemma_position(vs, "dcim-generic"@);
    assert forall|k: int| 0 <= k < ps.len() implies (leaves_a_mark(#[trigger] ps[k], root, existing)
        <==> vs[k].marked(root, es)) by {
        lemma_leaves_a_mark(ps[k], root, existing);
    }
    let f = first_marked(vs, root, es);
    if leaves_a_mark(ps[j], root, existing) && (forall|k: int|
        0 <= k < j ==> !leaves_a_mark(#[trigger] ps[k], root, existing)) {
        assert(vs[j].marked(root, es));
        if f < 0 {
            assert(!vs[j].marked(root, es));
        }
        if 0 <= f < j {
            assert(!leaves_a_mark(ps[f], root, existing));
        }
        assert(vs[j].match_rules.marker_paths.len() > 0);
    }
    if (forall|k: int| 0 <= k < ps.len() ==> !leaves_a_mark(#[trigger] ps[k], root, existing))
        && ps[j].id@ == "dcim-generic"@ && distinct_ids(vs) {
        if f >= 0 {
            assert(!leaves_a_mark(ps[f], root, existing));
        }
        assert(vs[j].id == "dcim-generic"@);
        let g = position(vs, "dcim-generic"@);
        if g < j {
            assert(vs[j].id != "dcim-generic"@);
        }
        if j < g {
            assert(vs[j].id != vs[g].id);
        }
    }
}

/// A source is asked about every marker of every profile, below its root, in order.
pub proof fn law_every_marker_is_looked_for(
    ps: Seq<ProfileView>,
    root: Seq<char>,
    j: int,
    i: int,
)
    requires
        0 <= j < ps.len(),
        0 <= i < ps[j].match_rules.marker_paths.len(),
    ensures
        all_markers(ps, root).contains(path::join(root, ps[j].match_rules.marker_paths[i])),
    decreases ps.len(),
{
    let own = markers_under(root, ps.last().match_rules.marker_paths);
    let before = all_markers(ps.drop_last(), root);
    let all = all_markers(ps, root);
    let m = path::join(root, ps[j].match_rules.marker_paths[i]);
    if j == ps.len() - 1 {
        assert(own[i] == m);
        assert(all[before.len() + i] == m);
    } else {
        assert(ps.drop_last()[j] == ps[j]);
        law_every_marker_is_looked_for(ps.drop_last(), root, j, i);
        let k = choose|k: int| 0 <= k < before.len() && before[k] == m;
        assert(all[k] == m);
    }
}

/// The fallback has no markers, so it is never detected by one, and the other built-in profile
/// is told apart from it.
pub proof fn law_fallback_has_no_marker(root: Seq<char>, existing: Seq<Seq<char>>)
    ensures
        !generic_profile().marked(root, existing),
        generic_profile().id == "dcim-generic"@,
        sony_profile().match_rules.marker_paths.len() > 0,
        sony_profile().id != generic_profile().id,
{
    reveal_strlit("dcim-generic");
    reveal_strlit("sony-a7m4");
    assert(sony_profile().id.len() != generic_profile().id.len());
}

/// The extensions of a Sony card, each with what it is; a device without marks has these too,
/// with the raw formats of the other makers.
pub proof fn law_built_in_cameras_know_their_files(p: ProfileView)
    requires
        p == sony_profile() || p == generic_profile(),
    ensures
        p.raw_extensions.contains("ARW"@),
        p.image_extensions.contains("JPG"@) && p.image_extensions.contains("JPEG"@),
        p.image_extensions.contains("HEIF"@) && p.image_extensions.contains("HIF"@),
        p.video_extensions.contains("MP4"@) && p.video_extensions.contains("MTS"@),
        p.video_extensions.contains("M2TS"@),
        p.sidecar_extensions == seq!["XMP"@],
        p.dcim_subdirs.contains("DCIM"@),
{
    assert(p.raw_extensions[0] == "ARW"@);
    assert(p.image_extensions[0] == "JPG"@ && p.image_extensions[1] == "JPEG"@);
    assert(sony_profile().image_extensions[2] == "HEIF"@);
    assert(sony_profile().image_extensions[3] == "HIF"@);
    assert(generic_profile().image_extensions[3] == "HEIF"@);
    assert(generic_profile().image_extensions[4] == "HIF"@);
    assert(p.video_extensions[0] == "MP4"@);
    assert(sony_profile().video_extensions[1] == "MTS"@);
    assert(sony_profile().video_extensions[2] == "M2TS"@);
    assert(generic_profile().video_extensions[2] == "MTS"@);
    assert(generic_profile().video_extensions[3] == "M2TS"@);
    assert(p.dcim_subdirs[0] == "DCIM"@);
}

} // verus!
