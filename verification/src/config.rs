//! Configuration: what is stored, and what one run of the engine uses.

use vstd::prelude::*;
use crate::error::{Error, ErrorView, Result};
use crate::path::{self, NativePath, NativeView};
use crate::roots::{self, RootState};
use crate::template::{self, PathTemplate};
use crate::text;

verus! {

pub const CONFIG_FILENAME: &'static str = "config.toml";

pub const APP_NAME: &'static str = "imagesync";

/// Which images to keep.
#[derive(Debug, Clone, Copy, PartialEq, Eq, Structural)]
pub enum RawMode {
    All,
    RawOnly,
    NonRawOnly,
}

/// Which files to keep.
#[derive(Debug, Clone, Copy, PartialEq, Eq, Structural)]
pub struct FiltersConfig {
    pub raw_mode: RawMode,
    pub include_videos: bool,
    pub include_sidecars: bool,
}

impl Default for FiltersConfig {
    fn default() -> (r: Self)
        ensures
            r == (FiltersConfig {
                raw_mode: RawMode::All,
                include_videos: true,
                include_sidecars: true,
            }),
    {
        FiltersConfig { raw_mode: RawMode::All, include_videos: true, include_sidecars: true }
    }
}

/// How much to do at once.
#[derive(Debug, Clone, Copy, PartialEq, Eq, Structural)]
pub struct PerformanceConfig {
    /// 0 stands for the number of processors.
    pub scan_workers: usize,
    pub metadata_batch_size: usize,
    pub copy_workers: usize,
}

impl Default for PerformanceConfig {
    fn default() -> (r: Self)
        ensures
            r == (PerformanceConfig { scan_workers: 0, metadata_batch_size: 50, copy_workers: 1 }),
    {
        PerformanceConfig { scan_workers: 0, metadata_batch_size: 50, copy_workers: 1 }
    }
}

/// How copies are verified.
#[derive(Debug, Clone, Copy, PartialEq, Eq, Structural)]
pub enum VerifyAlgorithm {
    Off,
    Xxh3,
}

/// Whether copies are verified.
#[derive(Debug, Clone, Copy, PartialEq, Eq, Structural)]
pub struct VerifyConfig {
    pub enabled: bool,
    pub algorithm: VerifyAlgorithm,
}

impl Default for VerifyConfig {
    fn default() -> (r: Self)
        ensures
            r == (VerifyConfig { enabled: false, algorithm: VerifyAlgorithm::Xxh3 }),
    {
        VerifyConfig { enabled: false, algorithm: VerifyAlgorithm::Xxh3 }
    }
}

/// Which camera profile to use: `auto` or an id.
#[derive(Debug)]
pub struct ProfilesConfig {
    pub default: String,
}

impl View for ProfilesConfig {
    type V = Seq<char>;

    open spec fn view(&self) -> Seq<char> {
        self.default@
    }
}

impl Default for ProfilesConfig {
    fn default() -> (r: Self)
        ensures
            r@ == "auto"@,
    {
        ProfilesConfig { default: text::copy_str("auto") }
    }
}

impl Clone for ProfilesConfig {
    fn clone(&self) -> (r: Self)
        ensures
            r@ == self@,
    {
        ProfilesConfig { default: self.default.clone() }
    }
}

#[derive(Debug, Clone, Copy, PartialEq, Eq, Structural)]
pub struct UiConfig {
    pub remember_last_sources: bool,
}

impl Default for UiConfig {
    fn default() -> (r: Self)
        ensures
            r == (UiConfig { remember_last_sources: true }),
    {
        UiConfig { remember_last_sources: true }
    }
}

/// A pair of libraries, one for images and one for videos, with the layout of
/// their folders.
#[derive(Debug)]
pub struct CatalogueConfig {
    pub images_root: String,
    pub videos_root: String,
    pub images_template: String,
    pub videos_template: String,
}

/// The contents of a [`CatalogueConfig`].
pub struct CatalogueView {
    pub images_root: Seq<char>,
    pub videos_root: Seq<char>,
    pub images_template: Seq<char>,
    pub videos_template: Seq<char>,
}

impl View for CatalogueConfig {
    type V = CatalogueView;

    open spec fn view(&self) -> CatalogueView {
        CatalogueView {
            images_root: self.images_root@,
            videos_root: self.videos_root@,
            images_template: self.images_template@,
            videos_template: self.videos_template@,
        }
    }
}

impl Clone for CatalogueConfig {
    fn clone(&self) -> (r: Self)
        ensures
            r@ == self@,
    {
        CatalogueConfig {
            images_root: self.images_root.clone(),
            videos_root: self.videos_root.clone(),
            images_template: self.images_template.clone(),
            videos_template: self.videos_template.clone(),
        }
    }
}

// ---------------------------------------------------------------------------
// Catalogues by name
// ---------------------------------------------------------------------------

/// A named catalogue.
pub type Entry = (Seq<char>, CatalogueView);

/// Named catalogues in the order of their names. Its view lists them.
#[derive(Debug)]
pub struct CatalogueMap {
    names: Vec<String>,
    catalogues: Vec<CatalogueConfig>,
}

spec fn entries_of(names: Seq<String>, catalogues: Seq<CatalogueConfig>) -> Seq<Entry> {
    Seq::new(names.len(), |i: int| (names[i]@, catalogues[i]@))
}

/// Names strictly ascend.
pub open spec fn ascending(es: Seq<Entry>) -> bool {
    forall|i: int, j: int|
        0 <= i < j < es.len() ==> text::text_before((#[trigger] es[i]).0, (#[trigger] es[j]).0)
}

/// How many of the first names come before `name`.
pub open spec fn rank(es: Seq<Entry>, name: Seq<char>) -> int
    decreases es.len(),
{
    if es.len() == 0 || !text::text_before(es[0].0, name) {
        0
    } else {
        1 + rank(es.skip(1), name)
    }
}

/// The catalogues after one was stored under a name, in place of any that had
/// the same name.
pub open spec fn stored(es: Seq<Entry>, name: Seq<char>, c: CatalogueView) -> Seq<Entry> {
    let n = rank(es, name);
    if n < es.len() && es[n].0 == name {
        es.update(n, (name, c))
    } else {
        es.insert(n, (name, c))
    }
}

proof fn lemma_rank_is(es: Seq<Entry>, name: Seq<char>, n: int)
    requires
        0 <= n <= es.len(),
        forall|i: int| 0 <= i < n ==> text::text_before((#[trigger] es[i]).0, name),
        n < es.len() ==> !text::text_before(es[n].0, name),
    ensures
        rank(es, name) == n,
    decreases n,
{
    if n > 0 {
        assert(es[0] == es[0]);
        let t = es.skip(1);
        assert forall|i: int| 0 <= i < n - 1 implies text::text_before((#[trigger] t[i]).0, name) by {
            assert(t[i] == es[i + 1]);
        }
        lemma_rank_is(t, name, n - 1);
    }
}

/// Where a name ranks.
pub proof fn lemma_rank(es: Seq<Entry>, name: Seq<char>)
    ensures
        0 <= rank(es, name) <= es.len(),
        forall|i: int| 0 <= i < rank(es, name) ==> text::text_before((#[trigger] es[i]).0, name),
        rank(es, name) < es.len() ==> !text::text_before(es[rank(es, name)].0, name),
    decreases es.len(),
{
    if es.len() > 0 && text::text_before(es[0].0, name) {
        let t = es.skip(1);
        lemma_rank(t, name);
        assert forall|i: int| 0 <= i < rank(es, name) implies text::text_before(
            (#[trigger] es[i]).0,
            name,
        ) by {
            if i > 0 {
                assert(t[i - 1] == es[i]);
            }
        }
    }
}

/// Storing keeps the names ascending.
pub proof fn law_stored_ascending(es: Seq<Entry>, name: Seq<char>, c: CatalogueView)
    requires
        ascending(es),
    ensures
        ascending(stored(es, name, c)),
{
    let n = rank(es, name);
    lemma_rank(es, name);
    let r = stored(es, name, c);
    if n < es.len() {
        text::lemma_text_order_total(es[n].0, name);
    }
    assert forall|i: int, j: int| 0 <= i < j < r.len() implies text::text_before(
        (#[trigger] r[i]).0,
        (#[trigger] r[j]).0,
    ) by {
        if n < es.len() && es[n].0 == name {
            assert(r[i].0 == es[i].0);
            assert(r[j].0 == es[j].0);
        } else {
            if j < n {
                assert(r[i] == es[i] && r[j] == es[j]);
            } else if j == n {
                assert(r[i] == es[i]);
            } else if i == n {
                assert(r[j] == es[j - 1]);
                if j - 1 > n {
                    assert(text::text_before(es[n].0, es[j - 1].0));
                    text::lemma_text_order_transitive(name, es[n].0, es[j - 1].0);
                }
            } else if i > n {
                assert(r[i] == es[i - 1] && r[j] == es[j - 1]);
            } else {
                assert(r[i] == es[i] && r[j] == es[j - 1]);
            }
        }
    }
}

impl View for CatalogueMap {
    type V = Seq<Entry>;

    closed spec fn view(&self) -> Seq<Entry> {
        entries_of(self.names@, self.catalogues@)
    }
}

impl Default for CatalogueMap {
    fn default() -> (r: Self)
        ensures
            r@ == Seq::<Entry>::empty(),
    {
        let r = CatalogueMap { names: Vec::new(), catalogues: Vec::new() };
        proof {
            assert(r@ =~= Seq::<Entry>::empty());
        }
        r
    }
}

impl CatalogueMap {
    #[verifier::type_invariant]
    spec fn in_order(self) -> bool {
        &&& self.names@.len() == self.catalogues@.len()
        &&& ascending(entries_of(self.names@, self.catalogues@))
    }

    /// No catalogues.
    pub fn new() -> (r: Self)
        ensures
            r@ == Seq::<Entry>::empty(),
    {
        CatalogueMap::default()
    }

    /// How many catalogues there are.
    pub fn len(&self) -> (r: usize)
        ensures
            r == self@.len(),
    {
        self.names.len()
    }

    /// Whether there are no catalogues.
    pub fn is_empty(&self) -> (r: bool)
        ensures
            r == (self@.len() == 0),
    {
        self.names.len() == 0
    }

    /// The name at a position in the order of names.
    pub fn name_at(&self, i: usize) -> (r: &str)
        requires
            i < self@.len(),
        ensures
            r@ == self@[i as int].0,
    {
        self.names[i].as_str()
    }

    /// The catalogue at a position in the order of names.
    pub fn at(&self, i: usize) -> (r: &CatalogueConfig)
        requires
            i < self@.len(),
        ensures
            r@ == self@[i as int].1,
    {
        proof {
            use_type_invariant(self);
        }
        &self.catalogues[i]
    }

    /// The names in order.
    pub fn keys(&self) -> (r: Vec<String>)
        ensures
            text::texts(r@) == names_of(self@),
    {
        let r = text::copy_all(&self.names);
        proof {
            assert(text::texts(r@) =~= names_of(self@));
        }
        r
    }

    /// Where a name stands.
    fn find(&self, name: &str) -> (r: (usize, bool))
        ensures
            r.0 == rank(self@, name@),
            r.0 <= self@.len(),
            r.1 <==> r.0 < self@.len() && self@[r.0 as int].0 == name@,
    {
        let mut n: usize = 0;
        while n < self.names.len() && text::less_text(self.names[n].as_str(), name)
            invariant
                n <= self.names@.len(),
                forall|i: int| 0 <= i < n ==> text::text_before((#[trigger] self@[i]).0, name@),
            decreases self.names@.len() - n,
        {
            n += 1;
        }
        proof {
            if n < self@.len() {
                assert(self@[n as int].0 == self.names@[n as int]@);
            }
            lemma_rank_is(self@, name@, n as int);
        }
        let here = n < self.names.len() && text::same_text(self.names[n].as_str(), name);
        (n, here)
    }

    /// Stores a catalogue under a name, in place of any that had the same name.
    pub fn insert(&mut self, name: String, catalogue: CatalogueConfig)
        ensures
            final(self)@ == stored(old(self)@, name@, catalogue@),
            ascending(final(self)@),
    {
        proof {
            use_type_invariant(&*self);
            law_stored_ascending(self@, name@, catalogue@);
        }
        let (n, here) = self.find(name.as_str());
        let ghost before = self@;
        let ghost c = catalogue@;
        let ghost key = name@;
        let mut r = CatalogueMap { names: Vec::new(), catalogues: Vec::new() };
        std::mem::swap(&mut r, self);
        let CatalogueMap { names: mut names, catalogues: mut catalogues } = r;
        if here {
            catalogues.set(n, catalogue);
        } else {
            names.insert(n, name);
            catalogues.insert(n, catalogue);
        }
        proof {
            assert(entries_of(names@, catalogues@) =~= stored(before, key, c));
        }
        *self = CatalogueMap { names, catalogues };
    }

    /// The catalogue stored under exactly this name.
    pub fn get(&self, name: &str) -> (r: Option<&CatalogueConfig>)
        ensures
            match r {
                Some(c) => self@.contains((name@, c@)),
                None => !names_of(self@).contains(name@),
            },
    {
        proof {
            use_type_invariant(self);
        }
        let (n, here) = self.find(name);
        if here {
            proof {
                assert(self@[n as int] == (name@, self.catalogues@[n as int]@));
            }
            Some(&self.catalogues[n])
        } else {
            proof {
                lemma_rank(self@, name@);
                if names_of(self@).contains(name@) {
                    let k = choose|k: int| 0 <= k < names_of(self@).len() && names_of(self@)[k] == name@;
                    assert(self@[k].0 == name@);
                    text::lemma_text_order_total(name@, name@);
                    if k > n {
                        assert(text::text_before(self@[n as int].0, self@[k].0));
                    }
                }
            }
            None
        }
    }

    /// Whether a catalogue is stored under exactly this name.
    pub fn contains_key(&self, name: &str) -> (r: bool)
        ensures
            r == names_of(self@).contains(name@),
    {
        match self.get(name) {
            Some(c) => {
                proof {
                    let k = choose|k: int| 0 <= k < self@.len() && self@[k] == (name@, c@);
                    assert(names_of(self@)[k] == name@);
                }
                true
            },
            None => false,
        }
    }
}

/// The names of catalogues.
pub open spec fn names_of(es: Seq<Entry>) -> Seq<Seq<char>> {
    es.map_values(|e: Entry| e.0)
}

fn copy_catalogues(v: &Vec<CatalogueConfig>) -> (r: Vec<CatalogueConfig>)
    ensures
        r@.len() == v@.len(),
        forall|i: int| 0 <= i < v@.len() ==> (#[trigger] r@[i])@ == v@[i]@,
{
    let mut out: Vec<CatalogueConfig> = Vec::new();
    let mut i: usize = 0;
    while i < v.len()
        invariant
            i <= v@.len(),
            out@.len() == i,
            forall|k: int| 0 <= k < i ==> (#[trigger] out@[k])@ == v@[k]@,
        decreases v@.len() - i,
    {
        out.push(v[i].clone());
        i += 1;
    }
    out
}

impl Clone for CatalogueMap {
    fn clone(&self) -> (r: Self)
        ensures
            r@ == self@,
    {
        proof {
            use_type_invariant(self);
        }
        let names = text::copy_all(&self.names);
        let catalogues = copy_catalogues(&self.catalogues);
        proof {
            assert(text::texts(names@).len() == text::texts(self.names@).len());
            assert forall|i: int| 0 <= i < names@.len() implies names@[i]@ == self.names@[i]@ by {
                assert(text::texts(names@)[i] == names@[i]@);
                assert(text::texts(self.names@)[i] == self.names@[i]@);
            }
            assert(entries_of(names@, catalogues@) =~= self@);
        }
        CatalogueMap { names, catalogues }
    }
}

// ---------------------------------------------------------------------------
// The stored configuration
// ---------------------------------------------------------------------------

/// What is stored on disk.
#[derive(Debug)]
pub struct AppConfig {
    pub catalogues: CatalogueMap,
    pub filters: FiltersConfig,
    pub performance: PerformanceConfig,
    pub verify: VerifyConfig,
    pub profiles: ProfilesConfig,
    pub ui: UiConfig,
}

/// The contents of an [`AppConfig`].
pub struct AppConfigView {
    pub catalogues: Seq<Entry>,
    pub filters: FiltersConfig,
    pub performance: PerformanceConfig,
    pub verify: VerifyConfig,
    pub profiles: Seq<char>,
    pub ui: UiConfig,
}

impl View for AppConfig {
    type V = AppConfigView;

    open spec fn view(&self) -> AppConfigView {
        AppConfigView {
            catalogues: self.catalogues@,
            filters: self.filters,
            performance: self.performance,
            verify: self.verify,
            profiles: self.profiles@,
            ui: self.ui,
        }
    }
}

/// The configuration of a new installation.
pub open spec fn default_config() -> AppConfigView {
    AppConfigView {
        catalogues: Seq::empty(),
        filters: FiltersConfig {
            raw_mode: RawMode::All,
            include_videos: true,
            include_sidecars: true,
        },
        performance: PerformanceConfig {
            scan_workers: 0,
            metadata_batch_size: 50,
            copy_workers: 1,
        },
        verify: VerifyConfig { enabled: false, algorithm: VerifyAlgorithm::Xxh3 },
        profiles: "auto"@,
        ui: UiConfig { remember_last_sources: true },
    }
}

impl Default for AppConfig {
    fn default() -> (r: Self)
        ensures
            r@ == default_config(),
    {
        AppConfig {
            catalogues: CatalogueMap::default(),
            filters: FiltersConfig::default(),
            performance: PerformanceConfig::default(),
            verify: VerifyConfig::default(),
            profiles: ProfilesConfig::default(),
            ui: UiConfig::default(),
        }
    }
}

impl Clone for AppConfig {
    fn clone(&self) -> (r: Self)
        ensures
            r@ == self@,
    {
        AppConfig {
            catalogues: self.catalogues.clone(),
            filters: self.filters,
            performance: self.performance,
            verify: self.verify,
            profiles: self.profiles.clone(),
            ui: self.ui,
        }
    }
}

/// The first catalogue whose name is `name` up to the case of ASCII letters,
/// or the number of catalogues.
pub open spec fn lookup(es: Seq<Entry>, name: Seq<char>) -> int
    decreases es.len(),
{
    if es.len() == 0 || text::same_ignoring_case(es[0].0, name) {
        0
    } else {
        1 + lookup(es.skip(1), name)
    }
}

/// The names that a user can choose from, in words.
pub open spec fn available(es: Seq<Entry>) -> Seq<char> {
    if es.len() == 0 {
        "none"@
    } else {
        text::join(names_of(es), ", "@)
    }
}

/// The answer to a name that no catalogue has.
pub open spec fn not_found(es: Seq<Entry>, requested: Seq<char>) -> ErrorView {
    ErrorView::Config(
        "catalogue \""@ + requested + "\" not found; available: "@ + available(es),
    )
}

/// Why the folder formats of a catalogue are refused.
pub open spec fn formats_fault(name: Seq<char>, c: CatalogueView) -> Option<ErrorView> {
    if template::fault(c.images_template) is Some {
        Some(
            ErrorView::Config(
                "catalogue \""@ + name + "\" images folder format is invalid: "@ + (
                ErrorView::Template {
                    template: c.images_template,
                    message: template::fault(c.images_template)->0,
                }).message(),
            ),
        )
    } else if template::fault(c.videos_template) is Some {
        Some(
            ErrorView::Config(
                "catalogue \""@ + name + "\" videos folder format is invalid: "@ + (
                ErrorView::Template {
                    template: c.videos_template,
                    message: template::fault(c.videos_template)->0,
                }).message(),
            ),
        )
    } else {
        None
    }
}

/// The answer to a name that another catalogue has.
pub open spec fn conflict(name: Seq<char>, existing: Seq<char>) -> ErrorView {
    ErrorView::Config(
        "catalogue name \""@ + name + "\" conflicts with existing catalogue \""@ + existing + "\""@,
    )
}

/// Why a new catalogue is refused. `name` has no white space at its ends.
pub open spec fn insert_fault(
    es: Seq<Entry>,
    name: Seq<char>,
    c: CatalogueView,
    images: RootState,
    videos: RootState,
) -> Option<ErrorView> {
    if name.len() == 0 {
        Some(ErrorView::Config("catalogue name must not be empty"@))
    } else if lookup(es, name) < es.len() {
        Some(conflict(name, es[lookup(es, name)].0))
    } else if formats_fault(name, c) is Some {
        formats_fault(name, c)
    } else if roots::root_fault(c.images_root, "images_root"@, images) is Some {
        roots::root_fault(c.images_root, "images_root"@, images)
    } else {
        roots::root_fault(c.videos_root, "videos_root"@, videos)
    }
}

/// What is wrong with the stored catalogue at a position.
pub open spec fn stored_fault(es: Seq<Entry>, i: int) -> Option<ErrorView> {
    let name = es[i].0;
    if name.len() == 0 || text::trimmed(name) != name {
        Some(
            ErrorView::Config(
                "catalogue name \""@ + name
                    + "\" must not be empty or contain outer whitespace"@,
            ),
        )
    } else if lookup(es.take(i), name) < i {
        Some(conflict(name, es[lookup(es.take(i), name)].0))
    } else {
        formats_fault(name, es[i].1)
    }
}

/// The first stored catalogue with a fault, or the number of catalogues.
pub open spec fn first_stored_fault(es: Seq<Entry>, i: int) -> int
    decreases es.len() - i,
{
    if i < 0 || i >= es.len() || stored_fault(es, i) is Some {
        i
    } else {
        first_stored_fault(es, i + 1)
    }
}

/// Whether all stored catalogues can be used.
pub open spec fn all_valid(es: Seq<Entry>) -> bool {
    forall|i: int| 0 <= i < es.len() ==> #[trigger] stored_fault(es, i) is None
}

proof fn lemma_lookup_is(es: Seq<Entry>, name: Seq<char>, n: int)
    requires
        0 <= n <= es.len(),
        forall|i: int| 0 <= i < n ==> !text::same_ignoring_case((#[trigger] es[i]).0, name),
        n < es.len() ==> text::same_ignoring_case(es[n].0, name),
    ensures
        lookup(es, name) == n,
    decreases n,
{
    if n > 0 {
        assert(es[0] == es[0]);
        let t = es.skip(1);
        assert forall|i: int| 0 <= i < n - 1 implies !text::same_ignoring_case(
            (#[trigger] t[i]).0,
            name,
        ) by {
            assert(t[i] == es[i + 1]);
        }
        lemma_lookup_is(t, name, n - 1);
    }
}

proof fn lemma_lookup(es: Seq<Entry>, name: Seq<char>)
    ensures
        0 <= lookup(es, name) <= es.len(),
        forall|i: int|
            0 <= i < lookup(es, name) ==> !text::same_ignoring_case((#[trigger] es[i]).0, name),
        lookup(es, name) < es.len() ==> text::same_ignoring_case(es[lookup(es, name)].0, name),
    decreases es.len(),
{
    if es.len() > 0 && !text::same_ignoring_case(es[0].0, name) {
        let t = es.skip(1);
        lemma_lookup(t, name);
        assert forall|i: int| 0 <= i < lookup(es, name) implies !text::same_ignoring_case(
            (#[trigger] es[i]).0,
            name,
        ) by {
            if i > 0 {
                assert(t[i - 1] == es[i]);
            }
        }
    }
}

fn first_named(map: &CatalogueMap, name: &str, limit: usize) -> (r: usize)
    requires
        limit <= map@.len(),
    ensures
        r == lookup(map@.take(limit as int), name@),
        r <= limit,
{
    let mut i: usize = 0;
    while i < limit && !text::eq_ignore_ascii_case(map.name_at(i), name)
        invariant
            i <= limit <= map@.len(),
            forall|k: int|
                0 <= k < i ==> !text::same_ignoring_case((#[trigger] map@[k]).0, name@),
        decreases limit - i,
    {
        i += 1;
    }
    proof {
        let t = map@.take(limit as int);
        assert forall|k: int| 0 <= k < i implies !text::same_ignoring_case(
            (#[trigger] t[k]).0,
            name@,
        ) by {
            assert(t[k] == map@[k]);
        }
        lemma_lookup_is(t, name@, i as int);
    }
    i
}

fn config_error(a: &str, name: &str, b: &str, rest: &str) -> (r: Error)
    ensures
        r@ == ErrorView::Config(a@ + name@ + b@ + rest@),
{
    let mut s = text::copy_str(a);
    s.append(name);
    s.append(b);
    s.append(rest);
    Error::Config(s)
}

fn conflict_error(name: &str, existing: &str) -> (r: Error)
    ensures
        r@ == conflict(name@, existing@),
{
    let mut s = text::copy_str("catalogue name \"");
    s.append(name);
    s.append("\" conflicts with existing catalogue \"");
    s.append(existing);
    s.append("\"");
    Error::Config(s)
}

fn validate_catalogue_templates(name: &str, catalogue: &CatalogueConfig) -> (r: Result<()>)
    ensures
        match formats_fault(name@, catalogue@) {
            None => r is Ok,
            Some(e) => r is Err && r->Err_0@ == e,
        },
{
    match PathTemplate::parse(catalogue.images_template.as_str()) {
        Ok(_) => {},
        Err(e) => {
            let shown = e.to_string();
            return Err(
                config_error(
                    "catalogue \"",
                    name,
                    "\" images folder format is invalid: ",
                    shown.as_str(),
                ),
            );
        },
    }
    match PathTemplate::parse(catalogue.videos_template.as_str()) {
        Ok(_) => Ok(()),
        Err(e) => {
            let shown = e.to_string();
            Err(
                config_error(
                    "catalogue \"",
                    name,
                    "\" videos folder format is invalid: ",
                    shown.as_str(),
                ),
            )
        },
    }
}

impl AppConfig {
    /// The catalogue with a name. White space round the name and the case of
    /// its ASCII letters do not matter.
    pub fn catalogue(&self, name: &str) -> (r: Result<&CatalogueConfig>)
        ensures
            ({
                let es = self@.catalogues;
                let requested = text::trimmed(name@);
                let i = lookup(es, requested);
                if i < es.len() {
                    r is Ok && r->Ok_0@ == es[i].1
                } else {
                    r is Err && r->Err_0@ == not_found(es, requested)
                }
            }),
    {
        let requested = text::trim(name);
        let n: usize = self.catalogues.len();
        let i: usize = first_named(&self.catalogues, requested.as_str(), n);
        proof {
            assert(self@.catalogues.take(n as int) =~= self@.catalogues);
        }
        if i < n {
            return Ok(self.catalogues.at(i));
        }
        let choices = if self.catalogues.is_empty() {
            text::copy_str("none")
        } else {
            text::join_with(&self.catalogues.keys(), ", ")
        };
        Err(
            config_error(
                "catalogue \"",
                requested.as_str(),
                "\" not found; available: ",
                choices.as_str(),
            ),
        )
    }

    /// Adds a catalogue under a name that no other has, up to white space
    /// round it and the case of ASCII letters. `images` and `videos` tell what
    /// the file system says of its two roots. Nothing changes where it is
    /// refused.
    pub fn insert_catalogue(
        &mut self,
        name: &str,
        catalogue: CatalogueConfig,
        images: &RootState,
        videos: &RootState,
    ) -> (r: Result<String>)
        ensures
            ({
                let es = old(self)@.catalogues;
                let key = text::trimmed(name@);
                match insert_fault(es, key, catalogue@, *images, *videos) {
                    None => r is Ok && r->Ok_0@ == key && final(self)@ == (AppConfigView {
                        catalogues: stored(es, key, catalogue@),
                        ..old(self)@
                    }),
                    Some(e) => r is Err && r->Err_0@ == e && final(self)@ == old(self)@,
                }
            }),
    {
        let key = text::trim(name);
        let ghost es = self@.catalogues;
        if key.as_str().unicode_len() == 0 {
            return Err(Error::Config(text::copy_str("catalogue name must not be empty")));
        }
        let n: usize = self.catalogues.len();
        let i: usize = first_named(&self.catalogues, key.as_str(), n);
        proof {
            assert(es.take(n as int) =~= es);
        }
        if i < n {
            return Err(conflict_error(key.as_str(), self.catalogues.name_at(i)));
        }
        match validate_catalogue_templates(key.as_str(), &catalogue) {
            Ok(_) => {},
            Err(e) => {
                return Err(e);
            },
        }
        match roots::check_dest_root(catalogue.images_root.as_str(), "images_root", images) {
            Ok(_) => {},
            Err(e) => {
                return Err(e);
            },
        }
        match roots::check_dest_root(catalogue.videos_root.as_str(), "videos_root", videos) {
            Ok(_) => {},
            Err(e) => {
                return Err(e);
            },
        }
        self.catalogues.insert(key.clone(), catalogue);
        Ok(key)
    }

    /// Accepts a loaded configuration only if every catalogue has a name
    /// without outer white space that no other has, and good folder formats.
    pub fn validate_catalogues(&self) -> (r: Result<()>)
        ensures
            ({
                let es = self@.catalogues;
                let i = first_stored_fault(es, 0);
                if i < es.len() {
                    r is Err && r->Err_0@ == stored_fault(es, i)->0
                } else {
                    r is Ok
                }
            }),
    {
        let mut i: usize = 0;
        let ghost es = self@.catalogues;
        while i < self.catalogues.len()
            invariant
                i <= es.len(),
                es == self@.catalogues,
                first_stored_fault(es, 0) == first_stored_fault(es, i as int),
            decreases es.len() - i,
        {
            let name = self.catalogues.name_at(i);
            let inner = text::trim(name);
            if name.unicode_len() == 0 || !text::same_text(inner.as_str(), name) {
                let mut message = text::copy_str("catalogue name \"");
                message.append(name);
                message.append("\" must not be empty or contain outer whitespace");
                return Err(Error::Config(message));
            }
            let k: usize = first_named(&self.catalogues, name, i);
            if k < i {
                return Err(conflict_error(name, self.catalogues.name_at(k)));
            }
            match validate_catalogue_templates(name, self.catalogues.at(i)) {
                Ok(_) => {},
                Err(e) => {
                    return Err(e);
                },
            }
            i += 1;
        }
        Ok(())
    }
}

// ---------------------------------------------------------------------------
// The configuration of one run
// ---------------------------------------------------------------------------

/// What one run of the engine uses.
#[derive(Debug)]
pub struct EngineConfig {
    pub images_root: String,
    pub videos_root: String,
    pub images_template: String,
    pub videos_template: String,
    pub filters: FiltersConfig,
    pub performance: PerformanceConfig,
    pub verify: VerifyConfig,
    /// What to warn of when the run starts.
    pub template_warnings: Vec<String>,
}

/// The contents of an [`EngineConfig`].
pub struct EngineConfigView {
    pub images_root: Seq<char>,
    pub videos_root: Seq<char>,
    pub images_template: Seq<char>,
    pub videos_template: Seq<char>,
    pub filters: FiltersConfig,
    pub performance: PerformanceConfig,
    pub verify: VerifyConfig,
    pub template_warnings: Seq<Seq<char>>,
}

impl View for EngineConfig {
    type V = EngineConfigView;

    open spec fn view(&self) -> EngineConfigView {
        EngineConfigView {
            images_root: self.images_root@,
            videos_root: self.videos_root@,
            images_template: self.images_template@,
            videos_template: self.videos_template@,
            filters: self.filters,
            performance: self.performance,
            verify: self.verify,
            template_warnings: text::texts(self.template_warnings@),
        }
    }
}

impl Clone for EngineConfig {
    fn clone(&self) -> (r: Self)
        ensures
            r@ == self@,
    {
        EngineConfig {
            images_root: self.images_root.clone(),
            videos_root: self.videos_root.clone(),
            images_template: self.images_template.clone(),
            videos_template: self.videos_template.clone(),
            filters: self.filters,
            performance: self.performance,
            verify: self.verify,
            template_warnings: text::copy_all(&self.template_warnings),
        }
    }
}

/// A name of an application that stays as it is on every platform: small letters only.
pub open spec fn is_plain_application(name: Seq<char>) -> bool {
    name.len() > 0 && forall|i: int| 0 <= i < name.len() ==> 'a' <= #[trigger] name[i] && name[i] <= 'z'
}

/// `directories::ProjectDirs::from` and `config_dir`: the directory where the platform keeps
/// the configuration of an application. Its path holds the name of the application, where
/// that is made of small letters. Which directory it is otherwise, and whether there is one,
/// depends on the platform and the environment, so no more is claimed of it.
#[verifier::external_body]
fn project_config_dir(application: &str) -> (r: Option<NativePath>)
    ensures
        is_plain_application(application@) ==> (r matches Some(dir) ==> text::holds(
            dir@.text,
            application@,
        )),
{
    match directories::ProjectDirs::from("", "", application) {
        Some(dirs) => Some(
            NativePath {
                text: dirs.config_dir().to_string_lossy().into_owned(),
                bytes: dirs.config_dir().as_os_str().as_encoded_bytes().to_vec(),
            },
        ),
        None => None,
    }
}

impl AppConfig {
    /// Where the configuration is, given the directory for it.
    pub fn default_path_in(dir: &Option<NativePath>) -> (r: Option<NativePath>)
        ensures
            path::opt_native(r) == match path::opt_native(*dir) {
                Some(d) => Some(path::native_join(d, CONFIG_FILENAME@)),
                None => None,
            },
    {
        proof {
            reveal_strlit("config.toml");
        }
        match dir {
            Some(d) => Some(path::join_native(d, CONFIG_FILENAME)),
            None => None,
        }
    }

    /// Where the configuration is by default: in the platform's directory for this
    /// application, if it has one. The path of that directory holds the application's name.
    pub fn default_path() -> (r: Option<NativePath>)
        ensures
            r matches Some(p) ==> exists|dir: NativeView|
                p@ == #[trigger] path::native_join(dir, CONFIG_FILENAME@) && text::holds(
                    dir.text,
                    APP_NAME@,
                ),
    {
        proof {
            reveal_strlit("imagesync");
        }
        let dir = project_config_dir(APP_NAME);
        AppConfig::default_path_in(&dir)
    }
}

/// `num_cpus::get`: the number of processors of the machine, at least 1.
/// Which number it is depends on the machine.
#[verifier::external_body]
fn cpu_count() -> (r: usize)
    ensures
        r >= 1,
{
    num_cpus::get()
}

/// The configuration of a run on a catalogue with the stored settings.
pub open spec fn run_config(cfg: AppConfigView, c: CatalogueView) -> EngineConfigView {
    EngineConfigView {
        images_root: c.images_root,
        videos_root: c.videos_root,
        images_template: c.images_template,
        videos_template: c.videos_template,
        filters: cfg.filters,
        performance: cfg.performance,
        verify: cfg.verify,
        template_warnings: Seq::empty(),
    }
}

/// Why no run can be made on a catalogue.
pub open spec fn run_fault(es: Seq<Entry>, requested: Seq<char>) -> Option<ErrorView> {
    let i = lookup(es, requested);
    if i >= es.len() {
        Some(not_found(es, requested))
    } else if template::fault(es[i].1.images_template) is Some {
        Some(
            ErrorView::Template {
                template: es[i].1.images_template,
                message: template::fault(es[i].1.images_template)->0,
            },
        )
    } else if template::fault(es[i].1.videos_template) is Some {
        Some(
            ErrorView::Template {
                template: es[i].1.videos_template,
                message: template::fault(es[i].1.videos_template)->0,
            },
        )
    } else {
        None
    }
}

impl EngineConfig {
    /// The configuration of a run on the catalogue with a name, with the
    /// stored filters, performance and verification settings.
    pub fn try_from_catalogue(cfg: &AppConfig, catalogue_name: &str) -> (r: Result<Self>)
        ensures
            ({
                let es = cfg@.catalogues;
                let requested = text::trimmed(catalogue_name@);
                match run_fault(es, requested) {
                    None => r is Ok && r->Ok_0@ == run_config(cfg@, es[lookup(es, requested)].1),
                    Some(e) => r is Err && r->Err_0@ == e,
                }
            }),
    {
        let catalogue = match cfg.catalogue(catalogue_name) {
            Ok(c) => c,
            Err(e) => {
                return Err(e);
            },
        };
        match PathTemplate::parse(catalogue.images_template.as_str()) {
            Ok(_) => {},
            Err(e) => {
                return Err(e);
            },
        }
        match PathTemplate::parse(catalogue.videos_template.as_str()) {
            Ok(_) => {},
            Err(e) => {
                return Err(e);
            },
        }
        let r = EngineConfig {
            images_root: catalogue.images_root.clone(),
            videos_root: catalogue.videos_root.clone(),
            images_template: catalogue.images_template.clone(),
            videos_template: catalogue.videos_template.clone(),
            filters: cfg.filters,
            performance: cfg.performance,
            verify: cfg.verify,
            template_warnings: Vec::new(),
        };
        proof {
            assert(r@.template_warnings =~= Seq::<Seq<char>>::empty());
        }
        Ok(r)
    }

    /// How many files are scanned at once on a machine with `cpus` processors.
    pub fn scan_workers_on(&self, cpus: usize) -> (r: usize)
        ensures
            r == if self@.performance.scan_workers != 0 {
                self@.performance.scan_workers
            } else if cpus >= 1 {
                cpus
            } else {
                1
            },
    {
        if self.performance.scan_workers == 0 {
            if cpus >= 1 {
                cpus
            } else {
                1
            }
        } else {
            self.performance.scan_workers
        }
    }

    /// How many files are scanned at once on this machine.
    pub fn scan_workers(&self) -> (r: usize)
        ensures
            r >= 1,
            self@.performance.scan_workers != 0 ==> r == self@.performance.scan_workers,
    {
        let cpus: usize = cpu_count();
        self.scan_workers_on(cpus)
    }
}

// ---------------------------------------------------------------------------
// Laws
// ---------------------------------------------------------------------------

/// A catalogue that was added is found from then on under its name, whatever
/// the white space round the name and the case of its ASCII letters; what
/// other names find does not change.
pub proof fn law_inserted_catalogue_is_found(
    es: Seq<Entry>,
    key: Seq<char>,
    c: CatalogueView,
    name: Seq<char>,
)
    requires
        lookup(es, key) == es.len(),
    ensures
        text::same_ignoring_case(key, text::trimmed(name)) ==> ({
            let r = stored(es, key, c);
            let i = lookup(r, text::trimmed(name));
            i < r.len() && r[i] == (key, c)
        }),
        !text::same_ignoring_case(key, text::trimmed(name)) ==> ({
            let r = stored(es, key, c);
            let i = lookup(r, text::trimmed(name));
            let j = lookup(es, text::trimmed(name));
            (i < r.len() <==> j < es.len()) && (i < r.len() ==> r[i] == es[j])
        }),
{
    let r = stored(es, key, c);
    let asked = text::trimmed(name);
    let n = rank(es, key);
    lemma_rank(es, key);
    lemma_lookup(es, key);
    lemma_lookup(es, asked);
    if n < es.len() && es[n].0 == key {
        assert(text::same_ignoring_case(es[n].0, key));
    }
    assert(r == es.insert(n, (key, c)));
    if text::same_ignoring_case(key, asked) {
        assert forall|i: int| 0 <= i < n implies !text::same_ignoring_case(
            (#[trigger] r[i]).0,
            asked,
        ) by {
            assert(r[i] == es[i]);
        }
        lemma_lookup_is(r, asked, n);
    } else {
        let j = lookup(es, asked);
        let i = if j < n {
            j
        } else {
            j + 1
        };
        assert forall|k: int| 0 <= k < i implies !text::same_ignoring_case(
            (#[trigger] r[k]).0,
            asked,
        ) by {
            if k < n {
                assert(r[k] == es[k]);
            } else if k > n {
                assert(r[k] == es[k - 1]);
            }
        }
        if j < es.len() {
            assert(r[i] == es[j]);
        }
        lemma_lookup_is(r, asked, i);
    }
}

/// Adding a catalogue to a valid configuration gives a valid configuration.
pub proof fn law_insert_keeps_valid(
    es: Seq<Entry>,
    name: Seq<char>,
    c: CatalogueView,
    images: RootState,
    videos: RootState,
)
    requires
        ascending(es),
        all_valid(es),
        insert_fault(es, text::trimmed(name), c, images, videos) is None,
    ensures
        all_valid(stored(es, text::trimmed(name), c)),
        ascending(stored(es, text::trimmed(name), c)),
{
    let key = text::trimmed(name);
    text::lemma_trimmed_twice(name);
    law_stored_ascending(es, key, c);
    let r = stored(es, key, c);
    let n = rank(es, key);
    lemma_rank(es, key);
    lemma_lookup(es, key);
    if n < es.len() && es[n].0 == key {
        assert(text::same_ignoring_case(es[n].0, key));
    }
    assert(r == es.insert(n, (key, c)));
    assert forall|i: int| 0 <= i < r.len() implies #[trigger] stored_fault(r, i) is None by {
        let t = r.take(i);
        let own = r[i].0;
        let old_i = if i < n {
            i
        } else {
            i - 1
        };
        if i != n {
            assert(r[i] == es[old_i]);
            assert(stored_fault(es, old_i) is None);
            lemma_lookup(es.take(old_i), own);
        }
        assert forall|k: int| 0 <= k < i implies !text::same_ignoring_case(
            (#[trigger] t[k]).0,
            own,
        ) by {
            assert(t[k] == r[k]);
            if i == n {
                assert(r[k] == es[k]);
            } else if k == n {
                // The new name is like none of the old ones.
                assert(es[old_i].0 == own);
                if text::same_ignoring_case(key, own) {
                    assert(text::same_ignoring_case(es[old_i].0, key));
                }
            } else {
                let old_k = if k < n {
                    k
                } else {
                    k - 1
                };
                assert(r[k] == es[old_k]);
                assert(es.take(old_i)[old_k] == es[old_k]);
            }
        }
        lemma_lookup_is(t, own, i);
    }
}

/// Loading refuses a configuration exactly if one of its catalogues is bad.
pub proof fn law_valid_configurations_load(es: Seq<Entry>)
    ensures
        all_valid(es) <==> first_stored_fault(es, 0) == es.len(),
{
    lemma_first_stored_fault(es, 0);
}

proof fn lemma_first_stored_fault(es: Seq<Entry>, i: int)
    requires
        0 <= i <= es.len(),
    ensures
        i <= first_stored_fault(es, i) <= es.len(),
        forall|k: int| i <= k < first_stored_fault(es, i) ==> #[trigger] stored_fault(es, k) is None,
        first_stored_fault(es, i) < es.len() ==> stored_fault(es, first_stored_fault(es, i)) is Some,
    decreases es.len() - i,
{
    if i < es.len() && stored_fault(es, i) is None {
        lemma_first_stored_fault(es, i + 1);
    }
}

/// A run on a catalogue of a valid configuration is never refused for its
/// folder formats.
pub proof fn law_valid_catalogues_run(es: Seq<Entry>, requested: Seq<char>)
    requires
        all_valid(es),
    ensures
        run_fault(es, requested) is Some <==> lookup(es, requested) >= es.len(),
{
    lemma_lookup(es, requested);
    let i = lookup(es, requested);
    if i < es.len() {
        assert(stored_fault(es, i) is None);
    }
}

/// Whether two names differ at most in the case of ASCII letters.
pub open spec fn named_alike(a: Seq<char>, b: Seq<char>) -> bool {
    a.len() == b.len() && forall|i: int| 0 <= i < a.len() ==> text::alike(#[trigger] a[i], b[i])
}

/// A name finds the first catalogue that has it, up to the case of ASCII letters, and finds
/// none exactly where no catalogue has it.
pub proof fn law_names_find_their_catalogues(es: Seq<Entry>, name: Seq<char>, i: int)
    ensures
        0 <= lookup(es, name) <= es.len(),
        lookup(es, name) == es.len() <==> forall|k: int|
            0 <= k < es.len() ==> !named_alike((#[trigger] es[k]).0, name),
        0 <= i < es.len() && named_alike(es[i].0, name) && (forall|k: int|
            0 <= k < i ==> !named_alike((#[trigger] es[k]).0, name)) ==> lookup(es, name) == i,
{
    lemma_lookup(es, name);
    assert forall|k: int| 0 <= k < es.len() implies (named_alike((#[trigger] es[k]).0, name)
        <==> text::same_ignoring_case(es[k].0, name)) by {
        text::law_folded_texts_are_alike(es[k].0, name);
    }
    let n = lookup(es, name);
    if n < es.len() {
        assert(named_alike(es[n].0, name));
    }
    if 0 <= i < es.len() && named_alike(es[i].0, name) && (forall|k: int|
        0 <= k < i ==> !named_alike((#[trigger] es[k]).0, name)) {
        if n < i {
            assert(!named_alike(es[n].0, name));
        }
        if i < n {
            assert(!text::same_ignoring_case(es[i].0, name));
        }
    }
}

/// Only the entry at the rank of a name can have that name.
proof fn lemma_named_at_rank(es: Seq<Entry>, name: Seq<char>, k: int)
    requires
        ascending(es),
        0 <= k < es.len(),
        es[k].0 == name,
    ensures
        k == rank(es, name),
{
    lemma_rank(es, name);
    text::lemma_text_order_total(name, name);
    let n = rank(es, name);
    if k > n {
        assert(text::text_before(es[n].0, es[k].0));
    }
}

proof fn lemma_stored_from(es: Seq<Entry>, name: Seq<char>, c: CatalogueView, k: int)
    requires
        ascending(es),
        0 <= k < stored(es, name, c).len(),
    ensures
        stored(es, name, c)[k] == (name, c) || exists|m: int|
            0 <= m < es.len() && #[trigger] es[m] == stored(es, name, c)[k] && es[m].0 != name,
{
    lemma_rank(es, name);
    let n = rank(es, name);
    let r = stored(es, name, c);
    if k != n {
        let m = if k < n || (n < es.len() && es[n].0 == name) {
            k
        } else {
            k - 1
        };
        assert(es[m] == r[k]);
        if es[m].0 == name {
            lemma_named_at_rank(es, name, m);
        }
    }
}

proof fn lemma_stored_keeps(es: Seq<Entry>, name: Seq<char>, c: CatalogueView, k: int)
    requires
        0 <= k < es.len(),
        es[k].0 != name,
    ensures
        stored(es, name, c).contains(es[k]),
{
    lemma_rank(es, name);
    let n = rank(es, name);
    let r = stored(es, name, c);
    let m = if k < n || (n < es.len() && es[n].0 == name) {
        k
    } else {
        k + 1
    };
    assert(r[m] == es[k]);
}

/// Storing a catalogue puts it under its name, in place of what had exactly that name, and
/// changes nothing else.
pub proof fn law_storing_changes_one_name(
    es: Seq<Entry>,
    name: Seq<char>,
    c: CatalogueView,
    e: Entry,
)
    requires
        ascending(es),
    ensures
        stored(es, name, c).contains(e) <==> e == (name, c) || (es.contains(e) && e.0 != name),
{
    let r = stored(es, name, c);
    lemma_rank(es, name);
    assert(r[rank(es, name)] == (name, c));
    if r.contains(e) {
        let k = choose|k: int| 0 <= k < r.len() && r[k] == e;
        lemma_stored_from(es, name, c, k);
    }
    if es.contains(e) && e.0 != name {
        let k = choose|k: int| 0 <= k < es.len() && es[k] == e;
        lemma_stored_keeps(es, name, c, k);
    }
}

/// A new catalogue is taken exactly if it has a name that no other has, up to the case of ASCII
/// letters, both of its folder formats can be used and both of its roots are directories; and
/// where it is refused, it is for the first of these, in this order.
pub proof fn law_new_catalogues_are_checked(
    es: Seq<Entry>,
    name: Seq<char>,
    c: CatalogueConfig,
    images: RootState,
    videos: RootState,
)
    ensures
        ({
            let fault = insert_fault(es, name, c@, images, videos);
            let free = forall|k: int| 0 <= k < es.len() ==> !named_alike((#[trigger] es[k]).0, name);
            let formats = template::fault(c.images_template@) is None && template::fault(
                c.videos_template@,
            ) is None;
            &&& fault is None <==> name.len() > 0 && free && formats && images is Directory
                && videos is Directory
            &&& name.len() > 0 && free && formats && !(images is Directory) ==> fault
                == roots::root_fault(c.images_root@, "images_root"@, images)
            &&& name.len() > 0 && free && formats && images is Directory && !(videos is Directory)
                ==> fault == roots::root_fault(c.videos_root@, "videos_root"@, videos)
            &&& name.len() == 0 || !free || !formats ==> fault is Some && fault->0 is Config
        }),
{
    law_names_find_their_catalogues(es, name, 0);
}

/// A stored catalogue is good exactly if its name is not empty and has no white space at its
/// ends, no catalogue before it has that name, up to the case of ASCII letters, and both of its
/// folder formats can be used.
pub proof fn law_stored_catalogues_are_checked(es: Seq<Entry>, i: int)
    requires
        0 <= i < es.len(),
    ensures
        stored_fault(es, i) is None <==> {
            &&& es[i].0.len() > 0
            &&& !text::is_white_space(es[i].0[0])
            &&& !text::is_white_space(es[i].0.last())
            &&& forall|k: int| 0 <= k < i ==> !named_alike((#[trigger] es[k]).0, es[i].0)
            &&& template::fault(es[i].1.images_template) is None
            &&& template::fault(es[i].1.videos_template) is None
        },
        stored_fault(es, i) is Some ==> stored_fault(es, i)->0 is Config,
{
    let name = es[i].0;
    let t = es.take(i);
    law_names_find_their_catalogues(t, name, 0);
    let ends = text::law_trimming_takes_white_space(name);
    if name.len() > 0 {
        assert((text::trimmed(name) == name) == (!text::is_white_space(name[0])
            && !text::is_white_space(name.last()))) by {
            if text::trimmed(name) == name {
                assert(ends.1 - ends.0 == name.len());
            }
            if !text::is_white_space(name[0]) && !text::is_white_space(name.last()) {
                assert(ends.0 == 0);
                assert(ends.1 == name.len());
                assert(name.subrange(0, name.len() as int) =~= name);
            }
        }
    }
    assert forall|k: int| 0 <= k < i implies #[trigger] es[k] == t[k] by {}
    if forall|k: int| 0 <= k < i ==> !named_alike((#[trigger] es[k]).0, name) {
        assert forall|k: int| 0 <= k < t.len() implies !named_alike((#[trigger] t[k]).0, name) by {
            assert(!named_alike(es[k].0, name));
        }
    }
}

/// A run on a catalogue goes by the roots and the folder formats of the catalogue, each for its
/// own kind of file, and by the stored settings; it begins without warnings.
pub proof fn law_runs_go_by_their_catalogue(cfg: AppConfig, c: CatalogueConfig, r: EngineConfig)
    requires
        r@ == run_config(cfg@, c@),
    ensures
        r.images_root@ == c.images_root@,
        r.videos_root@ == c.videos_root@,
        r.images_template@ == c.images_template@,
        r.videos_template@ == c.videos_template@,
        r.filters == cfg.filters,
        r.performance == cfg.performance,
        r.verify == cfg.verify,
        r.template_warnings@.len() == 0,
{
    assert(text::texts(r.template_warnings@).len() == r.template_warnings@.len());
}

/// A run can be made exactly on a catalogue that is there and whose two folder formats can be
/// used.
pub proof fn law_runs_need_a_good_catalogue(es: Seq<Entry>, name: Seq<char>)
    ensures
        run_fault(es, name) is None <==> {
            &&& lookup(es, name) < es.len()
            &&& template::fault(es[lookup(es, name)].1.images_template) is None
            &&& template::fault(es[lookup(es, name)].1.videos_template) is None
        },
        (forall|k: int| 0 <= k < es.len() ==> !named_alike((#[trigger] es[k]).0, name)) ==> (
        run_fault(es, name) matches Some(ErrorView::Config(_))),
{
    law_names_find_their_catalogues(es, name, 0);
}

/// A new installation keeps every file, verifies nothing, copies one file at a time and asks
/// ExifTool about fifty at once.
pub proof fn law_defaults_leave_nothing_out()
    ensures
        ({
            let d = default_config();
            &&& d.catalogues.len() == 0
            &&& d.filters.raw_mode == RawMode::All
            &&& d.filters.include_videos && d.filters.include_sidecars
            &&& !d.verify.enabled
            &&& d.performance.copy_workers == 1
            &&& d.performance.metadata_batch_size == 50
            &&& d.performance.scan_workers == 0
        }),
{
}

/// A name that is refused is told together with the name that it conflicts with, and a name
/// that no catalogue has together with those that there are.
pub proof fn law_refusals_tell_the_names(
    es: Seq<Entry>,
    name: Seq<char>,
    c: CatalogueView,
    images: RootState,
    videos: RootState,
    k: int,
)
    requires
        0 <= k < es.len(),
        named_alike(es[k].0, name),
        forall|j: int| 0 <= j < k ==> !named_alike((#[trigger] es[j]).0, name),
        name.len() > 0,
    ensures
        insert_fault(es, name, c, images, videos) matches Some(ErrorView::Config(m)) && (
        "catalogue name \""@ + name).is_prefix_of(m) && ("\""@ + es[k].0 + "\""@).is_suffix_of(m),
{
    law_names_find_their_catalogues(es, name, k);
    let m = "catalogue name \""@ + name + "\" conflicts with existing catalogue \""@ + es[k].0
        + "\""@;
    let begin = "catalogue name \""@ + name;
    let end = "\""@ + es[k].0 + "\""@;
    assert(m.take(begin.len() as int) =~= begin);
    reveal_strlit("\" conflicts with existing catalogue \"");
    reveal_strlit("\"");
    assert(m.skip(m.len() - end.len()) =~= end);
}

/// A folder format that is refused is told with its catalogue, which of the two it is, and what
/// is wrong with it; the format for images is looked at first.
pub proof fn law_refusals_tell_the_format(name: Seq<char>, c: CatalogueView)
    ensures
        template::fault(c.images_template) matches Some(why) ==> (formats_fault(
            name,
            c,
        ) matches Some(ErrorView::Config(m)) && ("catalogue \""@ + name
            + "\" images folder format"@).is_prefix_of(m) && (c.images_template + "`: "@
            + why).is_suffix_of(m)),
        template::fault(c.images_template) is None ==> (template::fault(
            c.videos_template,
        ) matches Some(why) ==> (formats_fault(name, c) matches Some(ErrorView::Config(m)) && (
        "catalogue \""@ + name + "\" videos folder format"@).is_prefix_of(m) && (c.videos_template
            + "`: "@ + why).is_suffix_of(m))),
{
    reveal_strlit("\" images folder format");
    reveal_strlit("\" images folder format is invalid: ");
    reveal_strlit("\" videos folder format");
    reveal_strlit("\" videos folder format is invalid: ");
    if formats_fault(name, c) is Some {
        let m = formats_fault(name, c)->0->Config_0;
        if template::fault(c.images_template) is Some {
            let begin = "catalogue \""@ + name + "\" images folder format"@;
            let end = c.images_template + "`: "@ + template::fault(c.images_template)->0;
            assert(m.take(begin.len() as int) =~= begin);
            assert(m.skip(m.len() - end.len()) =~= end);
        } else {
            let begin = "catalogue \""@ + name + "\" videos folder format"@;
            let end = c.videos_template + "`: "@ + template::fault(c.videos_template)->0;
            assert(m.take(begin.len() as int) =~= begin);
            assert(m.skip(m.len() - end.len()) =~= end);
        }
    }
}

/// A catalogue that is not there is told with all the names that are there, in order, and a
/// format that a run cannot use is told as it is.
pub proof fn law_missing_catalogues_are_told(es: Seq<Entry>, name: Seq<char>)
    ensures
        lookup(es, name) >= es.len() ==> (run_fault(es, name) matches Some(ErrorView::Config(m))
            && ("catalogue \""@ + name).is_prefix_of(m) && (": "@ + if es.len() == 0 {
            "none"@
        } else {
            text::join(names_of(es), ", "@)
        }).is_suffix_of(m)),
        lookup(es, name) < es.len() ==> ({
            let c = es[lookup(es, name)].1;
            &&& template::fault(c.images_template) matches Some(why) ==> run_fault(es, name)
                == Some(ErrorView::Template { template: c.images_template, message: why })
            &&& template::fault(c.images_template) is None && template::fault(c.videos_template)
                is Some ==> run_fault(es, name) == Some(
                ErrorView::Template {
                    template: c.videos_template,
                    message: template::fault(c.videos_template)->0,
                },
            )
        }),
        names_of(es).len() == es.len(),
        forall|i: int| 0 <= i < es.len() ==> names_of(es)[i] == (#[trigger] es[i]).0,
{
    if lookup(es, name) >= es.len() {
        let m = run_fault(es, name)->0->Config_0;
        let begin = "catalogue \""@ + name;
        let end = ": "@ + available(es);
        reveal_strlit("\" not found; available: ");
        reveal_strlit(": ");
        assert(m.take(begin.len() as int) =~= begin);
        assert(m.skip(m.len() - end.len()) =~= end);
    }
}

} // verus!
