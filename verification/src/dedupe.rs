//! What is already at a destination: cached directory listings, in which the
//! names of this run's own files are reserved.

use vstd::prelude::*;
use vstd::hash_map::StringHashMap;
use crate::events::PlannedAction;
use crate::path;
use crate::text;

verus! {

/// An entry of a destination directory.
#[derive(Debug)]
pub struct DirEntry {
    /// The name as the directory spells it.
    pub actual_name: String,
    pub size: u64,
    pub is_file: bool,
}

/// The contents of a [`DirEntry`].
pub struct DirEntryView {
    pub actual_name: Seq<char>,
    pub size: u64,
    pub is_file: bool,
}

impl View for DirEntry {
    type V = DirEntryView;

    open spec fn view(&self) -> DirEntryView {
        DirEntryView { actual_name: self.actual_name@, size: self.size, is_file: self.is_file }
    }
}

/// The entries of a directory by lowercase name.
pub type Listing = Map<Seq<char>, DirEntryView>;

/// Listings by the normal spelling of the directory. `None` stands for a
/// directory that could not be read.
pub type Listings = Map<Seq<char>, Option<Listing>>;

/// The contents of a list of entries.
pub open spec fn entries_view(v: Seq<DirEntry>) -> Seq<DirEntryView> {
    v.map_values(|e: DirEntry| e@)
}

/// The entries by lowercase name. Of entries that differ in case alone the
/// last counts.
pub open spec fn listing(es: Seq<DirEntryView>) -> Listing
    decreases es.len(),
{
    if es.len() == 0 {
        Map::empty()
    } else {
        listing(es.drop_last()).insert(text::unicode_lower(es.last().actual_name), es.last())
    }
}

/// What a directory that was read or could not be read holds.
pub open spec fn opt_listing(v: Option<Vec<DirEntry>>) -> Option<Listing> {
    match v {
        Some(es) => Some(listing(entries_view(es@))),
        None => None,
    }
}

/// The entry that a name has in a directory, in whatever case.
pub open spec fn entry_at(c: Listings, dir: Seq<char>, name: Seq<char>) -> Option<DirEntryView> {
    let d = path::normal(dir);
    let n = text::unicode_lower(name);
    if c.contains_key(d) && c[d] is Some && c[d]->0.contains_key(n) {
        Some(c[d]->0[n])
    } else {
        None
    }
}

/// What to do with a file of a name and size, given what has its name already.
pub open spec fn verdict(
    entry: Option<DirEntryView>,
    name: Seq<char>,
    size: u64,
) -> (PlannedAction, Option<Seq<char>>) {
    match entry {
        None => (PlannedAction::Copy, None),
        Some(e) => if !e.is_file {
            (
                PlannedAction::Error,
                Some("destination path exists but is not a regular file: "@ + e.actual_name),
            )
        } else if e.size == size {
            if e.actual_name == name {
                (PlannedAction::SkipExists, Some("destination exists with same size"@))
            } else {
                (
                    PlannedAction::SkipExists,
                    Some(
                        "destination exists with same size (different case: "@ + e.actual_name
                            + ")"@,
                    ),
                )
            }
        } else {
            (
                PlannedAction::Error,
                Some(
                    "destination exists ("@ + e.actual_name + ") with different size: "@
                        + text::decimal(e.size as nat) + " vs source "@ + text::decimal(
                        size as nat,
                    ),
                ),
            )
        },
    }
}

/// What to do with a file that is to go to `dest`.
pub open spec fn decide(
    c: Listings,
    dest: Seq<char>,
    name: Seq<char>,
    size: u64,
) -> (PlannedAction, Option<Seq<char>>) {
    match path::parent(dest) {
        None => (PlannedAction::Copy, None),
        Some(dir) => verdict(entry_at(c, dir, name), name, size),
    }
}

/// The listings once a file of this run is to go to `dest`: its directory has
/// an entry for it from now on.
pub open spec fn reserved(c: Listings, dest: Seq<char>, name: Seq<char>, size: u64) -> Listings {
    match path::parent(dest) {
        None => c,
        Some(dir) => {
            let d = path::normal(dir);
            let before = if c.contains_key(d) && c[d] is Some {
                c[d]->0
            } else {
                Map::empty()
            };
            c.insert(
                d,
                Some(
                    before.insert(
                        text::unicode_lower(name),
                        DirEntryView { actual_name: name, size, is_file: true },
                    ),
                ),
            )
        },
    }
}

/// Cached listings of destination directories. The view holds them.
pub struct DedupeCache {
    /// Which directories are cached, and which of them could be read.
    readable: StringHashMap<bool>,
    /// The entries of all readable directories.
    entries: StringHashMap<DirEntry>,
}

spec fn dir_listing(entries: Map<Seq<char>, DirEntry>, dir: Seq<char>) -> Listing {
    Map::new(
        |n: Seq<char>| entries.contains_key(text::paired(dir, n)),
        |n: Seq<char>| entries[text::paired(dir, n)]@,
    )
}

spec fn cache_view(readable: Map<Seq<char>, bool>, entries: Map<Seq<char>, DirEntry>) -> Listings {
    Map::new(
        |d: Seq<char>| readable.contains_key(d),
        |d: Seq<char>|
            if readable[d] {
                Some(dir_listing(entries, d))
            } else {
                None
            },
    )
}

/// Only directories that could be read have entries.
spec fn entries_belong(readable: Map<Seq<char>, bool>, entries: Map<Seq<char>, DirEntry>) -> bool {
    forall|d: Seq<char>, n: Seq<char>|
        entries.contains_key(#[trigger] text::paired(d, n)) ==> readable.contains_key(d)
            && readable[d]
}

impl View for DedupeCache {
    type V = Listings;

    closed spec fn view(&self) -> Listings {
        cache_view(self.readable@, self.entries@)
    }
}

fn reason_verdict(entry: Option<&DirEntry>, name: &str, size: u64) -> (r: (
    PlannedAction,
    Option<String>,
))
    ensures
        ({
            let e = match entry {
                Some(e) => Some(e@),
                None => None,
            };
            r.0 == verdict(e, name@, size).0 && text::opt_text(r.1) == verdict(e, name@, size).1
        }),
{
    match entry {
        None => (PlannedAction::Copy, None),
        Some(e) => {
            if !e.is_file {
                let mut s = text::copy_str("destination path exists but is not a regular file: ");
                s.append(e.actual_name.as_str());
                (PlannedAction::Error, Some(s))
            } else if e.size == size {
                if text::same_text(e.actual_name.as_str(), name) {
                    (
                        PlannedAction::SkipExists,
                        Some(text::copy_str("destination exists with same size")),
                    )
                } else {
                    let mut s = text::copy_str(
                        "destination exists with same size (different case: ",
                    );
                    s.append(e.actual_name.as_str());
                    s.append(")");
                    (PlannedAction::SkipExists, Some(s))
                }
            } else {
                let mut s = text::copy_str("destination exists (");
                s.append(e.actual_name.as_str());
                s.append(") with different size: ");
                let there = text::decimal_text(e.size);
                s.append(there.as_str());
                s.append(" vs source ");
                let here = text::decimal_text(size);
                s.append(here.as_str());
                (PlannedAction::Error, Some(s))
            }
        },
    }
}

impl DedupeCache {
    #[verifier::type_invariant]
    spec fn is_consistent(self) -> bool {
        entries_belong(self.readable@, self.entries@)
    }

    /// A cache of no directory.
    pub fn new() -> (r: Self)
        ensures
            r@ == Map::<Seq<char>, Option<Listing>>::empty(),
    {
        let r = DedupeCache { readable: StringHashMap::new(), entries: StringHashMap::new() };
        proof {
            assert(r@ =~= Map::<Seq<char>, Option<Listing>>::empty());
        }
        r
    }

    /// The directory that must be read before a decision on `dest`, if any.
    pub fn wants(&self, dest: &str) -> (r: Option<String>)
        ensures
            match path::parent(dest@) {
                Some(dir) => if self@.contains_key(path::normal(dir)) {
                    r is None
                } else {
                    text::opt_text(r) == Some(dir)
                },
                None => r is None,
            },
    {
        match path::parent_of(dest) {
            Some(dir) => {
                let d = path::normalize(dir.as_str());
                if self.readable.contains_key(d.as_str()) {
                    None
                } else {
                    Some(dir)
                }
            },
            None => None,
        }
    }

    /// Caches what reading a directory gave; `None` if it cannot be read. A
    /// directory that is cached already stays as it is.
    pub fn load(&mut self, dir: &str, found: Option<Vec<DirEntry>>)
        ensures
            final(self)@ == if old(self)@.contains_key(path::normal(dir@)) {
                old(self)@
            } else {
                old(self)@.insert(path::normal(dir@), opt_listing(found))
            },
    {
        proof {
            use_type_invariant(&*self);
        }
        let d = path::normalize(dir);
        if self.readable.contains_key(d.as_str()) {
            return;
        }
        let ghost before = self@;
        let mut r = DedupeCache::new();
        std::mem::swap(&mut r, self);
        let DedupeCache { readable: mut readable, entries: mut entries } = r;
        match found {
            None => {
                readable.insert(d.clone(), false);
                proof {
                    assert(cache_view(readable@, entries@) =~= before.insert(d@, None));
                }
            },
            Some(es) => {
                let ghost entries0 = entries@;
                let ghost readable0 = readable@;
                readable.insert(d.clone(), true);
                proof {
                    assert(dir_listing(entries@, d@) =~= Map::<Seq<char>, DirEntryView>::empty());
                }
                Self::add_entries(&mut entries, d.as_str(), es);
                proof {
                    assert forall|x: Seq<char>, n: Seq<char>|
                        entries@.contains_key(#[trigger] text::paired(x, n)) implies readable@.contains_key(x)
                        && readable@[x] by {
                        if x != d@ {
                            assert(dir_listing(entries@, x) == dir_listing(entries0, x));
                            assert(dir_listing(entries@, x).contains_key(n));
                            assert(entries0.contains_key(text::paired(x, n)));
                        }
                    }
                    assert forall|x: Seq<char>| readable0.contains_key(x) implies dir_listing(
                        entries@,
                        x,
                    ) == dir_listing(entries0, x) by {
                        assert(x != d@);
                    }
                    assert(cache_view(readable@, entries@) =~= before.insert(
                        d@,
                        Some(listing(entries_view(es@))),
                    ));
                }
            },
        }
        *self = DedupeCache { readable, entries };
    }

    fn add_entries(entries: &mut StringHashMap<DirEntry>, dir: &str, es: Vec<DirEntry>)
        requires
            dir_listing(old(entries)@, dir@) == Map::<Seq<char>, DirEntryView>::empty(),
        ensures
            dir_listing(final(entries)@, dir@) == listing(entries_view(es@)),
            forall|x: Seq<char>|
                x != dir@ ==> #[trigger] dir_listing(final(entries)@, x) == dir_listing(
                    old(entries)@,
                    x,
                ),
    {
        let ghost all = entries_view(es@);
        let ghost start = entries@;
        let mut i: usize = 0;
        while i < es.len()
            invariant
                i <= es@.len(),
                all == entries_view(es@),
                dir_listing(entries@, dir@) == listing(all.take(i as int)),
                forall|x: Seq<char>|
                    x != dir@ ==> #[trigger] dir_listing(entries@, x) == dir_listing(start, x),
            decreases es@.len() - i,
        {
            proof {
                assert(all.take(i + 1).drop_last() =~= all.take(i as int));
                assert(all.take(i + 1).last() == es@[i as int]@);
            }
            let name = text::to_lowercase(es[i].actual_name.as_str());
            let key = text::paired_text(dir, name.as_str());
            let e = DirEntry {
                actual_name: es[i].actual_name.clone(),
                size: es[i].size,
                is_file: es[i].is_file,
            };
            proof {
                lemma_insert_entry(entries@, dir@, name@, e);
            }
            entries.insert(key, e);
            i += 1;
        }
        proof {
            assert(all.take(all.len() as int) =~= all);
        }
    }

    /// What to do with a file that is to go to `dest`, by the listings that
    /// are cached. A directory that is not cached counts as one that cannot be
    /// read, and so as one without the file.
    pub fn decide_action_with_reason(&self, dest: &str, source_name: &str, source_size: u64) -> (r:
        (PlannedAction, Option<String>))
        ensures
            r.0 == decide(self@, dest@, source_name@, source_size).0,
            text::opt_text(r.1) == decide(self@, dest@, source_name@, source_size).1,
    {
        proof {
            use_type_invariant(self);
        }
        match path::parent_of(dest) {
            None => (PlannedAction::Copy, None),
            Some(dir) => {
                let d = path::normalize(dir.as_str());
                let name = text::to_lowercase(source_name);
                let key = text::paired_text(d.as_str(), name.as_str());
                proof {
                    assert(self@.contains_key(d@) == self.readable@.contains_key(d@));
                    if self.entries@.contains_key(text::paired(d@, name@)) {
                        assert(dir_listing(self.entries@, d@).contains_key(name@));
                    }
                }
                reason_verdict(self.entries.get(key.as_str()), source_name, source_size)
            },
        }
    }

    /// Decides on a file that is to go to `dest` and, if it is to be copied,
    /// reserves its name there. From then on a file of the same name finds it
    /// as if it were in place already.
    pub fn reserve(&mut self, dest: &str, source_name: &str, source_size: u64) -> (r: (
        PlannedAction,
        Option<String>,
    ))
        ensures
            r.0 == decide(old(self)@, dest@, source_name@, source_size).0,
            text::opt_text(r.1) == decide(old(self)@, dest@, source_name@, source_size).1,
            final(self)@ == if r.0 == PlannedAction::Copy {
                reserved(old(self)@, dest@, source_name@, source_size)
            } else {
                old(self)@
            },
    {
        let verdict = self.decide_action_with_reason(dest, source_name, source_size);
        if verdict.0 == PlannedAction::Copy {
            self.add_reservation(dest, source_name, source_size);
        }
        verdict
    }

    fn add_reservation(&mut self, dest: &str, name: &str, size: u64)
        ensures
            final(self)@ == reserved(old(self)@, dest@, name@, size),
    {
        proof {
            use_type_invariant(&*self);
        }
        match path::parent_of(dest) {
            None => {},
            Some(dir) => {
                let d = path::normalize(dir.as_str());
                let lower = text::to_lowercase(name);
                let key = text::paired_text(d.as_str(), lower.as_str());
                let ghost before = self@;
                let mut r = DedupeCache::new();
                std::mem::swap(&mut r, self);
                let DedupeCache { readable: mut readable, entries: mut entries } = r;
                let ghost readable0 = readable@;
                let ghost entries0 = entries@;
                let e = DirEntry { actual_name: text::copy_str(name), size, is_file: true };
                proof {
                    lemma_insert_entry(entries@, d@, lower@, e);
                }
                entries.insert(key, e);
                readable.insert(d.clone(), true);
                proof {
                    assert forall|x: Seq<char>, n: Seq<char>|
                        entries@.contains_key(#[trigger] text::paired(x, n)) implies readable@.contains_key(x)
                        && readable@[x] by {
                        if x != d@ {
                            assert(dir_listing(entries@, x).contains_key(n));
                            assert(dir_listing(entries0, x).contains_key(n));
                            assert(entries0.contains_key(text::paired(x, n)));
                        }
                    }
                    if !(before.contains_key(d@) && before[d@] is Some) {
                        assert(dir_listing(entries0, d@) =~= Map::<Seq<char>, DirEntryView>::empty());
                    }
                    assert(cache_view(readable@, entries@) =~= reserved(
                        before,
                        dest@,
                        name@,
                        size,
                    ));
                }
                *self = DedupeCache { readable, entries };
            },
        }
    }
}

proof fn lemma_insert_entry(
    entries: Map<Seq<char>, DirEntry>,
    dir: Seq<char>,
    name: Seq<char>,
    e: DirEntry,
)
    ensures
        dir_listing(entries.insert(text::paired(dir, name), e), dir) == dir_listing(
            entries,
            dir,
        ).insert(name, e@),
        forall|x: Seq<char>|
            x != dir ==> #[trigger] dir_listing(entries.insert(text::paired(dir, name), e), x)
                == dir_listing(entries, x),
{
    let after = entries.insert(text::paired(dir, name), e);
    let a = dir_listing(after, dir);
    let b = dir_listing(entries, dir).insert(name, e@);
    assert forall|n: Seq<char>| a.contains_key(n) == b.contains_key(n) by {
        if text::paired(dir, n) == text::paired(dir, name) {
            text::lemma_paired_injective(dir, n, dir, name);
        }
    }
    assert forall|n: Seq<char>| a.contains_key(n) implies a[n] == b[n] by {
        if text::paired(dir, n) == text::paired(dir, name) {
            text::lemma_paired_injective(dir, n, dir, name);
        }
    }
    assert(a =~= b);
    assert forall|x: Seq<char>| x != dir implies #[trigger] dir_listing(after, x) == dir_listing(
        entries,
        x,
    ) by {
        assert forall|n: Seq<char>| text::paired(x, n) != text::paired(dir, name) by {
            if text::paired(x, n) == text::paired(dir, name) {
                text::lemma_paired_injective(x, n, dir, name);
            }
        }
        assert(dir_listing(after, x) =~= dir_listing(entries, x));
    }
}

// ---------------------------------------------------------------------------
// Laws
// ---------------------------------------------------------------------------

/// Once a name is reserved, no second file of that name, in any spelling that
/// has the same lowercase form, is ever to be copied to that directory: one of
/// the same size counts as there already, one of another size is an error.
pub proof fn law_reserved_name_is_never_overwritten(
    c: Listings,
    dest: Seq<char>,
    name: Seq<char>,
    size: u64,
    dest2: Seq<char>,
    name2: Seq<char>,
    size2: u64,
)
    requires
        path::parent(dest) is Some,
        path::parent(dest2) is Some,
        path::normal(path::parent(dest)->0) == path::normal(path::parent(dest2)->0),
        text::unicode_lower(name) == text::unicode_lower(name2),
    ensures
        ({
            let after = reserved(c, dest, name, size);
            let v = decide(after, dest2, name2, size2);
            &&& v.0 != PlannedAction::Copy
            &&& size2 == size ==> v.0 == PlannedAction::SkipExists
            &&& size2 != size ==> v.0 == PlannedAction::Error
        }),
{
}

/// Reserving a name changes no decision on another name or in another
/// directory.
pub proof fn law_reservation_is_local(
    c: Listings,
    dest: Seq<char>,
    name: Seq<char>,
    size: u64,
    dest2: Seq<char>,
    name2: Seq<char>,
    size2: u64,
)
    requires
        path::parent(dest) is Some,
        path::parent(dest2) is Some,
        path::normal(path::parent(dest)->0) != path::normal(path::parent(dest2)->0)
            || text::unicode_lower(name) != text::unicode_lower(name2),
    ensures
        decide(reserved(c, dest, name, size), dest2, name2, size2) == decide(
            c,
            dest2,
            name2,
            size2,
        ),
{
}

/// A file is only ever to be copied where nothing has its name, in any case,
/// as far as the directory could be read.
pub proof fn law_copy_only_into_free_place(c: Listings, dest: Seq<char>, name: Seq<char>, size: u64)
    requires
        path::parent(dest) is Some,
    ensures
        decide(c, dest, name, size).0 == PlannedAction::Copy <==> entry_at(
            c,
            path::parent(dest)->0,
            name,
        ) is None,
        decide(c, dest, name, size).0 != PlannedAction::Copy ==> decide(c, dest, name, size).1 is Some,
{
}

/// A file that is to go to a destination.
pub struct Request {
    pub dest: Seq<char>,
    pub name: Seq<char>,
    pub size: u64,
}

impl Request {
    /// The directory and the name that the file would have there.
    pub open spec fn place(self) -> (Seq<char>, Seq<char>) {
        (path::normal(path::parent(self.dest)->0), text::unicode_lower(self.name))
    }
}

/// The listings after files were decided on one after another, each that is to be copied
/// reserving its place.
pub open spec fn after_all(c: Listings, reqs: Seq<Request>) -> Listings
    decreases reqs.len(),
{
    if reqs.len() == 0 {
        c
    } else {
        let before = after_all(c, reqs.drop_last());
        let q = reqs.last();
        if decide(before, q.dest, q.name, q.size).0 == PlannedAction::Copy {
            reserved(before, q.dest, q.name, q.size)
        } else {
            before
        }
    }
}

/// What is decided on the file at a position.
pub open spec fn answer(c: Listings, reqs: Seq<Request>, i: int) -> PlannedAction {
    decide(after_all(c, reqs.take(i)), reqs[i].dest, reqs[i].name, reqs[i].size).0
}

proof fn lemma_taken_stays_taken(c: Listings, reqs: Seq<Request>, i: int, j: int)
    requires
        0 <= i < j <= reqs.len(),
        forall|k: int| 0 <= k < reqs.len() ==> path::parent((#[trigger] reqs[k]).dest) is Some,
        answer(c, reqs, i) == PlannedAction::Copy,
    ensures
        entry_at(after_all(c, reqs.take(j)), path::parent(reqs[i].dest)->0, reqs[i].name) is Some,
    decreases j - i,
{
    let here = reqs.take(j);
    assert(here.drop_last() =~= reqs.take(j - 1));
    assert(here.last() == reqs[j - 1]);
    if j - 1 > i {
        lemma_taken_stays_taken(c, reqs, i, j - 1);
    }
}

/// Of files that are decided on one after another, no two are to be copied to one place: a
/// directory gets each name, in whatever case, at most once, and none that it had before.
pub proof fn law_no_two_files_share_a_place(c: Listings, reqs: Seq<Request>, i: int, j: int)
    requires
        0 <= i < j < reqs.len(),
        forall|k: int| 0 <= k < reqs.len() ==> path::parent((#[trigger] reqs[k]).dest) is Some,
        answer(c, reqs, i) == PlannedAction::Copy,
        answer(c, reqs, j) == PlannedAction::Copy,
    ensures
        reqs[i].place() != reqs[j].place(),
        entry_at(c, path::parent(reqs[i].dest)->0, reqs[i].name) is None,
{
    lemma_taken_stays_taken(c, reqs, i, j);
    lemma_listed_stays_listed(c, reqs, i, reqs[i]);
}

proof fn lemma_listed_stays_listed(c: Listings, reqs: Seq<Request>, i: int, q: Request)
    requires
        0 <= i <= reqs.len(),
        forall|k: int| 0 <= k < reqs.len() ==> path::parent((#[trigger] reqs[k]).dest) is Some,
    ensures
        entry_at(c, path::parent(q.dest)->0, q.name) is Some ==> entry_at(
            after_all(c, reqs.take(i)),
            path::parent(q.dest)->0,
            q.name,
        ) is Some,
    decreases i,
{
    let here = reqs.take(i);
    if i > 0 {
        assert(here.drop_last() =~= reqs.take(i - 1));
        assert(here.last() == reqs[i - 1]);
        lemma_listed_stays_listed(c, reqs, i - 1, q);
    }
}

proof fn lemma_listing(es: Seq<DirEntryView>, key: Seq<char>)
    ensures
        listing(es).contains_key(key) <==> exists|i: int|
            0 <= i < es.len() && text::unicode_lower((#[trigger] es[i]).actual_name) == key,
        listing(es).contains_key(key) ==> exists|i: int|
            0 <= i < es.len() && text::unicode_lower((#[trigger] es[i]).actual_name) == key
                && listing(es)[key] == es[i] && forall|j: int|
                i < j < es.len() ==> text::unicode_lower((#[trigger] es[j]).actual_name) != key,
    decreases es.len(),
{
    if es.len() > 0 {
        let t = es.drop_last();
        lemma_listing(t, key);
        let n = es.len() - 1;
        if text::unicode_lower(es[n].actual_name) == key {
            assert(listing(es)[key] == es[n]);
        } else {
            assert(listing(es).contains_key(key) == listing(t).contains_key(key));
            if listing(t).contains_key(key) {
                let i = choose|i: int|
                    0 <= i < t.len() && text::unicode_lower((#[trigger] t[i]).actual_name) == key
                        && listing(t)[key] == t[i] && forall|j: int|
                        i < j < t.len() ==> text::unicode_lower((#[trigger] t[j]).actual_name)
                            != key;
                assert(es[i] == t[i]);
                assert forall|j: int| i < j < es.len() implies text::unicode_lower(
                    (#[trigger] es[j]).actual_name,
                ) != key by {
                    if j < n {
                        assert(t[j] == es[j]);
                    }
                }
            }
            if exists|i: int|
                0 <= i < es.len() && text::unicode_lower((#[trigger] es[i]).actual_name) == key {
                let i = choose|i: int|
                    0 <= i < es.len() && text::unicode_lower((#[trigger] es[i]).actual_name) == key;
                assert(t[i] == es[i]);
            }
        }
    }
}

/// A directory that is read is known by all of its entries and by nothing else: a name is
/// listed exactly if an entry has it, in whatever case, and of entries alike in that the last
/// stands for the name.
pub proof fn law_every_entry_is_listed(es: Vec<DirEntry>, name: Seq<char>)
    ensures
        opt_listing(Some(es)) is Some,
        opt_listing(Some(es))->0.contains_key(text::unicode_lower(name)) <==> exists|i: int|
            0 <= i < es@.len() && text::unicode_lower((#[trigger] es@[i]).actual_name@)
                == text::unicode_lower(name),
        forall|i: int|
            0 <= i < es@.len() && text::unicode_lower((#[trigger] es@[i]).actual_name@)
                == text::unicode_lower(name) && (forall|j: int|
                i < j < es@.len() ==> text::unicode_lower((#[trigger] es@[j]).actual_name@)
                    != text::unicode_lower(name)) ==> {
                let e = opt_listing(Some(es))->0[text::unicode_lower(name)];
                &&& e.actual_name == es@[i].actual_name@
                &&& e.size == es@[i].size
                &&& e.is_file == es@[i].is_file
            },
        opt_listing(None) is None,
{
    let v = entries_view(es@);
    let key = text::unicode_lower(name);
    lemma_listing(v, key);
    if exists|i: int|
        0 <= i < es@.len() && text::unicode_lower((#[trigger] es@[i]).actual_name@) == key {
        let i = choose|i: int|
            0 <= i < es@.len() && text::unicode_lower((#[trigger] es@[i]).actual_name@) == key;
        assert(v[i].actual_name == es@[i].actual_name@);
    }
    if listing(v).contains_key(key) {
        let k = choose|k: int|
            0 <= k < v.len() && text::unicode_lower((#[trigger] v[k]).actual_name) == key
                && listing(v)[key] == v[k] && forall|j: int|
                k < j < v.len() ==> text::unicode_lower((#[trigger] v[j]).actual_name) != key;
        assert(v[k].actual_name == es@[k].actual_name@);
        assert forall|i: int|
            0 <= i < es@.len() && text::unicode_lower((#[trigger] es@[i]).actual_name@) == key && (
            forall|j: int|
                i < j < es@.len() ==> text::unicode_lower((#[trigger] es@[j]).actual_name@)
                    != key) implies i == k by {
            assert(v[i].actual_name == es@[i].actual_name@);
            if k < i {
                assert(text::unicode_lower(v[i].actual_name) != key);
            }
            if i < k {
                assert(text::unicode_lower(es@[k].actual_name@) != key);
            }
        }
    }
}

/// What a directory holds decides on a file that is to go there: one whose name no entry has,
/// in whatever case, is copied; any other is not. It is skipped where the entry of its name is
/// a regular file of its size, and is an error where the entry is no regular file or has
/// another size. Other directories do not matter, nor does what was cached of them.
pub proof fn law_held_names_decide(
    c: Listings,
    dir: Seq<char>,
    es: Vec<DirEntry>,
    dest: Seq<char>,
    name: Seq<char>,
    size: u64,
)
    requires
        path::parent(dest) is Some,
        path::normal(path::parent(dest)->0) == path::normal(dir),
    ensures
        ({
            let after = c.insert(path::normal(dir), opt_listing(Some(es)));
            let v = decide(after, dest, name, size);
            &&& v.0 == PlannedAction::Copy <==> forall|i: int|
                0 <= i < es@.len() ==> text::unicode_lower((#[trigger] es@[i]).actual_name@)
                    != text::unicode_lower(name)
            &&& v.0 == PlannedAction::Copy <==> v.1 is None
            &&& forall|i: int|
                0 <= i < es@.len() && text::unicode_lower((#[trigger] es@[i]).actual_name@)
                    == text::unicode_lower(name) && (forall|j: int|
                    i < j < es@.len() ==> text::unicode_lower((#[trigger] es@[j]).actual_name@)
                        != text::unicode_lower(name)) ==> v.0 == if es@[i].is_file && es@[i].size
                    == size {
                    PlannedAction::SkipExists
                } else {
                    PlannedAction::Error
                }
        }),
        decide(c.insert(path::normal(dir), opt_listing(None)), dest, name, size) == (
            PlannedAction::Copy,
            None::<Seq<char>>,
        ),
{
    law_every_entry_is_listed(es, name);
}

/// Where nothing of the name is known the file is free to go: a directory that was never
/// read, and a destination without one, hold nothing.
pub proof fn law_unknown_directories_are_free(
    c: Listings,
    dest: Seq<char>,
    name: Seq<char>,
    size: u64,
)
    requires
        path::parent(dest) matches Some(dir) ==> !c.contains_key(path::normal(dir)),
    ensures
        decide(c, dest, name, size) == (PlannedAction::Copy, None::<Seq<char>>),
{
}

/// A reservation is an entry like any other: the file that was reserved is found under its
/// name and size as a regular file, every other entry of the directory and every other
/// directory is as it was.
pub proof fn law_reservation_is_one_entry(
    c: Listings,
    dest: Seq<char>,
    name: Seq<char>,
    size: u64,
    dir: Seq<char>,
    other: Seq<char>,
)
    requires
        path::parent(dest) is Some,
    ensures
        ({
            let after = reserved(c, dest, name, size);
            let own = path::parent(dest)->0;
            &&& entry_at(after, own, name) == Some(
                DirEntryView { actual_name: name, size, is_file: true },
            )
            &&& path::normal(dir) != path::normal(own) || text::unicode_lower(other)
                != text::unicode_lower(name) ==> entry_at(after, dir, other) == entry_at(
                c,
                dir,
                other,
            )
            &&& path::normal(dir) != path::normal(own) ==> (after.contains_key(path::normal(dir))
                <==> c.contains_key(path::normal(dir)))
            &&& after.contains_key(path::normal(own))
        }),
{
}

/// The reason why a file does not go to its place tells what is there: its name where that is
/// no regular file or differs in case, and both sizes where they differ.
pub proof fn law_reasons_tell_what_is_there(e: DirEntryView, name: Seq<char>, size: u64)
    ensures
        !e.is_file ==> (verdict(Some(e), name, size).1 matches Some(why)
            && e.actual_name.is_suffix_of(why)),
        e.is_file && e.size == size && e.actual_name == name ==> verdict(Some(e), name, size).1
            == Some("destination exists with same size"@),
        e.is_file && e.size == size && e.actual_name != name ==> (verdict(
            Some(e),
            name,
            size,
        ).1 matches Some(why) && (e.actual_name + ")"@).is_suffix_of(why)),
        e.is_file && e.size != size ==> (verdict(Some(e), name, size).1 matches Some(why) && (
        "destination exists ("@ + e.actual_name).is_prefix_of(why) && (text::decimal(e.size as nat)
            + " vs source "@ + text::decimal(size as nat)).is_suffix_of(why)),
{
    let v = verdict(Some(e), name, size);
    let n = e.actual_name;
    if v.1 is Some {
        let why = v.1->0;
        if !e.is_file {
            assert(why.skip(why.len() - n.len()) =~= n);
        } else if e.size == size && n != name {
            let end = n + ")"@;
            assert(why.skip(why.len() - end.len()) =~= end);
        } else if e.size != size {
            let begin = "destination exists ("@ + n;
            let end = text::decimal(e.size as nat) + " vs source "@ + text::decimal(size as nat);
            assert(why.take(begin.len() as int) =~= begin);
            assert(why.skip(why.len() - end.len()) =~= end);
        }
    }
}

} // verus!
