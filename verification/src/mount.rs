//! Mounted volumes that a user might import from.

use vstd::prelude::*;
use crate::path::{self, NativePath, NativeView};
use crate::text;

verus! {

/// How likely a volume is a camera card. Likelier ones come first.
#[derive(Debug, Clone, Copy, PartialEq, Eq, PartialOrd, Ord, Structural)]
pub enum MountRank {
    /// Has a `DCIM` directory at its root.
    CameraCard,
    /// A removable or user volume without one.
    Removable,
    /// Anything else.
    Other,
}

/// A volume that a user might import from.
#[derive(Debug, PartialEq, Eq)]
pub struct DetectedMount {
    /// The root of the volume.
    pub path: NativePath,
    /// The name to show.
    pub label: String,
    pub rank: MountRank,
}

/// The contents of a [`DetectedMount`].
pub struct MountView {
    pub path: NativeView,
    pub label: Seq<char>,
    pub rank: MountRank,
}

impl View for DetectedMount {
    type V = MountView;

    open spec fn view(&self) -> MountView {
        MountView { path: self.path@, label: self.label@, rank: self.rank }
    }
}

impl Clone for DetectedMount {
    fn clone(&self) -> (r: Self)
        ensures
            r@ == self@,
    {
        DetectedMount { path: self.path.clone(), label: self.label.clone(), rank: self.rank }
    }
}

/// A mounted volume and what the file system says of it.
#[derive(Debug)]
pub struct FoundMount {
    pub path: NativePath,
    pub label: String,
    pub rank: MountRank,
    /// Whether the path exists.
    pub exists: bool,
    /// Whether it looks like a camera card.
    pub has_dcim: bool,
    /// The bytes of the path with links resolved.
    pub canonical: Vec<u8>,
}

/// The contents of a [`FoundMount`].
pub struct FoundView {
    pub path: NativeView,
    pub label: Seq<char>,
    pub rank: MountRank,
    pub exists: bool,
    pub has_dcim: bool,
    pub canonical: Seq<u8>,
}

impl View for FoundMount {
    type V = FoundView;

    open spec fn view(&self) -> FoundView {
        FoundView {
            path: self.path@,
            label: self.label@,
            rank: self.rank,
            exists: self.exists,
            has_dcim: self.has_dcim,
            canonical: self.canonical@,
        }
    }
}

/// The contents of a list of found volumes.
pub open spec fn found_mounts(v: Seq<FoundMount>) -> Seq<FoundView> {
    v.map_values(|m: FoundMount| m@)
}

/// The contents of a list of volumes.
pub open spec fn mounts_view(v: Seq<DetectedMount>) -> Seq<MountView> {
    v.map_values(|m: DetectedMount| m@)
}

/// Whether a path is the root of the system.
pub open spec fn is_system_path(p: Seq<char>) -> bool {
    p == "/"@ || p == "C:\\"@ || p == "C:/"@
}

/// Where a rank stands.
pub open spec fn rank_number(r: MountRank) -> int {
    match r {
        MountRank::CameraCard => 0,
        MountRank::Removable => 1,
        MountRank::Other => 2,
    }
}

/// The rank of a volume: a `DCIM` directory makes it a camera card.
pub open spec fn true_rank(m: FoundView) -> MountRank {
    if m.has_dcim {
        MountRank::CameraCard
    } else {
        m.rank
    }
}

/// Whether `a` is listed before `b`: by rank, then by label.
pub open spec fn listed_before(a: FoundView, b: FoundView) -> bool {
    ||| rank_number(true_rank(a)) < rank_number(true_rank(b))
    ||| rank_number(true_rank(a)) == rank_number(true_rank(b)) && text::text_before(
        a.label,
        b.label,
    )
}

/// The volumes that can be offered, in order.
pub open spec fn offered(ms: Seq<FoundView>) -> Seq<FoundView>
    decreases ms.len(),
{
    if ms.len() == 0 {
        Seq::empty()
    } else if ms.last().exists && !is_system_path(ms.last().path.text) {
        offered(ms.drop_last()).push(ms.last())
    } else {
        offered(ms.drop_last())
    }
}

/// Where a volume goes among listed ones: before the first that it is listed
/// before.
pub open spec fn place(sorted: Seq<FoundView>, m: FoundView) -> int
    decreases sorted.len(),
{
    if sorted.len() == 0 || listed_before(m, sorted[0]) {
        0
    } else {
        1 + place(sorted.skip(1), m)
    }
}

/// The volumes by rank and label. Those alike in both stay in their order.
pub open spec fn in_order(ms: Seq<FoundView>) -> Seq<FoundView>
    decreases ms.len(),
{
    if ms.len() == 0 {
        Seq::empty()
    } else {
        let t = in_order(ms.drop_last());
        t.insert(place(t, ms.last()), ms.last())
    }
}

/// Whether one of the volumes is the place with the canonical path.
pub open spec fn holds_place(ms: Seq<FoundView>, canonical: Seq<u8>) -> bool {
    exists|k: int| 0 <= k < ms.len() && #[trigger] ms[k].canonical == canonical
}

/// The volumes without those that are the same place as one kept before them.
pub open spec fn without_repeats(ms: Seq<FoundView>) -> Seq<FoundView>
    decreases ms.len(),
{
    if ms.len() == 0 {
        Seq::empty()
    } else {
        let t = without_repeats(ms.drop_last());
        if holds_place(t, ms.last().canonical) {
            t
        } else {
            t.push(ms.last())
        }
    }
}

/// How a found volume is shown.
pub open spec fn shown(m: FoundView) -> MountView {
    MountView { path: m.path, label: m.label, rank: true_rank(m) }
}

/// How found volumes are shown.
pub open spec fn all_shown(ms: Seq<FoundView>) -> Seq<MountView> {
    ms.map_values(|m: FoundView| shown(m))
}

/// The volumes to offer.
pub open spec fn detected(ms: Seq<FoundView>) -> Seq<MountView> {
    all_shown(without_repeats(in_order(offered(ms))))
}

fn is_system_root(p: &str) -> (r: bool)
    ensures
        r == is_system_path(p@),
{
    text::same_text(p, "/") || text::same_text(p, "C:\\") || text::same_text(p, "C:/")
}

fn rank_index(r: MountRank) -> (n: u8)
    ensures
        n == rank_number(r),
{
    match r {
        MountRank::CameraCard => 0,
        MountRank::Removable => 1,
        MountRank::Other => 2,
    }
}

fn final_rank(m: &FoundMount) -> (r: MountRank)
    ensures
        r == true_rank(m@),
{
    if m.has_dcim {
        MountRank::CameraCard
    } else {
        m.rank
    }
}

fn comes_before(a: &FoundMount, b: &FoundMount) -> (r: bool)
    ensures
        r == listed_before(a@, b@),
{
    let x: u8 = rank_index(final_rank(a));
    let y: u8 = rank_index(final_rank(b));
    x < y || (x == y && text::less_text(a.label.as_str(), b.label.as_str()))
}

proof fn lemma_place_is(sorted: Seq<FoundView>, m: FoundView, n: int)
    requires
        0 <= n <= sorted.len(),
        forall|i: int| 0 <= i < n ==> !listed_before(m, #[trigger] sorted[i]),
        n < sorted.len() ==> listed_before(m, sorted[n]),
    ensures
        place(sorted, m) == n,
    decreases n,
{
    if n > 0 {
        assert(sorted[0] == sorted[0]);
        let t = sorted.skip(1);
        assert forall|i: int| 0 <= i < n - 1 implies !listed_before(m, #[trigger] t[i]) by {
            assert(t[i] == sorted[i + 1]);
        }
        lemma_place_is(t, m, n - 1);
    }
}

/// The contents of a list of byte strings.
spec fn byte_strings(v: Seq<Vec<u8>>) -> Seq<Seq<u8>> {
    v.map_values(|b: Vec<u8>| b@)
}

fn any_bytes(v: &Vec<Vec<u8>>, b: &Vec<u8>) -> (r: bool)
    ensures
        r == byte_strings(v@).contains(b@),
{
    let mut i: usize = 0;
    while i < v.len()
        invariant
            i <= v@.len(),
            forall|j: int| 0 <= j < i ==> byte_strings(v@)[j] != b@,
        decreases v@.len() - i,
    {
        if path::same_bytes(&v[i], b) {
            proof {
                assert(byte_strings(v@)[i as int] == b@);
            }
            return true;
        }
        i += 1;
    }
    false
}

/// The canonical paths of volumes.
spec fn all_places(ms: Seq<FoundView>) -> Seq<Seq<u8>> {
    ms.map_values(|m: FoundView| m.canonical)
}

proof fn lemma_holds_place(ms: Seq<FoundView>, canonical: Seq<u8>)
    ensures
        all_places(ms).contains(canonical) == holds_place(ms, canonical),
{
    let places = all_places(ms);
    if holds_place(ms, canonical) {
        let k = choose|k: int| 0 <= k < ms.len() && #[trigger] ms[k].canonical == canonical;
        assert(places[k] == canonical);
    }
    if places.contains(canonical) {
        let k = choose|k: int| 0 <= k < places.len() && places[k] == canonical;
        assert(ms[k].canonical == canonical);
    }
}

fn copy_found(m: &FoundMount) -> (r: FoundMount)
    ensures
        r@ == m@,
{
    FoundMount {
        path: m.path.clone(),
        label: m.label.clone(),
        rank: m.rank,
        exists: m.exists,
        has_dcim: m.has_dcim,
        canonical: path::copy_bytes(m.canonical.as_slice()),
    }
}

/// The volumes to offer among those that were found: those that exist and are
/// not the system's own, camera cards first, then by label, each place once.
pub fn detect_mounts(found: &Vec<FoundMount>) -> (r: Vec<DetectedMount>)
    ensures
        mounts_view(r@) == detected(found_mounts(found@)),
{
    let ghost all = found_mounts(found@);
    let mut sorted: Vec<FoundMount> = Vec::new();
    let mut i: usize = 0;
    proof {
        assert(found_mounts(sorted@) =~= in_order(offered(all.take(0))));
    }
    while i < found.len()
        invariant
            i <= found@.len(),
            all == found_mounts(found@),
            found_mounts(sorted@) == in_order(offered(all.take(i as int))),
        decreases found@.len() - i,
    {
        let m = &found[i];
        let ghost before = found_mounts(sorted@);
        proof {
            assert(all.take(i + 1).drop_last() =~= all.take(i as int));
            assert(all.take(i + 1).last() == m@);
        }
        if m.exists && !is_system_root(m.path.text.as_str()) {
            let mut k: usize = 0;
            while k < sorted.len() && !comes_before(m, &sorted[k])
                invariant
                    k <= sorted@.len(),
                    before == found_mounts(sorted@),
                    forall|j: int| 0 <= j < k ==> !listed_before(m@, #[trigger] before[j]),
                decreases sorted@.len() - k,
            {
                proof {
                    assert(before[k as int] == sorted@[k as int]@);
                }
                k += 1;
            }
            proof {
                if k < sorted@.len() {
                    assert(before[k as int] == sorted@[k as int]@);
                }
                lemma_place_is(before, m@, k as int);
                let o = offered(all.take(i as int));
                assert(o.push(m@).drop_last() =~= o);
            }
            let own = copy_found(m);
            proof {
                assert(found_mounts(sorted@.insert(k as int, own)) =~= before.insert(
                    k as int,
                    own@,
                ));
            }
            sorted.insert(k, own);
        }
        i += 1;
    }
    proof {
        assert(all.take(all.len() as int) =~= all);
    }
    let ghost order = found_mounts(sorted@);
    let mut out: Vec<DetectedMount> = Vec::new();
    let mut places: Vec<Vec<u8>> = Vec::new();
    let mut n: usize = 0;
    proof {
        assert(mounts_view(out@) =~= all_shown(without_repeats(order.take(0))));
        assert(byte_strings(places@) =~= all_places(without_repeats(order.take(0))));
    }
    while n < sorted.len()
        invariant
            n <= sorted@.len(),
            order == found_mounts(sorted@),
            mounts_view(out@) == all_shown(without_repeats(order.take(n as int))),
            byte_strings(places@) == all_places(without_repeats(order.take(n as int))),
        decreases sorted@.len() - n,
    {
        let m = &sorted[n];
        let ghost kept = without_repeats(order.take(n as int));
        proof {
            assert(order.take(n + 1).drop_last() =~= order.take(n as int));
            assert(order.take(n + 1).last() == m@);
            lemma_holds_place(kept, m@.canonical);
        }
        if !any_bytes(&places, &m.canonical) {
            let d = DetectedMount {
                path: m.path.clone(),
                label: m.label.clone(),
                rank: final_rank(m),
            };
            let place = path::copy_bytes(m.canonical.as_slice());
            proof {
                assert(mounts_view(out@.push(d)) =~= mounts_view(out@).push(d@));
                assert(all_shown(kept.push(m@)) =~= all_shown(kept).push(shown(m@)));
                assert(byte_strings(places@.push(place)) =~= byte_strings(places@).push(place@));
                assert(all_places(kept.push(m@)) =~= all_places(kept).push(m@.canonical));
            }
            out.push(d);
            places.push(place);
        }
        n += 1;
    }
    proof {
        assert(order.take(order.len() as int) =~= order);
    }
    out
}

// ---------------------------------------------------------------------------
// Where volumes are mounted
// ---------------------------------------------------------------------------

/// The directories below which Linux mounts volumes for a user.
pub open spec fn linux_roots(user: Option<Seq<char>>) -> Seq<Seq<char>> {
    match user {
        Some(u) => seq!["/run/media/"@ + u, "/media/"@ + u, "/media"@, "/mnt"@],
        None => seq!["/media"@, "/mnt"@],
    }
}

/// The directories below which Linux mounts volumes for a user.
pub fn linux_mount_roots(user: &Option<String>) -> (r: Vec<String>)
    ensures
        text::texts(r@) == linux_roots(text::opt_text(*user)),
{
    let mut out: Vec<String> = Vec::new();
    if let Some(u) = user {
        let mut a = text::copy_str("/run/media/");
        a.append(u.as_str());
        out.push(a);
        let mut b = text::copy_str("/media/");
        b.append(u.as_str());
        out.push(b);
    }
    out.push(text::copy_str("/media"));
    out.push(text::copy_str("/mnt"));
    proof {
        assert(text::texts(out@) =~= linux_roots(text::opt_text(*user)));
    }
    out
}

/// Whether a directory is no volume but the one that holds a user's volumes.
pub fn is_user_wrapper(root: &str, label: &str, user: &Option<String>) -> (r: bool)
    ensures
        r == (text::opt_text(*user) == Some(label@) && (root@ == "/media"@ || root@
            == "/run/media"@)),
{
    match user {
        Some(u) => text::same_text(u.as_str(), label) && (text::same_text(root, "/media")
            || text::same_text(root, "/run/media")),
        None => false,
    }
}

/// `s` without the backslashes at its end.
pub open spec fn without_backslashes(s: Seq<char>) -> Seq<char>
    decreases s.len(),
{
    if s.len() > 0 && s.last() == '\\' {
        without_backslashes(s.drop_last())
    } else {
        s
    }
}

/// Whether a volume is the one that the system was started from. Both are canonical paths,
/// where they are known.
pub fn is_boot_volume(volume: &Option<String>, boot: &Option<String>) -> (r: bool)
    ensures
        r == match (text::opt_text(*volume), text::opt_text(*boot)) {
            (Some(v), Some(b)) => path::components(v) == path::components(b),
            _ => false,
        },
{
    match (volume, boot) {
        (Some(v), Some(b)) => path::same_path(v.as_str(), b.as_str()),
        _ => false,
    }
}

/// The label and rank of a Windows drive; `None` for the system's own.
pub fn windows_mount(mount_point: &str, removable: bool) -> (r: Option<(String, MountRank)>)
    ensures
        ({
            let label = without_backslashes(mount_point@);
            if text::same_ignoring_case(label, "C:"@) {
                r is None
            } else {
                r matches Some((l, rank)) && l@ == label && rank == if removable {
                    MountRank::Removable
                } else {
                    MountRank::Other
                }
            }
        }),
{
    let v = text::to_chars(mount_point);
    let mut n: usize = v.len();
    proof {
        assert(v@.subrange(0, n as int) =~= v@);
    }
    while n > 0 && v[n - 1] == '\\'
        invariant
            n <= v@.len(),
            without_backslashes(v@.subrange(0, n as int)) == without_backslashes(v@),
        decreases n,
    {
        proof {
            assert(v@.subrange(0, n as int).drop_last() =~= v@.subrange(0, n - 1));
        }
        n -= 1;
    }
    let label = text::from_chars(&v, 0, n);
    if text::eq_ignore_ascii_case(label.as_str(), "C:") {
        return None;
    }
    let rank = if removable {
        MountRank::Removable
    } else {
        MountRank::Other
    };
    Some((label, rank))
}

// ---------------------------------------------------------------------------
// Laws
// ---------------------------------------------------------------------------

proof fn lemma_in_order(ms: Seq<FoundView>)
    ensures
        in_order(ms).len() == ms.len(),
        forall|i: int, j: int|
            0 <= i < j < in_order(ms).len() ==> !listed_before(
                #[trigger] in_order(ms)[j],
                #[trigger] in_order(ms)[i],
            ),
        forall|m: FoundView| #[trigger] in_order(ms).contains(m) <==> ms.contains(m),
    decreases ms.len(),
{
    if ms.len() > 0 {
        let t = in_order(ms.drop_last());
        let m = ms.last();
        lemma_in_order(ms.drop_last());
        lemma_place(t, m);
        let n = place(t, m);
        let r = in_order(ms);
        assert(r == t.insert(n, m));
        assert forall|i: int, j: int| 0 <= i < j < r.len() implies !listed_before(
            #[trigger] r[j],
            #[trigger] r[i],
        ) by {
            let a = if i < n {
                i
            } else {
                i - 1
            };
            let b = if j < n {
                j
            } else {
                j - 1
            };
            if i == n {
                // Everything behind the new one is behind what it was put before.
                assert(r[j] == t[b]);
                assert(listed_before(m, t[n]));
                text::lemma_text_order_total(t[n].label, t[n].label);
                if b > n {
                    assert(!listed_before(t[b], t[n]));
                }
                lemma_listed_total(m, t[n], t[b]);
            } else if j == n {
                assert(r[i] == t[a]);
            } else {
                assert(r[i] == t[a]);
                assert(r[j] == t[b]);
            }
        }
        assert forall|x: FoundView| #[trigger] r.contains(x) <==> ms.contains(x) by {
            if r.contains(x) {
                let k = choose|k: int| 0 <= k < r.len() && r[k] == x;
                if k < n {
                    assert(t[k] == x);
                    assert(t.contains(x));
                } else if k > n {
                    assert(t[k - 1] == x);
                    assert(t.contains(x));
                } else {
                    assert(ms[ms.len() - 1] == x);
                }
                if t.contains(x) {
                    assert(ms.drop_last().contains(x));
                    let q = choose|q: int|
                        0 <= q < ms.drop_last().len() && ms.drop_last()[q] == x;
                    assert(ms[q] == x);
                }
            }
            if ms.contains(x) {
                let q = choose|q: int| 0 <= q < ms.len() && ms[q] == x;
                if q == ms.len() - 1 {
                    assert(r[n] == x);
                } else {
                    assert(ms.drop_last()[q] == x);
                    assert(t.contains(x));
                    let k = choose|k: int| 0 <= k < t.len() && t[k] == x;
                    assert(r[if k < n {
                        k
                    } else {
                        k + 1
                    }] == x);
                }
            }
        }
    }
}

proof fn lemma_place(sorted: Seq<FoundView>, m: FoundView)
    ensures
        0 <= place(sorted, m) <= sorted.len(),
        forall|i: int| 0 <= i < place(sorted, m) ==> !listed_before(m, #[trigger] sorted[i]),
        place(sorted, m) < sorted.len() ==> listed_before(m, sorted[place(sorted, m)]),
    decreases sorted.len(),
{
    if sorted.len() > 0 && !listed_before(m, sorted[0]) {
        let t = sorted.skip(1);
        lemma_place(t, m);
        assert forall|i: int| 0 <= i < place(sorted, m) implies !listed_before(
            m,
            #[trigger] sorted[i],
        ) by {
            if i > 0 {
                assert(t[i - 1] == sorted[i]);
            }
        }
    }
}

/// What is not behind something that `a` is before is not before `a`.
proof fn lemma_listed_total(a: FoundView, b: FoundView, c: FoundView)
    requires
        listed_before(a, b),
        !listed_before(c, b),
    ensures
        !listed_before(c, a),
{
    text::lemma_text_order_total(a.label, b.label);
    text::lemma_text_order_total(c.label, b.label);
    text::lemma_text_order_total(c.label, a.label);
    if listed_before(c, a) {
        if text::text_before(c.label, a.label) && text::text_before(a.label, b.label) {
            text::lemma_text_order_transitive(c.label, a.label, b.label);
        }
    }
}

proof fn lemma_without_repeats(ms: Seq<FoundView>)
    requires
        forall|i: int, j: int|
            0 <= i < j < ms.len() ==> !listed_before(#[trigger] ms[j], #[trigger] ms[i]),
    ensures
        ({
            let r = without_repeats(ms);
            &&& forall|i: int, j: int|
                0 <= i < j < r.len() ==> !listed_before(#[trigger] r[j], #[trigger] r[i])
            &&& forall|i: int| 0 <= i < r.len() ==> ms.contains(#[trigger] r[i])
            &&& forall|i: int, j: int|
                0 <= i < j < r.len() ==> (#[trigger] r[i]).canonical != (
                #[trigger] r[j]).canonical
            &&& forall|i: int|
                0 <= i < ms.len() ==> holds_place(r, (#[trigger] ms[i]).canonical)
        }),
    decreases ms.len(),
{
    if ms.len() > 0 {
        let t = ms.drop_last();
        assert forall|i: int, j: int| 0 <= i < j < t.len() implies !listed_before(
            #[trigger] t[j],
            #[trigger] t[i],
        ) by {
            assert(t[i] == ms[i] && t[j] == ms[j]);
        }
        lemma_without_repeats(t);
        let before = without_repeats(t);
        let r = without_repeats(ms);
        assert forall|i: int| 0 <= i < r.len() implies ms.contains(#[trigger] r[i]) by {
            if i < before.len() {
                assert(r[i] == before[i]);
                assert(t.contains(before[i]));
                let k = choose|k: int| 0 <= k < t.len() && t[k] == before[i];
                assert(ms[k] == before[i]);
            } else {
                assert(ms[ms.len() - 1] == r[i]);
            }
        }
        assert forall|i: int, j: int| 0 <= i < j < r.len() implies !listed_before(
            #[trigger] r[j],
            #[trigger] r[i],
        ) by {
            if j < before.len() {
                assert(r[i] == before[i] && r[j] == before[j]);
            } else {
                assert(r[i] == before[i]);
                assert(t.contains(before[i]));
                let k = choose|k: int| 0 <= k < t.len() && t[k] == before[i];
                assert(ms[k] == r[i]);
                assert(ms[ms.len() - 1] == r[j]);
            }
        }
        assert forall|i: int, j: int| 0 <= i < j < r.len() implies (#[trigger] r[i]).canonical != (
        #[trigger] r[j]).canonical by {
            assert(r[i] == before[i]);
            if j < before.len() {
                assert(r[j] == before[j]);
            }
        }
        assert forall|i: int| 0 <= i < ms.len() implies holds_place(
            r,
            (#[trigger] ms[i]).canonical,
        ) by {
            if i < t.len() {
                assert(t[i] == ms[i]);
                let k = choose|k: int|
                    0 <= k < before.len() && #[trigger] before[k].canonical == t[i].canonical;
                assert(r[k] == before[k]);
            } else if !holds_place(before, ms[i].canonical) {
                assert(r[before.len() as int] == ms[i]);
            }
        }
    }
}

/// The volumes to offer come in order, camera cards before removable volumes
/// before others and by label within a rank; each was found, exists and is not
/// the system's own; no two of them are the same place; and each place that can be
/// offered is among them.
pub proof fn law_mounts_are_ordered(ms: Seq<FoundView>)
    ensures
        ({
            let r = without_repeats(in_order(offered(ms)));
            &&& detected(ms) == all_shown(r)
            &&& forall|i: int, j: int|
                0 <= i < j < r.len() ==> !listed_before(#[trigger] r[j], #[trigger] r[i])
            &&& forall|i: int|
                0 <= i < r.len() ==> ms.contains(#[trigger] r[i]) && r[i].exists && !is_system_path(
                    r[i].path.text,
                )
            &&& forall|i: int, j: int|
                0 <= i < j < r.len() ==> (#[trigger] r[i]).canonical != (
                #[trigger] r[j]).canonical
            &&& forall|i: int|
                0 <= i < offered(ms).len() ==> holds_place(r, (#[trigger] offered(ms)[i]).canonical)
        }),
{
    let o = offered(ms);
    lemma_in_order(o);
    lemma_without_repeats(in_order(o));
    lemma_offered(ms);
    let r = without_repeats(in_order(o));
    assert forall|i: int| 0 <= i < r.len() implies ms.contains(#[trigger] r[i]) && r[i].exists
        && !is_system_path(r[i].path.text) by {
        assert(in_order(o).contains(r[i]));
        assert(o.contains(r[i]));
        let k = choose|k: int| 0 <= k < o.len() && o[k] == r[i];
    }
    assert forall|i: int| 0 <= i < o.len() implies holds_place(r, (#[trigger] o[i]).canonical) by {
        assert(o.contains(o[i]));
        assert(in_order(o).contains(o[i]));
        let k = choose|k: int| 0 <= k < in_order(o).len() && in_order(o)[k] == o[i];
        assert(holds_place(r, in_order(o)[k].canonical));
    }
}

proof fn lemma_offered(ms: Seq<FoundView>)
    ensures
        forall|i: int|
            0 <= i < offered(ms).len() ==> ms.contains(#[trigger] offered(ms)[i]) && offered(
                ms,
            )[i].exists && !is_system_path(offered(ms)[i].path.text),
    decreases ms.len(),
{
    if ms.len() > 0 {
        let t = ms.drop_last();
        lemma_offered(t);
        assert forall|i: int| 0 <= i < offered(ms).len() implies ms.contains(
            #[trigger] offered(ms)[i],
        ) && offered(ms)[i].exists && !is_system_path(offered(ms)[i].path.text) by {
            if i < offered(t).len() {
                assert(offered(ms)[i] == offered(t)[i]);
                assert(t.contains(offered(t)[i]));
                let k = choose|k: int| 0 <= k < t.len() && t[k] == offered(t)[i];
                assert(ms[k] == offered(ms)[i]);
            } else {
                assert(ms[ms.len() - 1] == offered(ms)[i]);
            }
        }
    }
}

/// A volume is shown with its own path and name, as a camera card where it has the directory of
/// one, and as what the system says otherwise.
pub proof fn law_volumes_are_shown_as_they_are(m: FoundMount)
    ensures
        shown(m@).path == m.path@,
        shown(m@).label == m.label@,
        m.has_dcim ==> shown(m@).rank is CameraCard,
        !m.has_dcim ==> shown(m@).rank == m.rank,
{
}

/// Volumes that exist are offered, in order, but for the root of the system.
pub proof fn law_existing_volumes_are_offered(ms: Seq<FoundView>, m: FoundView)
    ensures
        offered(Seq::empty()).len() == 0,
        offered(ms.push(m)) == if m.exists && m.path.text != "/"@ && m.path.text != "C:\\"@
            && m.path.text != "C:/"@ {
            offered(ms).push(m)
        } else {
            offered(ms)
        },
{
    assert(ms.push(m).drop_last() =~= ms);
}

/// Camera cards are listed before removable volumes, those before others, and volumes of one
/// rank by their names.
pub proof fn law_cards_are_listed_first(a: FoundMount, b: FoundMount)
    ensures
        a.has_dcim && !b.has_dcim && !(b.rank is CameraCard) ==> listed_before(a@, b@)
            && !listed_before(b@, a@),
        !a.has_dcim && !b.has_dcim && a.rank is Removable && b.rank is Other ==> listed_before(
            a@,
            b@,
        ) && !listed_before(b@, a@),
        !a.has_dcim && !b.has_dcim && a.rank is CameraCard && !(b.rank is CameraCard)
            ==> listed_before(a@, b@) && !listed_before(b@, a@),
        a.has_dcim && b.has_dcim ==> (listed_before(a@, b@) <==> text::text_before(
            a.label@,
            b.label@,
        )),
        !a.has_dcim && !b.has_dcim && a.rank == b.rank ==> (listed_before(a@, b@)
            <==> text::text_before(a.label@, b.label@)),
{
}

/// Of volumes that are one place the first is kept.
pub proof fn law_first_of_a_place_is_kept(ms: Seq<FoundView>, i: int)
    requires
        0 <= i < ms.len(),
        forall|j: int| 0 <= j < i ==> (#[trigger] ms[j]).canonical != ms[i].canonical,
    ensures
        without_repeats(ms).contains(ms[i]),
    decreases ms.len(),
{
    let t = ms.drop_last();
    let before = without_repeats(t);
    let now = without_repeats(ms);
    if i < ms.len() - 1 {
        assert(t[i] == ms[i]);
        assert forall|j: int| 0 <= j < i implies (#[trigger] t[j]).canonical != t[i].canonical by {
            assert(t[j] == ms[j]);
        }
        law_first_of_a_place_is_kept(t, i);
        let k = choose|k: int| 0 <= k < before.len() && before[k] == ms[i];
        assert(now[k] == ms[i]);
    } else {
        lemma_kept_are_found(t);
        if holds_place(before, ms[i].canonical) {
            let k = choose|k: int|
                0 <= k < before.len() && #[trigger] before[k].canonical == ms[i].canonical;
            let j = choose|j: int| 0 <= j < t.len() && t[j] == before[k];
            assert(ms[j].canonical == ms[i].canonical);
        }
        assert(now[now.len() - 1] == ms[i]);
    }
}

proof fn lemma_kept_are_found(ms: Seq<FoundView>)
    ensures
        forall|k: int|
            0 <= k < without_repeats(ms).len() ==> ms.contains(#[trigger] without_repeats(ms)[k]),
    decreases ms.len(),
{
    if ms.len() > 0 {
        let t = ms.drop_last();
        let before = without_repeats(t);
        let now = without_repeats(ms);
        lemma_kept_are_found(t);
        assert forall|k: int| 0 <= k < now.len() implies ms.contains(#[trigger] now[k]) by {
            if k < before.len() {
                assert(now[k] == before[k]);
                let j = choose|j: int| 0 <= j < t.len() && t[j] == before[k];
                assert(ms[j] == now[k]);
            } else {
                assert(ms[ms.len() - 1] == now[k]);
            }
        }
    }
}

/// The label of a drive is its path without the backslashes at its end, and nothing else is
/// taken away.
pub proof fn law_labels_lose_their_backslashes(s: Seq<char>) -> (n: int)
    ensures
        0 <= n <= s.len(),
        without_backslashes(s) == s.take(n),
        forall|i: int| n <= i < s.len() ==> #[trigger] s[i] == '\\',
        n > 0 ==> s[n - 1] != '\\',
    decreases s.len(),
{
    if s.len() > 0 && s.last() == '\\' {
        let n = law_labels_lose_their_backslashes(s.drop_last());
        assert(s.drop_last().take(n) =~= s.take(n));
        assert forall|i: int| n <= i < s.len() implies #[trigger] s[i] == '\\' by {
            if i < s.len() - 1 {
                assert(s.drop_last()[i] == s[i]);
            }
        }
        n
    } else {
        assert(s.take(s.len() as int) =~= s);
        s.len() as int
    }
}

/// Volumes are looked for where Linux mounts them: below the directories of the user, where
/// there is one, before those that all users share.
pub proof fn law_user_directories_come_first(u: Seq<char>)
    ensures
        linux_roots(None) == seq!["/media"@, "/mnt"@],
        linux_roots(Some(u)).len() == 4,
        linux_roots(Some(u))[0] == "/run/media/"@ + u,
        linux_roots(Some(u))[1] == "/media/"@ + u,
        linux_roots(Some(u)).skip(2) == linux_roots(None),
{
    assert(linux_roots(Some(u)).skip(2) =~= linux_roots(None));
}

/// A volume is put behind all that it is not listed before, so volumes alike in rank and label
/// stay in the order in which they were found.
pub proof fn law_alike_volumes_keep_their_order(ms: Seq<FoundView>, m: FoundView) -> (k: int)
    ensures
        0 <= k <= in_order(ms).len(),
        in_order(ms.push(m)) == in_order(ms).insert(k, m),
        forall|i: int| 0 <= i < k ==> !listed_before(m, #[trigger] in_order(ms)[i]),
        k < in_order(ms).len() ==> listed_before(m, in_order(ms)[k]),
{
    assert(ms.push(m).drop_last() =~= ms);
    lemma_place(in_order(ms), m);
    place(in_order(ms), m)
}

} // verus!
