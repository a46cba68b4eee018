//! The lanes of the import screen, one for each copy worker.

use vstd::prelude::*;
use crate::events::FilePhase;
use crate::text;

verus! {

/// How many lanes are shown at most.
pub const MAX_VISIBLE_SLOTS: usize = 8;

/// A file that is being worked on.
#[derive(Debug)]
pub struct CopySlot {
    pub rel_path: String,
    pub bytes_done: u64,
    pub bytes_total: u64,
    pub phase: Option<FilePhase>,
}

/// The contents of a [`CopySlot`].
pub struct SlotView {
    pub rel_path: Seq<char>,
    pub bytes_done: u64,
    pub bytes_total: u64,
    pub phase: Option<FilePhase>,
}

impl View for CopySlot {
    type V = SlotView;

    open spec fn view(&self) -> SlotView {
        SlotView {
            rel_path: self.rel_path@,
            bytes_done: self.bytes_done,
            bytes_total: self.bytes_total,
            phase: self.phase,
        }
    }
}

/// The contents of a lane.
pub open spec fn opt_slot(s: Option<CopySlot>) -> Option<SlotView> {
    match s {
        Some(slot) => Some(slot@),
        None => None,
    }
}

/// The contents of a list of lanes.
pub open spec fn slots_view(v: Seq<Option<CopySlot>>) -> Seq<Option<SlotView>> {
    v.map_values(|s: Option<CopySlot>| opt_slot(s))
}

/// Whether a lane shows the file.
pub open spec fn shows(lane: Option<SlotView>, rel_path: Seq<char>) -> bool {
    lane matches Some(slot) && slot.rel_path == rel_path
}

/// The first lane that shows the file, or the number of lanes.
pub open spec fn lane_of(lanes: Seq<Option<SlotView>>, rel_path: Seq<char>) -> int
    decreases lanes.len(),
{
    if lanes.len() == 0 || shows(lanes[0], rel_path) {
        0
    } else {
        1 + lane_of(lanes.skip(1), rel_path)
    }
}

/// The first lane that is free, or the number of lanes.
pub open spec fn free_lane(lanes: Seq<Option<SlotView>>) -> int
    decreases lanes.len(),
{
    if lanes.len() == 0 || lanes[0] is None {
        0
    } else {
        1 + free_lane(lanes.skip(1))
    }
}

/// How far a file is, in thousandths; an unknown or empty size counts as none.
pub open spec fn thousandths(slot: SlotView) -> int {
    if slot.bytes_total == 0 {
        0
    } else {
        let scaled = if slot.bytes_done * 1000 <= u64::MAX {
            slot.bytes_done * 1000
        } else {
            u64::MAX as int
        };
        let t = scaled / (slot.bytes_total as int);
        if t <= 1000 {
            t
        } else {
            1000
        }
    }
}

/// How far a lane is.
pub open spec fn lane_progress(lane: Option<SlotView>) -> int {
    match lane {
        Some(slot) => thousandths(slot),
        None => 0,
    }
}

/// The last of the lanes that are furthest.
pub open spec fn furthest_lane(lanes: Seq<Option<SlotView>>) -> int
    decreases lanes.len(),
{
    if lanes.len() <= 1 {
        0
    } else {
        let best = furthest_lane(lanes.drop_last());
        if lane_progress(lanes.last()) >= lane_progress(lanes[best]) {
            lanes.len() - 1
        } else {
            best
        }
    }
}

/// A file that was just started.
pub open spec fn fresh(rel_path: Seq<char>, bytes_total: u64) -> SlotView {
    SlotView { rel_path, bytes_done: 0, bytes_total, phase: Some(FilePhase::Copying) }
}

/// The lane in which a file is started: its own, else a free one, else the one that is
/// furthest.
pub open spec fn start_lane(lanes: Seq<Option<SlotView>>, rel_path: Seq<char>) -> int {
    if lane_of(lanes, rel_path) < lanes.len() {
        lane_of(lanes, rel_path)
    } else if free_lane(lanes) < lanes.len() {
        free_lane(lanes)
    } else {
        furthest_lane(lanes)
    }
}

/// The lanes after a file was started.
pub open spec fn started(
    lanes: Seq<Option<SlotView>>,
    rel_path: Seq<char>,
    bytes_total: u64,
) -> Seq<Option<SlotView>> {
    if lanes.len() == 0 {
        lanes
    } else {
        lanes.update(start_lane(lanes, rel_path), Some(fresh(rel_path, bytes_total)))
    }
}

/// The lanes after bytes of a file were copied.
pub open spec fn progressed(
    lanes: Seq<Option<SlotView>>,
    rel_path: Seq<char>,
    bytes_done: u64,
    bytes_total: u64,
) -> Seq<Option<SlotView>> {
    let i = lane_of(lanes, rel_path);
    if i < lanes.len() {
        lanes.update(
            i,
            Some(SlotView { bytes_done, bytes_total, rel_path, phase: lanes[i]->0.phase }),
        )
    } else {
        lanes
    }
}

/// The lanes after a file entered a phase.
pub open spec fn phased(
    lanes: Seq<Option<SlotView>>,
    rel_path: Seq<char>,
    phase: FilePhase,
) -> Seq<Option<SlotView>> {
    let i = lane_of(lanes, rel_path);
    if i < lanes.len() {
        lanes.update(i, Some(SlotView { phase: Some(phase), ..lanes[i]->0 }))
    } else {
        lanes
    }
}

/// The lanes after a file was finished.
pub open spec fn freed(lanes: Seq<Option<SlotView>>, rel_path: Seq<char>) -> Seq<Option<SlotView>> {
    let i = lane_of(lanes, rel_path);
    if i < lanes.len() {
        lanes.update(i, None)
    } else {
        lanes
    }
}

/// No file is shown twice.
pub open spec fn shown_once(lanes: Seq<Option<SlotView>>) -> bool {
    forall|i: int, j: int|
        0 <= i < j < lanes.len() && lanes[i] is Some && lanes[j] is Some ==> (#[trigger] lanes[i]->0).rel_path
            != (#[trigger] lanes[j]->0).rel_path
}

pub proof fn lemma_lane_of(lanes: Seq<Option<SlotView>>, rel_path: Seq<char>)
    ensures
        0 <= lane_of(lanes, rel_path) <= lanes.len(),
        lane_of(lanes, rel_path) < lanes.len() ==> shows(lanes[lane_of(lanes, rel_path)], rel_path),
        forall|i: int| 0 <= i < lane_of(lanes, rel_path) ==> !shows(#[trigger] lanes[i], rel_path),
    decreases lanes.len(),
{
    if lanes.len() != 0 && !shows(lanes[0], rel_path) {
        lemma_lane_of(lanes.skip(1), rel_path);
        assert forall|i: int| 0 <= i < lane_of(lanes, rel_path) implies !shows(
            #[trigger] lanes[i],
            rel_path,
        ) by {
            if i > 0 {
                assert(lanes[i] == lanes.skip(1)[i - 1]);
            }
        }
    }
}

pub proof fn lemma_lane_of_is(lanes: Seq<Option<SlotView>>, rel_path: Seq<char>, k: int)
    requires
        0 <= k <= lanes.len(),
        k < lanes.len() ==> shows(lanes[k], rel_path),
        forall|i: int| 0 <= i < k ==> !shows(#[trigger] lanes[i], rel_path),
    ensures
        lane_of(lanes, rel_path) == k,
    decreases lanes.len(),
{
    if lanes.len() != 0 && k > 0 {
        assert(!shows(lanes[0], rel_path));
        assert forall|i: int| 0 <= i < k - 1 implies !shows(#[trigger] lanes.skip(1)[i], rel_path) by {
            assert(lanes.skip(1)[i] == lanes[i + 1]);
        }
        lemma_lane_of_is(lanes.skip(1), rel_path, k - 1);
    }
}

proof fn lemma_free_lane_is(lanes: Seq<Option<SlotView>>, k: int)
    requires
        0 <= k <= lanes.len(),
        k < lanes.len() ==> lanes[k] is None,
        forall|i: int| 0 <= i < k ==> (#[trigger] lanes[i]) is Some,
    ensures
        free_lane(lanes) == k,
    decreases lanes.len(),
{
    if lanes.len() != 0 && k > 0 {
        assert(lanes[0] is Some);
        assert forall|i: int| 0 <= i < k - 1 implies (#[trigger] lanes.skip(1)[i]) is Some by {
            assert(lanes.skip(1)[i] == lanes[i + 1]);
        }
        lemma_free_lane_is(lanes.skip(1), k - 1);
    }
}

proof fn lemma_free_lane(lanes: Seq<Option<SlotView>>)
    ensures
        0 <= free_lane(lanes) <= lanes.len(),
        free_lane(lanes) < lanes.len() ==> lanes[free_lane(lanes)] is None,
    decreases lanes.len(),
{
    if lanes.len() != 0 && lanes[0] is Some {
        lemma_free_lane(lanes.skip(1));
    }
}

proof fn lemma_furthest_lane(lanes: Seq<Option<SlotView>>)
    requires
        lanes.len() > 0,
    ensures
        0 <= furthest_lane(lanes) < lanes.len(),
    decreases lanes.len(),
{
    if lanes.len() > 1 {
        lemma_furthest_lane(lanes.drop_last());
    }
}

/// How far a file is, in thousandths.
pub fn pct_x1000(slot: &CopySlot) -> (r: u64)
    ensures
        r == thousandths(slot@),
{
    if slot.bytes_total == 0 {
        return 0;
    }
    let limit: u128 = 0xffff_ffff_ffff_ffff;
    let exact: u128 = (slot.bytes_done as u128) * 1000;
    let scaled: u64 = if exact <= limit {
        exact as u64
    } else {
        u64::MAX
    };
    let t: u64 = scaled / slot.bytes_total;
    if t <= 1000 {
        t
    } else {
        1000
    }
}

/// The lanes of the import screen.
#[derive(Debug)]
pub struct Lanes {
    pub slots: Vec<Option<CopySlot>>,
}

impl View for Lanes {
    type V = Seq<Option<SlotView>>;

    open spec fn view(&self) -> Seq<Option<SlotView>> {
        slots_view(self.slots@)
    }
}

impl Lanes {
    /// No lanes.
    pub fn new() -> (r: Self)
        ensures
            r@ == Seq::<Option<SlotView>>::empty(),
    {
        let r = Lanes { slots: Vec::new() };
        proof {
            assert(r@ =~= Seq::<Option<SlotView>>::empty());
        }
        r
    }

    /// `n` free lanes.
    pub fn idle(n: usize) -> (r: Self)
        ensures
            r@ == Seq::new(n as nat, |i: int| None::<SlotView>),
    {
        let mut slots: Vec<Option<CopySlot>> = Vec::new();
        let mut i: usize = 0;
        while i < n
            invariant
                i <= n,
                slots@.len() == i,
                forall|j: int| 0 <= j < i ==> (#[trigger] slots@[j]) is None,
            decreases n - i,
        {
            slots.push(None);
            i += 1;
        }
        let r = Lanes { slots };
        proof {
            assert(r@ =~= Seq::new(n as nat, |i: int| None::<SlotView>));
        }
        r
    }

    /// How many lanes there are.
    pub fn len(&self) -> (r: usize)
        ensures
            r == self@.len(),
    {
        self.slots.len()
    }

    fn find(&self, rel_path: &str) -> (r: usize)
        ensures
            r == lane_of(self@, rel_path@),
            r <= self@.len(),
            r < self@.len() ==> self.slots@[r as int] is Some && shows(self@[r as int], rel_path@),
    {
        let mut i: usize = 0;
        while i < self.slots.len()
            invariant
                i <= self.slots@.len(),
                forall|j: int| 0 <= j < i ==> !shows(#[trigger] self@[j], rel_path@),
            decreases self.slots@.len() - i,
        {
            if let Some(slot) = &self.slots[i] {
                if text::same_text(slot.rel_path.as_str(), rel_path) {
                    proof {
                        lemma_lane_of_is(self@, rel_path@, i as int);
                    }
                    return i;
                }
            }
            i += 1;
        }
        proof {
            lemma_lane_of_is(self@, rel_path@, i as int);
        }
        i
    }

    fn find_free(&self) -> (r: usize)
        ensures
            r == free_lane(self@),
            r <= self@.len(),
    {
        let mut i: usize = 0;
        while i < self.slots.len()
            invariant
                i <= self.slots@.len(),
                forall|j: int| 0 <= j < i ==> (#[trigger] self@[j]) is Some,
            decreases self.slots@.len() - i,
        {
            if self.slots[i].is_none() {
                proof {
                    lemma_free_lane_is(self@, i as int);
                }
                return i;
            }
            i += 1;
        }
        proof {
            lemma_free_lane_is(self@, i as int);
        }
        i
    }

    fn progress_at(&self, i: usize) -> (r: u64)
        requires
            i < self@.len(),
        ensures
            r == lane_progress(self@[i as int]),
    {
        match &self.slots[i] {
            Some(slot) => pct_x1000(slot),
            None => 0,
        }
    }

    fn find_furthest(&self) -> (r: usize)
        requires
            self@.len() > 0,
        ensures
            r == furthest_lane(self@),
            r < self@.len(),
    {
        let mut best: usize = 0;
        let mut i: usize = 1;
        proof {
            assert(self@.take(1).len() == 1);
        }
        while i < self.slots.len()
            invariant
                1 <= i <= self.slots@.len(),
                best < i,
                best == furthest_lane(self@.take(i as int)),
            decreases self.slots@.len() - i,
        {
            proof {
                assert(self@.take(i + 1).drop_last() =~= self@.take(i as int));
                assert(self@.take(i + 1).last() == self@[i as int]);
            }
            if self.progress_at(i) >= self.progress_at(best) {
                best = i;
            }
            i += 1;
        }
        proof {
            assert(self@.take(i as int) =~= self@);
        }
        best
    }

    /// Shows a file that was started.
    pub fn start(&mut self, rel_path: String, bytes_total: u64)
        ensures
            final(self)@ == started(old(self)@, rel_path@, bytes_total),
    {
        let ghost before = self@;
        let n: usize = self.slots.len();
        if n == 0 {
            return;
        }
        let own: usize = self.find(rel_path.as_str());
        let free: usize = self.find_free();
        let lane: usize = if own < n {
            own
        } else if free < n {
            free
        } else {
            self.find_furthest()
        };
        let slot = CopySlot { rel_path, bytes_done: 0, bytes_total, phase: Some(FilePhase::Copying) };
        let ghost shown = slot@;
        self.slots.set(lane, Some(slot));
        proof {
            assert(self@ =~= before.update(lane as int, Some(shown)));
        }
    }

    /// Shows how much of a file is copied.
    pub fn update(&mut self, rel_path: &str, bytes_done: u64, bytes_total: u64)
        ensures
            final(self)@ == progressed(old(self)@, rel_path@, bytes_done, bytes_total),
    {
        let ghost before = self@;
        let lane: usize = self.find(rel_path);
        if lane < self.slots.len() {
            let phase = match &self.slots[lane] {
                Some(slot) => slot.phase,
                None => None,
            };
            let slot = CopySlot { rel_path: text::copy_str(rel_path), bytes_done, bytes_total, phase };
            let ghost shown = slot@;
            self.slots.set(lane, Some(slot));
            proof {
                assert(self@ =~= before.update(lane as int, Some(shown)));
            }
        }
    }

    /// Shows the phase of a file.
    pub fn update_phase(&mut self, rel_path: &str, phase: FilePhase)
        ensures
            final(self)@ == phased(old(self)@, rel_path@, phase),
    {
        let ghost before = self@;
        let lane: usize = self.find(rel_path);
        if lane < self.slots.len() {
            let (done, total): (u64, u64) = match &self.slots[lane] {
                Some(slot) => (slot.bytes_done, slot.bytes_total),
                None => (0, 0),
            };
            let slot = CopySlot {
                rel_path: text::copy_str(rel_path),
                bytes_done: done,
                bytes_total: total,
                phase: Some(phase),
            };
            let ghost shown = slot@;
            self.slots.set(lane, Some(slot));
            proof {
                assert(self@ =~= before.update(lane as int, Some(shown)));
            }
        }
    }

    /// Frees the lane of a file that is finished.
    pub fn free(&mut self, rel_path: &str)
        ensures
            final(self)@ == freed(old(self)@, rel_path@),
    {
        let ghost before = self@;
        let lane: usize = self.find(rel_path);
        if lane < self.slots.len() {
            self.slots.set(lane, None);
            proof {
                assert(self@ =~= before.update(lane as int, None));
            }
        }
    }
}

// ---------------------------------------------------------------------------
// Laws
// ---------------------------------------------------------------------------

/// A file that is started is shown from its beginning, wherever there is a lane, and no
/// other file is hidden while a lane is free.
pub proof fn law_started_file_is_shown(
    lanes: Seq<Option<SlotView>>,
    rel_path: Seq<char>,
    bytes_total: u64,
    other: Seq<char>,
)
    requires
        shown_once(lanes),
        lanes.len() > 0,
    ensures
        lane_of(started(lanes, rel_path, bytes_total), rel_path) < lanes.len(),
        shown_once(started(lanes, rel_path, bytes_total)),
        free_lane(lanes) < lanes.len() && other != rel_path && lane_of(lanes, other) < lanes.len()
            ==> lane_of(started(lanes, rel_path, bytes_total), other) < lanes.len(),
{
    let after = started(lanes, rel_path, bytes_total);
    let k = start_lane(lanes, rel_path);
    lemma_lane_of(lanes, rel_path);
    lemma_lane_of(lanes, other);
    lemma_free_lane(lanes);
    lemma_furthest_lane(lanes);
    assert(after[k] == Some(fresh(rel_path, bytes_total)));
    assert(shows(after[k], rel_path));
    lemma_lane_of(after, rel_path);
    lemma_lane_of(after, other);
    assert forall|i: int, j: int|
        0 <= i < j < after.len() && after[i] is Some && after[j] is Some implies (#[trigger] after[i]->0).rel_path
        != (#[trigger] after[j]->0).rel_path by {
        if i != k && j != k {
            assert((lanes[i]->0).rel_path != (lanes[j]->0).rel_path);
        } else {
            let m = if i == k {
                j
            } else {
                i
            };
            assert(after[m] == lanes[m]);
            if shows(lanes[m], rel_path) {
                assert(lane_of(lanes, rel_path) <= m);
                assert(k == lane_of(lanes, rel_path));
                assert((lanes[k]->0).rel_path == (lanes[m]->0).rel_path);
            }
        }
    }
    if free_lane(lanes) < lanes.len() && other != rel_path && lane_of(lanes, other) < lanes.len() {
        let m = lane_of(lanes, other);
        assert(m != k);
        assert(shows(after[m], other));
    }
}

/// A file that is finished is shown no more; the lanes of the others stay as they are.
pub proof fn law_finished_file_leaves_its_lane(
    lanes: Seq<Option<SlotView>>,
    rel_path: Seq<char>,
    i: int,
)
    requires
        shown_once(lanes),
        0 <= i < lanes.len(),
    ensures
        freed(lanes, rel_path).len() == lanes.len(),
        shown_once(freed(lanes, rel_path)),
        lane_of(freed(lanes, rel_path), rel_path) == lanes.len(),
        !shows(lanes[i], rel_path) ==> freed(lanes, rel_path)[i] == lanes[i],
{
    let after = freed(lanes, rel_path);
    let k = lane_of(lanes, rel_path);
    lemma_lane_of(lanes, rel_path);
    lemma_lane_of(after, rel_path);
    assert forall|a: int, b: int|
        0 <= a < b < after.len() && after[a] is Some && after[b] is Some implies (#[trigger] after[a]->0).rel_path
        != (#[trigger] after[b]->0).rel_path by {
        assert((lanes[a]->0).rel_path != (lanes[b]->0).rel_path);
    }
    let m = lane_of(after, rel_path);
    if m < after.len() {
        assert(shows(after[m], rel_path));
        assert(m != k);
        assert(shows(lanes[m], rel_path));
        assert(k < m);
        assert((lanes[k]->0).rel_path != (lanes[m]->0).rel_path);
        assert(false);
    }
}

/// News of a file changes at most the lane that shows it, and moves no file.
pub proof fn law_news_stay_in_their_lane(
    lanes: Seq<Option<SlotView>>,
    rel_path: Seq<char>,
    bytes_done: u64,
    bytes_total: u64,
    phase: FilePhase,
    i: int,
)
    requires
        0 <= i < lanes.len(),
    ensures
        progressed(lanes, rel_path, bytes_done, bytes_total).len() == lanes.len(),
        phased(lanes, rel_path, phase).len() == lanes.len(),
        !shows(lanes[i], rel_path) ==> progressed(lanes, rel_path, bytes_done, bytes_total)[i]
            == lanes[i] && phased(lanes, rel_path, phase)[i] == lanes[i],
        shows(lanes[i], rel_path) ==> shows(
            progressed(lanes, rel_path, bytes_done, bytes_total)[i],
            rel_path,
        ) && shows(phased(lanes, rel_path, phase)[i], rel_path),
{
    lemma_lane_of(lanes, rel_path);
}

/// Progress is counted in thousandths of the size, and never beyond the whole; an unknown size
/// counts as no progress.
pub proof fn law_progress_is_in_thousandths(slot: CopySlot)
    ensures
        slot.bytes_total == 0 ==> thousandths(slot@) == 0,
        0 <= thousandths(slot@) <= 1000,
        slot.bytes_total > 0 && slot.bytes_done <= slot.bytes_total && slot.bytes_done * 1000
            <= u64::MAX ==> thousandths(slot@) * slot.bytes_total <= slot.bytes_done * 1000 < (
        thousandths(slot@) + 1) * slot.bytes_total,
        slot.bytes_total > 0 && slot.bytes_done >= slot.bytes_total && slot.bytes_done * 1000
            <= u64::MAX ==> thousandths(slot@) == 1000,
{
    let total = slot.bytes_total as int;
    let scaled = slot.bytes_done * 1000;
    if total > 0 {
        let t = scaled / total;
        assert(t * total <= scaled < (t + 1) * total && t >= 0) by (nonlinear_arith)
            requires
                total > 0,
                t == scaled / total,
                scaled >= 0,
        ;
        if slot.bytes_done <= slot.bytes_total {
            assert(t <= 1000) by (nonlinear_arith)
                requires
                    total > 0,
                    t * total <= scaled,
                    scaled <= 1000 * total,
            ;
        }
        if slot.bytes_done >= slot.bytes_total {
            assert(t >= 1000) by (nonlinear_arith)
                requires
                    total > 0,
                    scaled < (t + 1) * total,
                    scaled >= 1000 * total,
            ;
        }
        let m = u64::MAX as int;
        assert(m / total >= 0) by (nonlinear_arith)
            requires
                total > 0,
                m >= 0,
        ;
    }
}

/// Of the lanes that are furthest the last is taken.
pub proof fn law_furthest_lane_is_the_last_of_the_best(lanes: Seq<Option<SlotView>>, i: int)
    requires
        0 <= i < lanes.len(),
    ensures
        0 <= furthest_lane(lanes) < lanes.len(),
        lane_progress(lanes[i]) <= lane_progress(lanes[furthest_lane(lanes)]),
        i > furthest_lane(lanes) ==> lane_progress(lanes[i]) < lane_progress(
            lanes[furthest_lane(lanes)],
        ),
    decreases lanes.len(),
{
    lemma_furthest_lane(lanes);
    if lanes.len() > 1 {
        let t = lanes.drop_last();
        lemma_furthest_lane(t);
        let best = furthest_lane(t);
        assert(t[best] == lanes[best]);
        if i < lanes.len() - 1 {
            law_furthest_lane_is_the_last_of_the_best(t, i);
            assert(t[i] == lanes[i]);
        }
    }
}

/// A file that is started takes its own lane, else the first free one, else that of the file
/// that is furthest; it is shown there from its beginning, with its size, as being copied.
pub proof fn law_started_files_take_a_lane(
    lanes: Seq<Option<SlotView>>,
    rel_path: Seq<char>,
    bytes_total: u64,
    k: int,
)
    requires
        0 <= k < lanes.len(),
    ensures
        shows(lanes[k], rel_path) && (forall|i: int|
            0 <= i < k ==> !shows(#[trigger] lanes[i], rel_path)) ==> started(
            lanes,
            rel_path,
            bytes_total,
        ) == lanes.update(k, Some(SlotView {
            rel_path,
            bytes_done: 0,
            bytes_total,
            phase: Some(FilePhase::Copying),
        })),
        (forall|i: int| 0 <= i < lanes.len() ==> !shows(#[trigger] lanes[i], rel_path))
            && lanes[k] is None && (forall|i: int| 0 <= i < k ==> (#[trigger] lanes[i]) is Some)
            ==> started(lanes, rel_path, bytes_total) == lanes.update(k, Some(SlotView {
            rel_path,
            bytes_done: 0,
            bytes_total,
            phase: Some(FilePhase::Copying),
        })),
{
    lemma_lane_of(lanes, rel_path);
    lemma_free_lane(lanes);
    if shows(lanes[k], rel_path) && (forall|i: int|
        0 <= i < k ==> !shows(#[trigger] lanes[i], rel_path)) {
        lemma_lane_of_is(lanes, rel_path, k);
    }
    if (forall|i: int| 0 <= i < lanes.len() ==> !shows(#[trigger] lanes[i], rel_path))
        && lanes[k] is None && (forall|i: int| 0 <= i < k ==> (#[trigger] lanes[i]) is Some) {
        lemma_lane_of_is(lanes, rel_path, lanes.len() as int);
        lemma_free_lane_is(lanes, k);
    }
}

/// News of a file is shown in its lane: how much of it is copied, or its phase, and the rest as
/// it was; a finished file leaves its lane free.
pub proof fn law_news_are_shown(
    lanes: Seq<Option<SlotView>>,
    rel_path: Seq<char>,
    bytes_done: u64,
    bytes_total: u64,
    phase: FilePhase,
    k: int,
)
    requires
        0 <= k < lanes.len(),
        shows(lanes[k], rel_path),
        forall|i: int| 0 <= i < k ==> !shows(#[trigger] lanes[i], rel_path),
    ensures
        progressed(lanes, rel_path, bytes_done, bytes_total)[k] == Some(SlotView {
            rel_path,
            bytes_done,
            bytes_total,
            phase: lanes[k]->0.phase,
        }),
        phased(lanes, rel_path, phase)[k] == Some(SlotView {
            rel_path,
            bytes_done: lanes[k]->0.bytes_done,
            bytes_total: lanes[k]->0.bytes_total,
            phase: Some(phase),
        }),
        freed(lanes, rel_path)[k] is None,
{
    lemma_lane_of_is(lanes, rel_path, k);
}

} // verus!
