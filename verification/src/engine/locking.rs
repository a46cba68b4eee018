//! What the locks on the destination roots come to, over whole runs.

use vstd::prelude::*;
use crate::error::ErrorView;
use crate::path;
use crate::roots::{self, LockResult, RootState};
use super::execute::{SetupActionView, SetupEvent, SetupStage, SetupState};

verus! {

/// What the setup of an execution was told, step by step, each time with whether the run was
/// to stop.
pub type SetupTrace = Seq<(SetupEvent, bool)>;

/// The state after some steps.
pub open spec fn setup_after(s: SetupState, t: SetupTrace) -> SetupState
    decreases t.len(),
{
    if t.len() == 0 {
        s
    } else {
        setup_after(s, t.drop_last()).next(t.last().0, t.last().1).0
    }
}

/// The action of the last step.
pub open spec fn setup_action(s: SetupState, t: SetupTrace) -> SetupActionView
    recommends
        t.len() > 0,
{
    setup_after(s, t.drop_last()).next(t.last().0, t.last().1).1
}

/// Whether one of the steps let the copying begin.
pub open spec fn has_started(s: SetupState, t: SetupTrace) -> bool
    decreases t.len(),
{
    t.len() > 0 && (has_started(s, t.drop_last()) || setup_action(s, t) is RunStaging)
}

/// Whether one of the steps asked for the lock on a root.
pub open spec fn has_asked(s: SetupState, t: SetupTrace, root: Seq<char>) -> bool
    decreases t.len(),
{
    t.len() > 0 && (has_asked(s, t.drop_last(), root) || setup_action(s, t) == (
    SetupActionView::Lock { root }))
}

/// Whether an event answers the request for the lock on a root.
pub open spec fn answers_for(s: SetupState, e: SetupEvent, root: Seq<char>) -> bool {
    e is Lock && (s.stage matches SetupStage::Locking(k) && s.roots()[k as int] == root)
}

/// Whether the lock on a root was obtained.
pub open spec fn has_lock(s: SetupState, t: SetupTrace, root: Seq<char>) -> bool
    decreases t.len(),
{
    t.len() > 0 && (has_lock(s, t.drop_last(), root) || (answers_for(
        setup_after(s, t.drop_last()),
        t.last().0,
        root,
    ) && t.last().0->Lock_0 is Locked))
}

/// Whether the lock on a root was refused, since another process has it.
pub open spec fn was_refused(s: SetupState, t: SetupTrace, root: Seq<char>) -> bool
    decreases t.len(),
{
    t.len() > 0 && (was_refused(s, t.drop_last(), root) || (answers_for(
        setup_after(s, t.drop_last()),
        t.last().0,
        root,
    ) && t.last().0->Lock_0 is WouldBlock))
}

/// Whether one of the steps ended the run because a root is locked.
pub open spec fn has_failed_on(s: SetupState, t: SetupTrace, root: Seq<char>) -> bool
    decreases t.len(),
{
    t.len() > 0 && (has_failed_on(s, t.drop_last(), root) || setup_action(s, t)
        == SetupActionView::Fail(ErrorView::DestinationLocked { path: root }))
}

/// The roots before some number have been asked for and obtained.
spec fn has_first(s: SetupState, t: SetupTrace, n: int) -> bool {
    forall|i: int|
        0 <= i < n && i < s.roots().len() ==> has_lock(s, t, #[trigger] s.roots()[i]) && has_asked(
            s,
            t,
            s.roots()[i],
        )
}

/// How many locks the stage of a run that copies implies.
spec fn locks_behind(s: SetupState) -> int {
    match s.stage {
        SetupStage::Locking(k) => k as int,
        SetupStage::Announced => s.roots().len() as int,
        SetupStage::Warning(_) => s.roots().len() as int,
        _ => 0,
    }
}

proof fn lemma_setup_trace(s: SetupState, t: SetupTrace)
    requires
        s.stage is Ready,
        !s.dry_run,
        s.cfg.template_warnings.len() <= usize::MAX,
    ensures
        ({
            let n = setup_after(s, t);
            &&& n.wf()
            &&& n.cfg == s.cfg && !n.dry_run
            &&& has_first(s, t, locks_behind(n))
            &&& n.stage matches SetupStage::Locking(k) ==> has_asked(s, t, s.roots()[k as int])
            &&& has_started(s, t) ==> n.stage is Over && has_first(s, t, s.roots().len() as int)
            &&& forall|root: Seq<char>| #[trigger]
                was_refused(s, t, root) ==> n.stage is Over && !has_started(s, t) && has_failed_on(
                    s,
                    t,
                    root,
                ) && has_asked(s, t, root)
        }),
    decreases t.len(),
{
    if t.len() > 0 {
        let before = t.drop_last();
        let b = setup_after(s, before);
        let n = setup_after(s, t);
        lemma_setup_trace(s, before);
        assert(b.roots() == s.roots());
        assert(s.roots().len() <= 2);
        if let SetupStage::Locking(k) = b.stage {
            if answers_for(b, t.last().0, s.roots()[k as int]) && t.last().0->Lock_0 is Locked {
                assert(has_lock(s, t, s.roots()[k as int]));
                assert(has_asked(s, t, s.roots()[k as int]));
            }
        }
        assert forall|i: int|
            0 <= i < locks_behind(n) && i < s.roots().len() implies has_lock(
            s,
            t,
            #[trigger] s.roots()[i],
        ) && has_asked(s, t, s.roots()[i]) by {
            if i < locks_behind(b) {
                assert(has_lock(s, before, s.roots()[i]));
            }
        }
        if has_started(s, t) {
            assert forall|i: int| 0 <= i < s.roots().len() implies has_lock(
                s,
                t,
                #[trigger] s.roots()[i],
            ) && has_asked(s, t, s.roots()[i]) by {
                assert(has_lock(s, before, s.roots()[i]));
            }
        }
        assert forall|root: Seq<char>| #[trigger] was_refused(s, t, root) implies n.stage is Over
            && !has_started(s, t) && has_failed_on(s, t, root) && has_asked(s, t, root) by {
            if was_refused(s, before, root) {
                assert(b.stage is Over);
            }
        }
    }
}

/// The roots that a run locks are its two destination roots, each once.
pub proof fn law_both_roots_are_locked(images: Seq<char>, videos: Seq<char>)
    ensures
        ({
            let rs = roots::locked_roots(images, videos);
            &&& rs.len() == if path::components(images) == path::components(videos) {
                1int
            } else {
                2int
            }
            &&& rs.contains(images)
            &&& exists|i: int|
                0 <= i < rs.len() && path::components(#[trigger] rs[i]) == path::components(videos)
            &&& forall|i: int|
                0 <= i < rs.len() ==> #[trigger] rs[i] == images || rs[i] == videos
        }),
{
    let rs = roots::locked_roots(images, videos);
    if path::components(images) == path::components(videos) {
        assert(rs[0] == images);
    } else if path::components_before(path::components(videos), path::components(images)) {
        assert(rs[1] == images);
        assert(rs[0] == videos);
    } else {
        assert(rs[0] == images);
        assert(rs[1] == videos);
    }
}

/// An import begins to copy only once it was asked for and has got the locks on all of its
/// roots; and one that is refused the lock on a root ends with that root as locked and never
/// begins.
pub proof fn law_import_holds_its_roots(s: SetupState, t: SetupTrace, root: Seq<char>)
    requires
        s.stage is Ready,
        !s.dry_run,
        s.cfg.template_warnings.len() <= usize::MAX,
        s.roots().contains(root),
    ensures
        has_started(s, t) ==> has_asked(s, t, root) && has_lock(s, t, root),
        was_refused(s, t, root) ==> has_asked(s, t, root) && has_failed_on(s, t, root)
            && !has_started(s, t),
{
    lemma_setup_trace(s, t);
    let i = choose|i: int| 0 <= i < s.roots().len() && s.roots()[i] == root;
    assert(s.roots()[i] == root);
}

/// What the setup is told where both roots are directories and no lock is refused.
pub open spec fn free_trace(locks: nat) -> SetupTrace {
    seq![
        (SetupEvent::Start, false),
        (SetupEvent::Roots(RootState::Directory, RootState::Directory), false),
    ] + Seq::new(locks, |i: int| (SetupEvent::Lock(LockResult::Locked), false))
}

proof fn lemma_free_trace(s: SetupState, n: nat)
    requires
        s.stage is Ready,
        !s.dry_run,
        n <= s.roots().len(),
    ensures
        setup_after(s, free_trace(n)) == s.lock(n as int).0,
    decreases n,
{
    let t = free_trace(n);
    if n == 0 {
        let one = t.drop_last();
        assert(one.drop_last() =~= Seq::empty());
        assert(setup_after(s, one.drop_last()) == s);
        assert(setup_after(s, one) == s.at(SetupStage::Checking));
    } else {
        lemma_free_trace(s, (n - 1) as nat);
        assert(t.drop_last() =~= free_trace((n - 1) as nat));
        assert(s.roots().len() <= 2);
    }
}

/// An import whose roots are directories that no other process has locked gets the locks on
/// all of them, one after another, and goes on to announce its start.
pub proof fn law_free_roots_are_locked(s: SetupState)
    requires
        s.stage is Ready,
        !s.dry_run,
        s.cfg.template_warnings.len() <= usize::MAX,
    ensures
        ({
            let t = free_trace(s.roots().len());
            &&& setup_after(s, t) == s.announce().0
            &&& setup_action(s, t) == s.announce().1
            &&& forall|i: int| 0 <= i < s.roots().len() ==> has_lock(s, t, #[trigger] s.roots()[i])
        }),
{
    let n = s.roots().len();
    let t = free_trace(n);
    lemma_free_trace(s, n);
    lemma_free_trace(s, (n - 1) as nat);
    assert(t.drop_last() =~= free_trace((n - 1) as nat));
    lemma_setup_trace(s, t);
}

/// Two imports that share a root do not copy at the same time: where the lock on the root is
/// not given to both, not both begin; and the one that is refused it ends with that root as
/// locked.
pub proof fn law_imports_exclude_each_other(
    a: SetupState,
    s: SetupTrace,
    b: SetupState,
    t: SetupTrace,
    x: Seq<char>,
    y: Seq<char>,
)
    requires
        a.stage is Ready && b.stage is Ready,
        !a.dry_run && !b.dry_run,
        a.cfg.template_warnings.len() <= usize::MAX,
        b.cfg.template_warnings.len() <= usize::MAX,
        a.roots().contains(x),
        b.roots().contains(y),
        path::components(x) == path::components(y),
        !(has_lock(a, s, x) && has_lock(b, t, y)),
    ensures
        !(has_started(a, s) && has_started(b, t)),
        was_refused(b, t, y) ==> has_failed_on(b, t, y) && !has_started(b, t),
        was_refused(a, s, x) ==> has_failed_on(a, s, x) && !has_started(a, s),
{
    law_import_holds_its_roots(a, s, x);
    law_import_holds_its_roots(b, t, y);
}

} // verus!
