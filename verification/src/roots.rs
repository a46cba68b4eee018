//! Destination roots: whether they can be used, and the locks on them.

use vstd::prelude::*;
use crate::error::{Error, ErrorView, Result};
use crate::path;
use crate::text;

verus! {

/// What asking the file system about a path found.
#[derive(Debug)]
pub enum RootState {
    Directory,
    NotDirectory,
    Missing,
    /// The question failed with this message.
    Failed(String),
}

/// Why a destination root cannot be used.
pub open spec fn root_fault(path: Seq<char>, kind: Seq<char>, state: RootState) -> Option<ErrorView> {
    match state {
        RootState::Directory => None,
        RootState::NotDirectory => Some(ErrorView::DestRootNotDir { path, kind }),
        RootState::Missing => Some(ErrorView::DestRootMissing { path, kind }),
        RootState::Failed(message) => Some(ErrorView::Io { path, source: message@ }),
    }
}

/// Accepts a destination root only if it is a directory. An empty one will do.
/// A root that is not there is refused, since on a drive that is not mounted
/// every file would look new.
pub fn check_dest_root(path: &str, kind: &'static str, state: &RootState) -> (r: Result<()>)
    ensures
        match root_fault(path@, kind@, *state) {
            None => r is Ok,
            Some(e) => r is Err && r->Err_0@ == e,
        },
{
    match state {
        RootState::Directory => Ok(()),
        RootState::NotDirectory => Err(
            Error::DestRootNotDir { path: text::copy_str(path), kind },
        ),
        RootState::Missing => Err(Error::DestRootMissing { path: text::copy_str(path), kind }),
        RootState::Failed(message) => Err(Error::io(path, message.as_str())),
    }
}

// ---------------------------------------------------------------------------
// Locks
// ---------------------------------------------------------------------------

/// The roots to lock, each once, in an order that all processes share.
pub open spec fn locked_roots(images: Seq<char>, videos: Seq<char>) -> Seq<Seq<char>> {
    if path::components(images) == path::components(videos) {
        seq![images]
    } else if path::components_before(path::components(videos), path::components(images)) {
        seq![videos, images]
    } else {
        seq![images, videos]
    }
}

/// The roots to lock, each once, in an order that all processes share.
pub fn lock_order(images_root: &str, videos_root: &str) -> (r: Vec<String>)
    ensures
        text::texts(r@) == locked_roots(images_root@, videos_root@),
{
    let mut out: Vec<String> = Vec::new();
    if path::same_path(images_root, videos_root) {
        out.push(text::copy_str(images_root));
    } else if path::is_before(videos_root, images_root) {
        out.push(text::copy_str(videos_root));
        out.push(text::copy_str(images_root));
    } else {
        out.push(text::copy_str(images_root));
        out.push(text::copy_str(videos_root));
    }
    proof {
        assert(text::texts(out@) =~= locked_roots(images_root@, videos_root@));
    }
    out
}

/// The file that stands for the lock on a root.
pub fn lock_path(root: &str) -> (r: String)
    ensures
        r@ == path::join(root@, ".imagesync.lock"@),
{
    path::join_path(root, ".imagesync.lock")
}

/// What came of locking a root without waiting.
#[derive(Debug)]
pub enum LockResult {
    Locked,
    /// Another process has the lock.
    WouldBlock,
    /// The lock file could not be opened or locked, for this reason.
    Failed(String),
}

/// Whether a root may be used, given what came of locking it.
pub fn lock_outcome(root: &str, result: &LockResult) -> (r: Result<()>)
    ensures
        match result {
            LockResult::Locked => r is Ok,
            LockResult::WouldBlock => r is Err && r->Err_0@ == (ErrorView::DestinationLocked {
                path: root@,
            }),
            LockResult::Failed(m) => r is Err && r->Err_0@ == (ErrorView::Io {
                path: path::join(root@, ".imagesync.lock"@),
                source: m@,
            }),
        },
{
    match result {
        LockResult::Locked => Ok(()),
        LockResult::WouldBlock => Err(Error::DestinationLocked { path: text::copy_str(root) }),
        LockResult::Failed(m) => {
            let p = lock_path(root);
            Err(Error::io(p.as_str(), m.as_str()))
        },
    }
}

proof fn lemma_component_order_total(a: Seq<char>, b: Seq<char>)
    ensures
        a == b <==> !path::component_before(a, b) && !path::component_before(b, a),
        !(path::component_before(a, b) && path::component_before(b, a)),
{
    text::lemma_text_order_total(a, b);
}

proof fn lemma_components_order_total(a: Seq<Seq<char>>, b: Seq<Seq<char>>)
    ensures
        a == b <==> !path::components_before(a, b) && !path::components_before(b, a),
        !(path::components_before(a, b) && path::components_before(b, a)),
    decreases a.len(),
{
    if a.len() == 0 || b.len() == 0 {
        if a.len() == b.len() {
            assert(a =~= b);
        }
    } else if a[0] == b[0] {
        lemma_components_order_total(a.skip(1), b.skip(1));
        if a.skip(1) == b.skip(1) {
            assert(a =~= seq![a[0]] + a.skip(1));
            assert(b =~= seq![b[0]] + b.skip(1));
            assert(a == b);
        }
    } else {
        lemma_component_order_total(a[0], b[0]);
        assert(a != b);
    }
}

/// Two runs on the same two roots lock them in the same order, whichever of
/// them holds the images.
pub proof fn law_lock_order_is_shared(a: Seq<char>, b: Seq<char>)
    requires
        path::components(a) != path::components(b),
    ensures
        locked_roots(a, b) == locked_roots(b, a),
{
    lemma_components_order_total(path::components(a), path::components(b));
}

/// A root can be used exactly if it is a directory; where it is not, the error tells what it is
/// and names it.
pub proof fn law_roots_are_directories(p: Seq<char>, kind: Seq<char>, state: RootState)
    ensures
        root_fault(p, kind, state) is None <==> state is Directory,
        state is Missing ==> root_fault(p, kind, state) == Some(
            ErrorView::DestRootMissing { path: p, kind },
        ),
        state is NotDirectory ==> root_fault(p, kind, state) == Some(
            ErrorView::DestRootNotDir { path: p, kind },
        ),
        state matches RootState::Failed(m) ==> root_fault(p, kind, state) == Some(
            ErrorView::Io { path: p, source: m@ },
        ),
{
}

} // verus!
