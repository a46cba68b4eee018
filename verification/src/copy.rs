//! Copying one file: progress, verification, temporary names, and the move into
//! place.

use vstd::prelude::*;
use crate::config::VerifyConfig;
use crate::error::{Error, ErrorView, Result};
use crate::path;
use crate::text;

verus! {

/// How much is read at once.
pub const COPY_BUF_SIZE: usize = 1048576;

/// How much is copied between two reports of progress.
pub const PROGRESS_BYTES_INTERVAL: u64 = 4194304;

// ---------------------------------------------------------------------------
// Hashing
// ---------------------------------------------------------------------------

/// The streaming state of the XXH3 hash.
#[verifier::external_type_specification]
#[verifier::external_body]
pub struct ExXxh3(xxhash_rust::xxh3::Xxh3);

/// The bytes that a hash state has been fed, in order.
pub uninterp spec fn fed(h: xxhash_rust::xxh3::Xxh3) -> Seq<u8>;

/// The 64-bit XXH3 hash of some bytes.
pub uninterp spec fn xxh3_64(bytes: Seq<u8>) -> u64;

/// `Xxh3::new`: a state that has been fed nothing.
#[verifier::external_body]
fn xxh3_new() -> (r: xxhash_rust::xxh3::Xxh3)
    ensures
        fed(r) == Seq::<u8>::empty(),
{
    xxhash_rust::xxh3::Xxh3::new()
}

/// `Xxh3::update`: feeds the state more bytes.
#[verifier::external_body]
fn xxh3_update(h: &mut xxhash_rust::xxh3::Xxh3, data: &[u8])
    ensures
        fed(*final(h)) == fed(*old(h)) + data@,
{
    h.update(data)
}

/// `Xxh3::digest`: the hash of the bytes fed so far. How they were cut into
/// pieces does not matter.
#[verifier::external_body]
fn xxh3_digest(h: &xxhash_rust::xxh3::Xxh3) -> (r: u64)
    ensures
        r == xxh3_64(fed(*h)),
{
    h.digest()
}

/// The hash of a file that is read piece by piece. Its view is what was read.
pub struct FileHash {
    state: xxhash_rust::xxh3::Xxh3,
}

impl View for FileHash {
    type V = Seq<u8>;

    closed spec fn view(&self) -> Seq<u8> {
        fed(self.state)
    }
}

impl FileHash {
    /// The hash of nothing.
    pub fn new() -> (r: Self)
        ensures
            r@ == Seq::<u8>::empty(),
    {
        FileHash { state: xxh3_new() }
    }

    /// Takes the next piece.
    pub fn update(&mut self, data: &[u8])
        ensures
            final(self)@ == old(self)@ + data@,
    {
        xxh3_update(&mut self.state, data)
    }

    /// The hash of all that was read.
    pub fn digest(&self) -> (r: u64)
        ensures
            r == xxh3_64(self@),
    {
        xxh3_digest(&self.state)
    }
}

// ---------------------------------------------------------------------------
// Progress
// ---------------------------------------------------------------------------

/// What is told while a file is copied.
#[derive(Debug, Clone, Copy, PartialEq, Eq, Structural)]
pub enum CopyEvent {
    Progress { bytes_done: u64, bytes_total: u64 },
    Verifying,
}

/// A copy that is being made.
pub struct CopyRun {
    bytes_total: u64,
    done: u64,
    reported: u64,
    hash: Option<FileHash>,
}

/// The state of a copy: how many bytes there are to copy, how many were copied
/// and how many were reported last, and the bytes themselves where the copy
/// will be verified.
pub struct CopyRunView {
    pub bytes_total: u64,
    pub done: nat,
    pub reported: nat,
    pub bytes: Option<Seq<u8>>,
}

impl View for CopyRun {
    type V = CopyRunView;

    closed spec fn view(&self) -> CopyRunView {
        CopyRunView {
            bytes_total: self.bytes_total,
            done: self.done as nat,
            reported: self.reported as nat,
            bytes: match self.hash {
                Some(h) => Some(h@),
                None => None,
            },
        }
    }
}

impl CopyRunView {
    /// Progress is at most one interval behind, and what was copied is what
    /// will be verified.
    pub open spec fn wf(self) -> bool {
        &&& self.reported <= self.done
        &&& self.done - self.reported < PROGRESS_BYTES_INTERVAL
        &&& self.bytes is Some ==> self.bytes->0.len() == self.done
    }

    /// The state after one more piece.
    pub open spec fn after(self, data: Seq<u8>) -> CopyRunView {
        let done = self.done + data.len();
        CopyRunView {
            bytes_total: self.bytes_total,
            done,
            reported: if done - self.reported >= PROGRESS_BYTES_INTERVAL {
                done
            } else {
                self.reported
            },
            bytes: match self.bytes {
                Some(b) => Some(b + data),
                None => None,
            },
        }
    }

    /// Whether one more piece is due for a report.
    pub open spec fn reports(self, data: Seq<u8>) -> bool {
        self.done + data.len() - self.reported >= PROGRESS_BYTES_INTERVAL
    }
}

impl CopyRun {
    /// A copy of a file of which nothing was copied yet.
    pub fn new(bytes_total: u64, verify: &VerifyConfig) -> (r: Self)
        ensures
            r@ == (CopyRunView {
                bytes_total,
                done: 0,
                reported: 0,
                bytes: if verify.enabled {
                    Some(Seq::empty())
                } else {
                    None
                },
            }),
            r@.wf(),
    {
        let hash = if verify.enabled {
            Some(FileHash::new())
        } else {
            None
        };
        CopyRun { bytes_total, done: 0, reported: 0, hash }
    }

    /// Takes a piece that was read and written. Reports progress once an
    /// interval has passed since the last report.
    pub fn chunk(&mut self, data: &[u8]) -> (r: Option<CopyEvent>)
        requires
            old(self)@.wf(),
            old(self)@.done + data@.len() <= u64::MAX,
        ensures
            final(self)@ == old(self)@.after(data@),
            final(self)@.wf(),
            r == if old(self)@.reports(data@) {
                Some(
                    CopyEvent::Progress {
                        bytes_done: final(self)@.done as u64,
                        bytes_total: old(self)@.bytes_total,
                    },
                )
            } else {
                None
            },
    {
        let n: u64 = data.len() as u64;
        match &mut self.hash {
            Some(h) => {
                h.update(data);
            },
            None => {},
        }
        self.done = self.done + n;
        if self.done - self.reported >= PROGRESS_BYTES_INTERVAL {
            self.reported = self.done;
            Some(CopyEvent::Progress { bytes_done: self.done, bytes_total: self.bytes_total })
        } else {
            None
        }
    }

    /// How many bytes were copied.
    pub fn bytes_done(&self) -> (r: u64)
        ensures
            r == self@.done,
    {
        self.done
    }

    /// What to tell before the copy is verified; `None` if it will not be.
    pub fn verifying(&self) -> (r: Option<CopyEvent>)
        ensures
            r == if self@.bytes is Some {
                Some(CopyEvent::Verifying)
            } else {
                None
            },
    {
        match &self.hash {
            Some(_) => Some(CopyEvent::Verifying),
            None => None,
        }
    }

    /// Holds a copy, read back, against what was copied.
    pub fn verify(&self, written: &FileHash) -> (r: Result<()>)
        ensures
            match self@.bytes {
                None => r is Ok,
                Some(b) => if xxh3_64(b) == xxh3_64(written@) {
                    r is Ok
                } else {
                    r is Err && r->Err_0@ == mismatch(xxh3_64(b), xxh3_64(written@))
                },
            },
            self@.bytes == Some(written@) ==> r is Ok,
    {
        match &self.hash {
            None => Ok(()),
            Some(h) => {
                let src: u64 = h.digest();
                let dst: u64 = written.digest();
                if src == dst {
                    Ok(())
                } else {
                    Err(mismatch_error(src, dst))
                }
            },
        }
    }

    /// The report that ends a copy.
    pub fn finished(&self) -> (r: CopyEvent)
        ensures
            r == (CopyEvent::Progress {
                bytes_done: self@.done as u64,
                bytes_total: self@.bytes_total,
            }),
    {
        CopyEvent::Progress { bytes_done: self.done, bytes_total: self.bytes_total }
    }
}

/// The error for a copy that does not read back as it was written.
pub open spec fn mismatch(src: u64, dst: u64) -> ErrorView {
    ErrorView::IoBare(
        "verify failed: src xxh3="@ + text::hex(src as nat, 16) + " dst xxh3="@ + text::hex(
            dst as nat,
            16,
        ),
    )
}

fn mismatch_error(src: u64, dst: u64) -> (r: Error)
    ensures
        r@ == mismatch(src, dst),
{
    let mut s = text::copy_str("verify failed: src xxh3=");
    let a = text::hex_text(src, 16);
    s.append(a.as_str());
    s.append(" dst xxh3=");
    let b = text::hex_text(dst, 16);
    s.append(b.as_str());
    Error::IoBare(s)
}

/// The state of a copy after a sequence of pieces.
pub open spec fn after_all(start: CopyRunView, pieces: Seq<Seq<u8>>) -> CopyRunView
    decreases pieces.len(),
{
    if pieces.len() == 0 {
        start
    } else {
        after_all(start, pieces.drop_last()).after(pieces.last())
    }
}

/// The pieces of a file, one after the other.
pub open spec fn concat(pieces: Seq<Seq<u8>>) -> Seq<u8>
    decreases pieces.len(),
{
    if pieces.len() == 0 {
        Seq::empty()
    } else {
        concat(pieces.drop_last()) + pieces.last()
    }
}

/// However a file is cut into pieces, all of it is counted and, where the copy
/// is verified, all of it is hashed; reports never lag an interval behind.
pub proof fn law_copy_counts_every_byte(bytes_total: u64, verify: bool, pieces: Seq<Seq<u8>>)
    ensures
        ({
            let start = CopyRunView {
                bytes_total,
                done: 0,
                reported: 0,
                bytes: if verify {
                    Some(Seq::<u8>::empty())
                } else {
                    None
                },
            };
            let end = after_all(start, pieces);
            &&& end.wf()
            &&& end.done == concat(pieces).len()
            &&& end.bytes == if verify {
                Some(concat(pieces))
            } else {
                None
            }
        }),
    decreases pieces.len(),
{
    if pieces.len() > 0 {
        law_copy_counts_every_byte(bytes_total, verify, pieces.drop_last());
    }
}

// ---------------------------------------------------------------------------
// Names and moves
// ---------------------------------------------------------------------------

/// The name under which a copy is written before it gets its own.
pub open spec fn temp_name(dest: Seq<char>, pid: u32, nanos: u32) -> Seq<char> {
    (match path::file_name(dest) {
        Some(name) => name,
        None => "file"@,
    }) + ".imagesync-tmp-"@ + text::decimal(pid as nat) + "-"@ + text::hex(nanos as nat, 8)
}

/// Where a copy is written before it gets its own name.
pub open spec fn temp_path(dest: Seq<char>, pid: u32, nanos: u32) -> Seq<char> {
    match path::parent(dest) {
        Some(dir) => path::join(dir, temp_name(dest, pid, nanos)),
        None => temp_name(dest, pid, nanos),
    }
}

/// Where a copy is written before it gets its own name: beside its
/// destination, under a name made of the process id and the time.
pub fn temp_path_for(dest: &str, pid: u32, nanos: u32) -> (r: String)
    ensures
        r@ == temp_path(dest@, pid, nanos),
{
    let mut name = match path::file_name_of(dest) {
        Some(name) => name,
        None => text::copy_str("file"),
    };
    name.append(".imagesync-tmp-");
    let p = text::decimal_text(pid as u64);
    name.append(p.as_str());
    name.append("-");
    let n = text::hex_text(nanos as u64, 8);
    name.append(n.as_str());
    match path::parent_of(dest) {
        Some(dir) => path::join_path(dir.as_str(), name.as_str()),
        None => name,
    }
}

/// The number of a rename across file systems: `EXDEV` on Unix.
pub const EXDEV: i32 = 18;

/// The number of a rename across volumes elsewhere: `ERROR_NOT_SAME_DEVICE`.
pub const NOT_SAME_DEVICE: i32 = 17;

/// The system's number for a rename across file systems.
pub open spec fn cross_device_code(unix: bool) -> i32 {
    if unix {
        EXDEV
    } else {
        NOT_SAME_DEVICE
    }
}

/// Whether a failed rename crossed file systems, on Unix or elsewhere.
pub fn is_cross_device(raw_os_error: Option<i32>, unix: bool) -> (r: bool)
    ensures
        r == (raw_os_error == Some(cross_device_code(unix))),
{
    match raw_os_error {
        Some(code) => if unix {
            code == EXDEV
        } else {
            code == NOT_SAME_DEVICE
        },
        None => false,
    }
}

/// What came of a rename.
#[derive(Debug)]
pub enum RenameResult {
    Moved,
    Failed { raw_os_error: Option<i32>, message: String },
}

/// What follows a rename.
#[derive(Debug)]
pub enum MoveStep {
    Done,
    /// Copy the file and remove the staged one.
    CopyAndRemove,
    Fail(Error),
}

/// What follows a rename of a staged file to its destination: a rename that
/// crossed file systems becomes a copy, any other failure is an error.
pub fn after_rename(dest: &str, result: &RenameResult, unix: bool) -> (r: MoveStep)
    ensures
        match result {
            RenameResult::Moved => r is Done,
            RenameResult::Failed { raw_os_error, message } => if *raw_os_error == Some(
                cross_device_code(unix),
            ) {
                r is CopyAndRemove
            } else {
                r is Fail && r->Fail_0@ == (ErrorView::Io { path: dest@, source: message@ })
            },
        },
{
    match result {
        RenameResult::Moved => MoveStep::Done,
        RenameResult::Failed { raw_os_error, message } => {
            if is_cross_device(*raw_os_error, unix) {
                MoveStep::CopyAndRemove
            } else {
                MoveStep::Fail(Error::io(dest, message.as_str()))
            }
        },
    }
}

proof fn lemma_hex_has_no_slash(n: nat, width: nat)
    ensures
        !text::hex(n, width).contains('/'),
    decreases width,
{
    if width > 0 {
        lemma_hex_has_no_slash(n / 16, (width - 1) as nat);
        let front = text::hex(n / 16, (width - 1) as nat);
        assert(n % 16 < 16);
        assert(text::hex_digit(n % 16) != '/');
        assert(text::hex(n, width) == front.push(text::hex_digit(n % 16)));
        lemma_push_no_slash(front, text::hex_digit(n % 16));
    }
}

proof fn lemma_push_no_slash(s: Seq<char>, c: char)
    requires
        !s.contains('/'),
        c != '/',
    ensures
        !s.push(c).contains('/'),
{
    assert forall|i: int| 0 <= i < s.push(c).len() implies s.push(c)[i] != '/' by {
        if i < s.len() {
            assert(s.contains(s[i]));
        }
    }
}

proof fn lemma_add_no_slash(a: Seq<char>, b: Seq<char>)
    requires
        !a.contains('/'),
        !b.contains('/'),
    ensures
        !(a + b).contains('/'),
{
    assert forall|i: int| 0 <= i < (a + b).len() implies (a + b)[i] != '/' by {
        if i < a.len() {
            assert(a.contains(a[i]));
        } else {
            assert(b.contains(b[i - a.len()]));
        }
    }
}

proof fn lemma_temp_name(dest: Seq<char>, pid: u32, nanos: u32)
    ensures
        !temp_name(dest, pid, nanos).contains('/'),
        temp_name(dest, pid, nanos).len() > 15,
        path::file_name(dest) matches Some(name) ==> temp_name(dest, pid, nanos).len()
            > name.len(),
{
    let name = match path::file_name(dest) {
        Some(name) => name,
        None => "file"@,
    };
    reveal_strlit("file");
    reveal_strlit(".imagesync-tmp-");
    reveal_strlit("-");
    if path::file_name(dest) is Some {
        path::lemma_last_component_has_no_slash(dest);
    }
    text::lemma_decimal_digits(pid as nat);
    lemma_hex_has_no_slash(nanos as nat, 8);
    let a = name + ".imagesync-tmp-"@;
    let b = a + text::decimal(pid as nat);
    let c = b + "-"@;
    lemma_add_no_slash(name, ".imagesync-tmp-"@);
    lemma_add_no_slash(a, text::decimal(pid as nat));
    lemma_add_no_slash(b, "-"@);
    lemma_add_no_slash(c, text::hex(nanos as nat, 8));
}

/// A copy is made in the directory of its destination, under another name, so that giving
/// it its own name is a rename within one directory.
pub proof fn law_temp_is_beside_its_destination(dest: Seq<char>, pid: u32, nanos: u32)
    requires
        path::file_name(dest) is Some,
    ensures
        path::parent(temp_path(dest, pid, nanos)) == path::parent(dest),
        path::file_name(temp_path(dest, pid, nanos)) != path::file_name(dest),
{
    let dir = path::parent(dest)->0;
    let name = temp_name(dest, pid, nanos);
    lemma_temp_name(dest, pid, nanos);
    path::law_parent_of_join(dir, name);
    path::lemma_parent_is_trimmed(dest);
    path::law_file_name_of_join(dir, name);
}

/// Each piece of a file counts with all of its bytes, the total stays, and progress is reported
/// once four mebibytes were copied since the last report, with how far the copy is then.
pub proof fn law_pieces_count_in_full(s: CopyRunView, data: Seq<u8>)
    ensures
        s.after(data).done == s.done + data.len(),
        s.after(data).bytes_total == s.bytes_total,
        s.bytes is Some <==> s.after(data).bytes is Some,
        s.bytes is Some ==> s.after(data).bytes->0 == s.bytes->0 + data,
        s.reports(data) <==> s.done + data.len() >= s.reported + 4 * 1024 * 1024,
        s.reports(data) ==> s.after(data).reported == s.after(data).done,
        !s.reports(data) ==> s.after(data).reported == s.reported,
{
}

/// A rename across file systems is told by its number alone: 18 on Unix and 17 elsewhere.
pub proof fn law_crossing_has_its_own_number(unix: bool)
    ensures
        unix ==> cross_device_code(unix) == 18,
        !unix ==> cross_device_code(unix) == 17,
{
}

/// A copy in the making is told from every finished file: its name is that of its destination
/// with a mark behind it, the process and the time.
pub proof fn law_temp_name_extends_the_name(dest: Seq<char>, pid: u32, nanos: u32)
    requires
        path::file_name(dest) is Some,
    ensures
        (path::file_name(dest)->0 + ".imagesync-tmp-"@ + text::decimal(pid as nat)).is_prefix_of(
            temp_name(dest, pid, nanos),
        ),
        path::file_name(temp_path(dest, pid, nanos)) == Some(temp_name(dest, pid, nanos)),
{
    let front = path::file_name(dest)->0 + ".imagesync-tmp-"@ + text::decimal(pid as nat);
    let all = temp_name(dest, pid, nanos);
    assert(front =~= all.subrange(0, front.len() as int));
    lemma_temp_name(dest, pid, nanos);
    path::law_file_name_of_join(path::parent(dest)->0, all);
}

/// A copy that reads back differently is told with both sums: first that of the source, then
/// that of the copy.
pub proof fn law_mismatches_tell_both_sums(src: u64, dst: u64)
    ensures
        mismatch(src, dst) matches ErrorView::IoBare(m) && ("verify failed: src xxh3="@ + text::hex(
            src as nat,
            16,
        )).is_prefix_of(m) && (" dst xxh3="@ + text::hex(dst as nat, 16)).is_suffix_of(m),
{
    let m = mismatch(src, dst)->IoBare_0;
    let begin = "verify failed: src xxh3="@ + text::hex(src as nat, 16);
    let end = " dst xxh3="@ + text::hex(dst as nat, 16);
    assert(m.take(begin.len() as int) =~= begin);
    assert(m.skip(m.len() - end.len()) =~= end);
}

} // verus!
