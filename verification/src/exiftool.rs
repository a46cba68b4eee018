//! The conversation with ExifTool: what is asked of it and what its answers
//! mean.

use vstd::prelude::*;
use vstd::utf8;
use crate::datetime::{self, DateTime};
use crate::error::{Error, ErrorView, Result};
use crate::text;

verus! {

/// What ExifTool told of a file.
#[derive(Debug)]
pub struct FileMetadata {
    pub date_time_original: Option<DateTime>,
    pub create_date: Option<DateTime>,
    pub media_create_date: Option<DateTime>,
    pub modify_date: Option<DateTime>,
    pub make: Option<String>,
    pub model: Option<String>,
}

/// The contents of a [`FileMetadata`].
pub struct MetadataView {
    pub date_time_original: Option<DateTime>,
    pub create_date: Option<DateTime>,
    pub media_create_date: Option<DateTime>,
    pub modify_date: Option<DateTime>,
    pub make: Option<Seq<char>>,
    pub model: Option<Seq<char>>,
}

impl View for FileMetadata {
    type V = MetadataView;

    open spec fn view(&self) -> MetadataView {
        MetadataView {
            date_time_original: self.date_time_original,
            create_date: self.create_date,
            media_create_date: self.media_create_date,
            modify_date: self.modify_date,
            make: text::opt_text(self.make),
            model: text::opt_text(self.model),
        }
    }
}

/// Nothing known of a file.
pub open spec fn no_metadata() -> MetadataView {
    MetadataView {
        date_time_original: None,
        create_date: None,
        media_create_date: None,
        modify_date: None,
        make: None,
        model: None,
    }
}

impl Default for FileMetadata {
    fn default() -> (r: Self)
        ensures
            r@ == no_metadata(),
    {
        FileMetadata {
            date_time_original: None,
            create_date: None,
            media_create_date: None,
            modify_date: None,
            make: None,
            model: None,
        }
    }
}

impl Clone for FileMetadata {
    fn clone(&self) -> (r: Self)
        ensures
            r@ == self@,
    {
        FileMetadata {
            date_time_original: self.date_time_original,
            create_date: self.create_date,
            media_create_date: self.media_create_date,
            modify_date: self.modify_date,
            make: text::copy_opt(&self.make),
            model: text::copy_opt(&self.model),
        }
    }
}

impl MetadataView {
    /// The first date that is known, in the order of how well it tells when a
    /// picture was taken.
    pub open spec fn best(self) -> Option<DateTime> {
        if self.date_time_original is Some {
            self.date_time_original
        } else if self.create_date is Some {
            self.create_date
        } else if self.media_create_date is Some {
            self.media_create_date
        } else {
            self.modify_date
        }
    }
}

impl FileMetadata {
    /// The best known date.
    pub fn best_datetime(&self) -> (r: Option<DateTime>)
        ensures
            r == self@.best(),
    {
        if self.date_time_original.is_some() {
            self.date_time_original
        } else if self.create_date.is_some() {
            self.create_date
        } else if self.media_create_date.is_some() {
            self.media_create_date
        } else {
            self.modify_date
        }
    }
}

// ---------------------------------------------------------------------------
// Dates in answers
// ---------------------------------------------------------------------------

/// How many bytes a date and time takes.
pub const DATE_LEN: usize = 19;

/// The text that the first bytes of `s` spell.
pub open spec fn date_head(s: Seq<char>) -> Seq<char> {
    utf8::decode_utf8(utf8::encode_utf8(s).subrange(0, 19))
}

/// Whether a text takes at least as many bytes as a date and time.
pub open spec fn has_date_len(s: Seq<char>) -> bool {
    utf8::encode_utf8(s).len() >= 19
}

/// Whether a text can be cut after the bytes of a date: it is shorter, or a
/// character ends there.
pub open spec fn can_cut(s: Seq<char>) -> bool {
    has_date_len(s) ==> utf8::is_char_boundary(utf8::encode_utf8(s), 19)
}

/// Whether all of a text is a date.
pub open spec fn is_whole(s: Seq<char>) -> bool {
    datetime::parsed(s, "%Y-%m-%d %H:%M:%S"@) is Some || datetime::parsed(
        s,
        "%Y:%m:%d %H:%M:%S"@,
    ) is Some
}

/// Whether a date can be looked for in a text: it is one, or it can be cut to the length of
/// one.
pub open spec fn can_read(s: Seq<char>) -> bool {
    is_whole(s) || can_cut(s)
}

/// The first of four dates that is there.
pub open spec fn first_date(
    a: Option<DateTime>,
    b: Option<DateTime>,
    c: Option<DateTime>,
    d: Option<DateTime>,
) -> Option<DateTime> {
    if a is Some {
        a
    } else if b is Some {
        b
    } else if c is Some {
        c
    } else {
        d
    }
}

/// The date that a text spells: with dashes or with colons, and failing that
/// without what follows the seconds.
pub open spec fn date_of(s: Seq<char>) -> Option<DateTime> {
    first_date(
        datetime::parsed(s, "%Y-%m-%d %H:%M:%S"@),
        datetime::parsed(s, "%Y:%m:%d %H:%M:%S"@),
        if has_date_len(s) {
            datetime::parsed(date_head(s), "%Y-%m-%d %H:%M:%S"@)
        } else {
            None
        },
        if has_date_len(s) {
            datetime::parsed(date_head(s), "%Y:%m:%d %H:%M:%S"@)
        } else {
            None
        },
    )
}

/// The first of four dates that is there.
pub fn pick_date(
    a: Option<DateTime>,
    b: Option<DateTime>,
    c: Option<DateTime>,
    d: Option<DateTime>,
) -> (r: Option<DateTime>)
    ensures
        r == first_date(a, b, c, d),
{
    if a.is_some() {
        a
    } else if b.is_some() {
        b
    } else if c.is_some() {
        c
    } else {
        d
    }
}

/// Whether [`parse_dt`] can read a text.
pub fn is_readable_date(s: &str) -> (r: bool)
    ensures
        r == can_read(s@),
{
    s.as_bytes().len() < DATE_LEN || s.is_char_boundary(DATE_LEN) || datetime::parse_from_str(
        s,
        "%Y-%m-%d %H:%M:%S",
    ).is_some() || datetime::parse_from_str(s, "%Y:%m:%d %H:%M:%S").is_some()
}

/// The date that a text spells. A fraction of a second or a time zone behind
/// it is left out.
pub fn parse_dt(s: &str) -> (r: Option<DateTime>)
    requires
        can_read(s@),
    ensures
        r == date_of(s@),
        r matches Some(dt) ==> dt.is_civil(),
{
    let a = datetime::parse_from_str(s, "%Y-%m-%d %H:%M:%S");
    let b = datetime::parse_from_str(s, "%Y:%m:%d %H:%M:%S");
    if a.is_some() || b.is_some() || s.as_bytes().len() < DATE_LEN {
        return pick_date(a, b, None, None);
    }
    let (head, _) = s.split_at(DATE_LEN);
    proof {
        utf8::encode_utf8_decode_utf8(head@);
    }
    let c = datetime::parse_from_str(head, "%Y-%m-%d %H:%M:%S");
    let d = datetime::parse_from_str(head, "%Y:%m:%d %H:%M:%S");
    pick_date(a, b, c, d)
}

// ---------------------------------------------------------------------------
// Entries
// ---------------------------------------------------------------------------

/// What ExifTool answers for one file, as it spells it.
#[derive(Debug)]
pub struct RawEntry {
    pub source_file: Option<String>,
    pub date_time_original: Option<String>,
    pub create_date: Option<String>,
    pub media_create_date: Option<String>,
    pub modify_date: Option<String>,
    pub make: Option<String>,
    pub model: Option<String>,
}

/// The contents of a [`RawEntry`].
pub struct RawEntryView {
    pub source_file: Option<Seq<char>>,
    pub date_time_original: Option<Seq<char>>,
    pub create_date: Option<Seq<char>>,
    pub media_create_date: Option<Seq<char>>,
    pub modify_date: Option<Seq<char>>,
    pub make: Option<Seq<char>>,
    pub model: Option<Seq<char>>,
}

impl View for RawEntry {
    type V = RawEntryView;

    open spec fn view(&self) -> RawEntryView {
        RawEntryView {
            source_file: text::opt_text(self.source_file),
            date_time_original: text::opt_text(self.date_time_original),
            create_date: text::opt_text(self.create_date),
            media_create_date: text::opt_text(self.media_create_date),
            modify_date: text::opt_text(self.modify_date),
            make: text::opt_text(self.make),
            model: text::opt_text(self.model),
        }
    }
}

/// The date that an optional text spells.
pub open spec fn opt_date(s: Option<Seq<char>>) -> Option<DateTime> {
    match s {
        Some(t) => date_of(t),
        None => None,
    }
}

/// Whether a date can be looked for in a text that may not be there.
pub open spec fn opt_can_read(s: Option<Seq<char>>) -> bool {
    s matches Some(t) ==> can_read(t)
}

impl RawEntryView {
    /// What the answer means.
    pub open spec fn meaning(self) -> MetadataView {
        MetadataView {
            date_time_original: opt_date(self.date_time_original),
            create_date: opt_date(self.create_date),
            media_create_date: opt_date(self.media_create_date),
            modify_date: opt_date(self.modify_date),
            make: self.make,
            model: self.model,
        }
    }

    /// Whether all dates of the answer can be read.
    pub open spec fn readable(self) -> bool {
        &&& opt_can_read(self.date_time_original)
        &&& opt_can_read(self.create_date)
        &&& opt_can_read(self.media_create_date)
        &&& opt_can_read(self.modify_date)
    }
}

fn opt_is_readable(s: &Option<String>) -> (r: bool)
    ensures
        r == opt_can_read(text::opt_text(*s)),
{
    match s {
        Some(t) => is_readable_date(t.as_str()),
        None => true,
    }
}

fn parse_opt(s: &Option<String>) -> (r: Option<DateTime>)
    requires
        opt_can_read(text::opt_text(*s)),
    ensures
        r == opt_date(text::opt_text(*s)),
{
    match s {
        Some(t) => parse_dt(t.as_str()),
        None => None,
    }
}

impl RawEntry {
    /// Whether all dates of the answer can be read.
    pub fn is_readable(&self) -> (r: bool)
        ensures
            r == self@.readable(),
    {
        opt_is_readable(&self.date_time_original) && opt_is_readable(&self.create_date)
            && opt_is_readable(&self.media_create_date) && opt_is_readable(&self.modify_date)
    }

    /// What the answer means.
    pub fn to_metadata(&self) -> (r: FileMetadata)
        requires
            self@.readable(),
        ensures
            r@ == self@.meaning(),
    {
        FileMetadata {
            date_time_original: parse_opt(&self.date_time_original),
            create_date: parse_opt(&self.create_date),
            media_create_date: parse_opt(&self.media_create_date),
            modify_date: parse_opt(&self.modify_date),
            make: text::copy_opt(&self.make),
            model: text::copy_opt(&self.model),
        }
    }
}

/// The last answer for a path, or -1.
pub open spec fn answer_for(entries: Seq<RawEntry>, path: Seq<char>) -> int
    decreases entries.len(),
{
    if entries.len() == 0 {
        -1
    } else if entries.last()@.source_file == Some(path) {
        entries.len() - 1
    } else {
        answer_for(entries.drop_last(), path)
    }
}

/// The answer that counts for the path at a position, or -1: answers as many as the paths
/// stand in the order of the paths, others are found by name.
pub open spec fn source_of(entries: Seq<RawEntry>, paths: Seq<Seq<char>>, i: int) -> int {
    if entries.len() == paths.len() {
        i
    } else {
        answer_for(entries, paths[i])
    }
}

/// What the answers say of the path at a position.
pub open spec fn told(entries: Seq<RawEntry>, paths: Seq<Seq<char>>, i: int) -> MetadataView {
    if source_of(entries, paths, i) >= 0 {
        entries[source_of(entries, paths, i)]@.meaning()
    } else {
        no_metadata()
    }
}

/// Whether the answer that counts for the path at a position can be read.
pub open spec fn told_readably(entries: Seq<RawEntry>, paths: Seq<Seq<char>>, i: int) -> bool {
    source_of(entries, paths, i) >= 0 ==> entries[source_of(entries, paths, i)]@.readable()
}

/// Whether all answers that count can be read.
pub open spec fn all_readable(entries: Seq<RawEntry>, paths: Seq<Seq<char>>) -> bool {
    forall|i: int| 0 <= i < paths.len() ==> #[trigger] told_readably(entries, paths, i)
}

fn is_for(e: &RawEntry, path: &str) -> (r: bool)
    ensures
        r == (e@.source_file == Some(path@)),
{
    match &e.source_file {
        Some(p) => text::same_text(p.as_str(), path),
        None => false,
    }
}

fn find_answer(entries: &Vec<RawEntry>, path: &str) -> (r: Option<usize>)
    ensures
        match r {
            Some(i) => i < entries@.len() && answer_for(entries@, path@) == i,
            None => answer_for(entries@, path@) == -1,
        },
{
    let mut n: usize = entries.len();
    proof {
        assert(entries@.take(n as int) =~= entries@);
    }
    while n > 0
        invariant
            n <= entries@.len(),
            answer_for(entries@, path@) == answer_for(entries@.take(n as int), path@),
        decreases n,
    {
        proof {
            assert(entries@.take(n as int).drop_last() =~= entries@.take(n - 1));
            assert(entries@.take(n as int).last() == entries@[n - 1]);
        }
        n -= 1;
        if is_for(&entries[n], path) {
            return Some(n);
        }
    }
    None
}

/// What the answers say of each path; `None` if a date among them cannot be
/// read.
pub fn checked_metadata(entries: &Vec<RawEntry>, paths: &Vec<String>) -> (r: Option<
    Vec<FileMetadata>,
>)
    ensures
        r is Some <==> all_readable(entries@, text::texts(paths@)),
        r matches Some(v) ==> v@.len() == paths@.len() && forall|i: int|
            0 <= i < paths@.len() ==> (#[trigger] v@[i])@ == told(
                entries@,
                text::texts(paths@),
                i,
            ),
{
    let ghost ps = text::texts(paths@);
    let mut out: Vec<FileMetadata> = Vec::new();
    let mut i: usize = 0;
    while i < paths.len()
        invariant
            i <= paths@.len(),
            ps == text::texts(paths@),
            out@.len() == i,
            forall|k: int| 0 <= k < i ==> #[trigger] told_readably(entries@, ps, k),
            forall|k: int| 0 <= k < i ==> (#[trigger] out@[k])@ == told(entries@, ps, k),
        decreases paths@.len() - i,
    {
        let found = if entries.len() == paths.len() {
            Some(i)
        } else {
            find_answer(entries, paths[i].as_str())
        };
        let m = match found {
            Some(k) => {
                if !entries[k].is_readable() {
                    proof {
                        assert(!told_readably(entries@, ps, i as int));
                    }
                    return None;
                }
                entries[k].to_metadata()
            },
            None => FileMetadata::default(),
        };
        proof {
            assert(told_readably(entries@, ps, i as int));
        }
        out.push(m);
        i += 1;
    }
    Some(out)
}

// ---------------------------------------------------------------------------
// Requests
// ---------------------------------------------------------------------------

/// What every request asks for: JSON with dates in one format, quick and
/// quiet, of the tags that date a picture and name its camera.
pub open spec fn request_head() -> Seq<char> {
    "-json\n-charset\nfilename=UTF8\n-fast2\n-q\n-d\n%Y-%m-%d %H:%M:%S\n-DateTimeOriginal\n-CreateDate\n-MediaCreateDate\n-ModifyDate\n-Make\n-Model\n-FileType\n-MIMEType\n"@
}

/// One line for each path.
pub open spec fn path_lines(paths: Seq<Seq<char>>) -> Seq<char>
    decreases paths.len(),
{
    if paths.len() == 0 {
        Seq::empty()
    } else {
        (path_lines(paths.drop_last()) + paths.last()).push('\n')
    }
}

/// The request for the metadata of some files. Its number comes back at the
/// end of the answer.
pub open spec fn request(tag: nat, paths: Seq<Seq<char>>) -> Seq<char> {
    (request_head() + path_lines(paths) + "-execute"@ + text::decimal(tag)).push('\n')
}

/// The line that ends the answer to a request.
pub open spec fn ready_marker(tag: nat) -> Seq<char> {
    ("{ready"@ + text::decimal(tag)).push('}')
}

/// A long-lived ExifTool process is asked one batch after the other, and each
/// request has its own number.
#[derive(Debug)]
pub struct Conversation {
    pub counter: u64,
}

/// The answer to one request, as far as it has been read.
#[derive(Debug)]
pub struct Batch {
    pub tag: u64,
    pub json: String,
}

impl Conversation {
    /// A conversation in which nothing was asked yet.
    pub fn new() -> (r: Self)
        ensures
            r.counter == 0,
    {
        Conversation { counter: 0 }
    }

    /// Starts a batch: what to write to the process, and the empty answer.
    pub fn begin(&mut self, paths: &Vec<String>) -> (r: (String, Batch))
        requires
            old(self).counter < u64::MAX,
        ensures
            final(self).counter == old(self).counter + 1,
            r.1.tag == final(self).counter,
            r.1.json@ == Seq::<char>::empty(),
            r.0@ == request(final(self).counter as nat, text::texts(paths@)),
    {
        self.counter = self.counter + 1;
        let tag: u64 = self.counter;
        let mut out = text::copy_str(
            "-json\n-charset\nfilename=UTF8\n-fast2\n-q\n-d\n%Y-%m-%d %H:%M:%S\n-DateTimeOriginal\n-CreateDate\n-MediaCreateDate\n-ModifyDate\n-Make\n-Model\n-FileType\n-MIMEType\n",
        );
        let ghost all = text::texts(paths@);
        let mut i: usize = 0;
        proof {
            assert(request_head() + path_lines(all.take(0)) =~= request_head());
        }
        while i < paths.len()
            invariant
                i <= paths@.len(),
                all == text::texts(paths@),
                out@ == request_head() + path_lines(all.take(i as int)),
            decreases paths@.len() - i,
        {
            proof {
                assert(all.take(i + 1).drop_last() =~= all.take(i as int));
                assert(all.take(i + 1).last() == paths@[i as int]@);
            }
            out.append(paths[i].as_str());
            out.push('\n');
            i += 1;
            proof {
                assert(out@ =~= request_head() + path_lines(all.take(i as int)));
            }
        }
        proof {
            assert(all.take(all.len() as int) =~= all);
        }
        out.append("-execute");
        let number = text::decimal_text(tag);
        out.append(number.as_str());
        out.push('\n');
        (out, Batch { tag, json: String::new() })
    }
}

/// What one line of output means to a batch.
#[derive(Debug, Clone, Copy, PartialEq, Eq, Structural)]
pub enum LineRead {
    /// The line belongs to the answer.
    More,
    /// The line ends the answer.
    Ready,
}

impl Batch {
    /// Takes one line of output, with its line end.
    pub fn read_line(&mut self, line: &str) -> (r: LineRead)
        ensures
            final(self).tag == old(self).tag,
            r is Ready <==> text::trim_end(line@) == ready_marker(old(self).tag as nat),
            r is Ready ==> final(self).json@ == old(self).json@,
            r is More ==> final(self).json@ == old(self).json@ + line@,
    {
        let mut marker = text::copy_str("{ready");
        let number = text::decimal_text(self.tag);
        marker.append(number.as_str());
        marker.push('}');
        let shown = text::trim_right(line);
        if text::same_text(shown.as_str(), marker.as_str()) {
            LineRead::Ready
        } else {
            self.json.append(line);
            LineRead::More
        }
    }

    /// Whether the answer says nothing, as it does if every path failed.
    pub fn is_blank(&self) -> (r: bool)
        ensures
            r == (text::trimmed(self.json@).len() == 0),
    {
        let t = text::trim(self.json.as_str());
        t.as_str().unicode_len() == 0
    }

    /// The error for an answer that is no JSON.
    pub fn parse_error(&self, message: &str) -> (r: Error)
        ensures
            r@ == parse_fault(self.json@, message@),
    {
        let bytes: usize = self.json.as_str().as_bytes().len();
        let mut s = text::copy_str("failed to parse exiftool JSON (");
        let number = text::decimal_text(bytes as u64);
        s.append(number.as_str());
        s.append(" bytes): ");
        s.append(message);
        Error::Exiftool(s)
    }
}

/// Nothing known of any of `n` files.
pub fn blank_metadata(n: usize) -> (r: Vec<FileMetadata>)
    ensures
        r@.len() == n,
        forall|i: int| 0 <= i < n ==> (#[trigger] r@[i])@ == no_metadata(),
{
    let mut out: Vec<FileMetadata> = Vec::new();
    let mut i: usize = 0;
    while i < n
        invariant
            i <= n,
            out@.len() == i,
            forall|k: int| 0 <= k < i ==> (#[trigger] out@[k])@ == no_metadata(),
        decreases n - i,
    {
        out.push(FileMetadata::default());
        i += 1;
    }
    out
}

/// The error for a process that ended before its answer did.
pub fn closed_error() -> (r: Error)
    ensures
        r@ == ErrorView::Exiftool("exiftool stdout closed unexpectedly"@),
{
    Error::Exiftool(text::copy_str("exiftool stdout closed unexpectedly"))
}

/// The last of some metadata, or none.
pub fn last_metadata(v: &Vec<FileMetadata>) -> (r: FileMetadata)
    ensures
        r@ == if v@.len() > 0 {
            v@.last()@
        } else {
            no_metadata()
        },
{
    if v.len() > 0 {
        v[v.len() - 1].clone()
    } else {
        FileMetadata::default()
    }
}

/// The error for an answer that is no JSON.
pub open spec fn parse_fault(json: Seq<char>, message: Seq<char>) -> ErrorView {
    ErrorView::Exiftool(
        "failed to parse exiftool JSON ("@ + text::decimal(utf8::encode_utf8(json).len())
            + " bytes): "@ + message,
    )
}

impl Batch {
    /// What a complete answer says of the files that were asked about, given what reading it
    /// as JSON gave. An empty answer says nothing of any of them, whether it is JSON or not.
    /// `None` stands for a date that cannot be cut to its length.
    pub fn conclude(&self, paths: &Vec<String>, read: &std::result::Result<Vec<RawEntry>, String>) -> (r:
        Option<Result<Vec<FileMetadata>>>)
        ensures
            if text::trimmed(self.json@).len() == 0 {
                r matches Some(Ok(v)) && v@.len() == paths@.len() && forall|i: int|
                    0 <= i < v@.len() ==> (#[trigger] v@[i])@ == no_metadata()
            } else {
                match read {
                    Err(m) => r matches Some(Err(e)) && e@ == parse_fault(self.json@, m@),
                    Ok(entries) => if all_readable(entries@, text::texts(paths@)) {
                        r matches Some(Ok(v)) && v@.len() == paths@.len() && forall|i: int|
                            0 <= i < v@.len() ==> (#[trigger] v@[i])@ == told(
                                entries@,
                                text::texts(paths@),
                                i,
                            )
                    } else {
                        r is None
                    },
                }
            },
    {
        if self.is_blank() {
            return Some(Ok(blank_metadata(paths.len())));
        }
        match read {
            Err(m) => Some(Err(self.parse_error(m.as_str()))),
            Ok(entries) => match checked_metadata(entries, paths) {
                Some(v) => Some(Ok(v)),
                None => None,
            },
        }
    }
}

// ---------------------------------------------------------------------------
// Starting the process
// ---------------------------------------------------------------------------

/// What came of running `exiftool -ver`.
#[derive(Debug)]
pub enum ProbeResult {
    NotFound,
    /// It could not be run, for this reason.
    Failed(String),
    /// It ran, ended with this status, and wrote this.
    Exited { success: bool, status: String, stdout: String },
}

/// The version of ExifTool, from what came of asking for it.
pub fn probe_version(result: &ProbeResult) -> (r: Result<String>)
    ensures
        match result {
            ProbeResult::NotFound => r is Err && r->Err_0@ == ErrorView::ExiftoolMissing,
            ProbeResult::Failed(m) => r is Err && r->Err_0@ == ErrorView::Exiftool(
                "failed to run exiftool: "@ + m@,
            ),
            ProbeResult::Exited { success, status, stdout } => if *success {
                r is Ok && r->Ok_0@ == text::trimmed(stdout@)
            } else {
                r is Err && r->Err_0@ == ErrorView::Exiftool(
                    "exiftool exited with status "@ + status@,
                )
            },
        },
{
    match result {
        ProbeResult::NotFound => Err(Error::ExiftoolMissing),
        ProbeResult::Failed(m) => {
            let mut s = text::copy_str("failed to run exiftool: ");
            s.append(m.as_str());
            Err(Error::Exiftool(s))
        },
        ProbeResult::Exited { success, status, stdout } => {
            if *success {
                Ok(text::trim(stdout.as_str()))
            } else {
                let mut s = text::copy_str("exiftool exited with status ");
                s.append(status.as_str());
                Err(Error::Exiftool(s))
            }
        },
    }
}

/// The error for an ExifTool process that could not be started.
pub fn spawn_error(not_found: bool, message: &str) -> (r: Error)
    ensures
        r@ == if not_found {
            ErrorView::ExiftoolMissing
        } else {
            ErrorView::Exiftool("failed to spawn exiftool: "@ + message@)
        },
{
    if not_found {
        Error::ExiftoolMissing
    } else {
        let mut s = text::copy_str("failed to spawn exiftool: ");
        s.append(message);
        Error::Exiftool(s)
    }
}

// ---------------------------------------------------------------------------
// Laws
// ---------------------------------------------------------------------------

/// The ends of answers to different requests are told apart, so no answer is taken for
/// another's.
pub proof fn law_answers_are_told_apart(a: nat, b: nat)
    requires
        a != b,
    ensures
        ready_marker(a) != ready_marker(b),
{
    if ready_marker(a) == ready_marker(b) {
        let x = "{ready"@ + text::decimal(a);
        let y = "{ready"@ + text::decimal(b);
        assert(ready_marker(a).drop_last() =~= x);
        assert(ready_marker(b).drop_last() =~= y);
        let n = "{ready"@.len() as int;
        assert(x.skip(n) =~= text::decimal(a));
        assert(y.skip(n) =~= text::decimal(b));
        text::lemma_decimal_injective(a, b);
    }
}

/// Every date of the metadata is what the answer spells under the tag of the same name, and
/// depends on no other tag; the camera is taken over as it is told.
pub proof fn law_each_date_is_read_from_its_own_tag(e: RawEntry, m: FileMetadata)
    requires
        m@ == e@.meaning(),
    ensures
        m.date_time_original == match e.date_time_original {
            Some(t) => date_of(t@),
            None => None,
        },
        m.create_date == match e.create_date {
            Some(t) => date_of(t@),
            None => None,
        },
        m.media_create_date == match e.media_create_date {
            Some(t) => date_of(t@),
            None => None,
        },
        m.modify_date == match e.modify_date {
            Some(t) => date_of(t@),
            None => None,
        },
        m.make is Some <==> e.make is Some,
        m.make is Some ==> m.make->0@ == e.make->0@,
        m.model is Some <==> e.model is Some,
        m.model is Some ==> m.model->0@ == e.model->0@,
{
}

/// A text that is a date with dashes is that date; one that is a date with colons alone is that
/// date; one that is neither is the date that its first bytes are, tried in the same order; and
/// a text of fewer bytes than a date that is neither is none.
pub proof fn law_dates_are_read_in_order(s: Seq<char>, head: Seq<char>)
    requires
        utf8::encode_utf8(s).len() >= 19 ==> head == utf8::decode_utf8(
            utf8::encode_utf8(s).subrange(0, 19),
        ),
    ensures
        ({
            let dashes = "%Y-%m-%d %H:%M:%S"@;
            let colons = "%Y:%m:%d %H:%M:%S"@;
            let whole = datetime::parsed(s, dashes);
            let other = datetime::parsed(s, colons);
            &&& whole is Some ==> date_of(s) == whole
            &&& whole is None && other is Some ==> date_of(s) == other
            &&& whole is None && other is None && utf8::encode_utf8(s).len() < 19 ==> date_of(
                s,
            ) is None
            &&& whole is None && other is None && utf8::encode_utf8(s).len() >= 19 ==> {
                &&& datetime::parsed(head, dashes) is Some ==> date_of(s) == datetime::parsed(
                    head,
                    dashes,
                )
                &&& datetime::parsed(head, dashes) is None ==> date_of(s) == datetime::parsed(
                    head,
                    colons,
                )
            }
        }),
{
}

proof fn lemma_answer_for(entries: Seq<RawEntry>, path: Seq<char>)
    ensures
        -1 <= answer_for(entries, path) < entries.len(),
        answer_for(entries, path) >= 0 ==> entries[answer_for(entries, path)]@.source_file == Some(
            path,
        ),
        forall|j: int|
            answer_for(entries, path) < j < entries.len() ==> (#[trigger] entries[j])@.source_file
                != Some(path),
    decreases entries.len(),
{
    if entries.len() > 0 && entries.last()@.source_file != Some(path) {
        let t = entries.drop_last();
        lemma_answer_for(t, path);
        assert forall|j: int| answer_for(entries, path) < j < entries.len() implies (
        #[trigger] entries[j])@.source_file != Some(path) by {
            if j < entries.len() - 1 {
                assert(t[j] == entries[j]);
            }
        }
    }
}

/// Answers go to the files they are about. As many answers as files are taken in order, one
/// for each; otherwise a file has the last answer that names it, and a file that no answer
/// names has no metadata.
pub proof fn law_answers_go_to_their_files(
    entries: Seq<RawEntry>,
    paths: Seq<String>,
    i: int,
    k: int,
)
    requires
        0 <= i < paths.len(),
    ensures
        entries.len() == paths.len() ==> told(entries, text::texts(paths), i)
            == entries[i]@.meaning(),
        entries.len() != paths.len() && 0 <= k < entries.len() && (
        entries[k].source_file matches Some(p) && p@ == paths[i]@) && (forall|j: int|
            k < j < entries.len() ==> !((#[trigger] entries[j]).source_file matches Some(p) && p@
                == paths[i]@)) ==> told(entries, text::texts(paths), i) == entries[k]@.meaning(),
        entries.len() != paths.len() && (forall|j: int|
            0 <= j < entries.len() ==> !((#[trigger] entries[j]).source_file matches Some(p) && p@
                == paths[i]@)) ==> {
            let m = told(entries, text::texts(paths), i);
            &&& m.date_time_original is None && m.create_date is None
            &&& m.media_create_date is None && m.modify_date is None
            &&& m.make is None && m.model is None
        },
{
    let ps = text::texts(paths);
    lemma_answer_for(entries, ps[i]);
    assert forall|j: int| 0 <= j < entries.len() implies ((
    #[trigger] entries[j])@.source_file == Some(ps[i]) <==> (entries[j].source_file matches Some(p)
        && p@ == paths[i]@)) by {}
    let a = answer_for(entries, ps[i]);
    if entries.len() != paths.len() && a >= 0 {
        assert(entries[a]@.source_file == Some(ps[i]));
    }
}

/// A request names every file on a line of its own, in order, between the options and its
/// number.
pub proof fn law_requests_name_every_file(tag: nat, paths: Seq<Seq<char>>, p: Seq<char>)
    ensures
        path_lines(Seq::<Seq<char>>::empty()) == Seq::<char>::empty(),
        path_lines(paths.push(p)) == path_lines(paths) + p + seq!['\n'],
        request(tag, paths) == request_head() + path_lines(paths) + "-execute"@ + text::decimal(tag)
            + seq!['\n'],
{
    assert(paths.push(p).drop_last() =~= paths);
    assert(path_lines(paths.push(p)) =~= path_lines(paths) + p + seq!['\n']);
    assert(request(tag, paths) =~= request_head() + path_lines(paths) + "-execute"@
        + text::decimal(tag) + seq!['\n']);
}

proof fn lemma_head_asks(p: Seq<char>, i: int)
    requires
        text::stands_at(request_head(), p, i),
    ensures
        forall|tag: nat, paths: Seq<Seq<char>>| #[trigger] text::holds(request(tag, paths), p),
{
    assert forall|tag: nat, paths: Seq<Seq<char>>| #[trigger] text::holds(request(tag, paths), p) by {
        let r = request(tag, paths);
        let head = request_head();
        assert(r.subrange(i, i + p.len()) =~= head.subrange(i, i + p.len()));
        assert(text::stands_at(r, p, i));
    }
}

/// Every request asks for the four dates, the make and the model, each on a line of its own,
/// as JSON and with dates spelled as they are read.
pub proof fn law_requests_ask_for_the_dates(tag: nat, paths: Seq<Seq<char>>)
    ensures
        text::holds(request(tag, paths), "-json\n"@),
        text::holds(request(tag, paths), "-d\n%Y-%m-%d %H:%M:%S\n"@),
        text::holds(request(tag, paths), "\n-DateTimeOriginal\n"@),
        text::holds(request(tag, paths), "\n-CreateDate\n"@),
        text::holds(request(tag, paths), "\n-MediaCreateDate\n"@),
        text::holds(request(tag, paths), "\n-ModifyDate\n"@),
        text::holds(request(tag, paths), "\n-Make\n"@),
        text::holds(request(tag, paths), "\n-Model\n"@),
{
    reveal_strlit(
        "-json\n-charset\nfilename=UTF8\n-fast2\n-q\n-d\n%Y-%m-%d %H:%M:%S\n-DateTimeOriginal\n-CreateDate\n-MediaCreateDate\n-ModifyDate\n-Make\n-Model\n-FileType\n-MIMEType\n",
    );
    reveal_strlit("-json\n");
    reveal_strlit("-d\n%Y-%m-%d %H:%M:%S\n");
    reveal_strlit("\n-DateTimeOriginal\n");
    reveal_strlit("\n-CreateDate\n");
    reveal_strlit("\n-MediaCreateDate\n");
    reveal_strlit("\n-ModifyDate\n");
    reveal_strlit("\n-Make\n");
    reveal_strlit("\n-Model\n");
    let h = request_head();
    assert(h.subrange(0, 6) =~= "-json\n"@);
    assert(h.subrange(39, 60) =~= "-d\n%Y-%m-%d %H:%M:%S\n"@);
    assert(h.subrange(59, 78) =~= "\n-DateTimeOriginal\n"@);
    assert(h.subrange(77, 90) =~= "\n-CreateDate\n"@);
    assert(h.subrange(89, 107) =~= "\n-MediaCreateDate\n"@);
    assert(h.subrange(106, 119) =~= "\n-ModifyDate\n"@);
    assert(h.subrange(118, 125) =~= "\n-Make\n"@);
    assert(h.subrange(124, 132) =~= "\n-Model\n"@);
    lemma_head_asks("-json\n"@, 0);
    lemma_head_asks("-d\n%Y-%m-%d %H:%M:%S\n"@, 39);
    lemma_head_asks("\n-DateTimeOriginal\n"@, 59);
    lemma_head_asks("\n-CreateDate\n"@, 77);
    lemma_head_asks("\n-MediaCreateDate\n"@, 89);
    lemma_head_asks("\n-ModifyDate\n"@, 106);
    lemma_head_asks("\n-Make\n"@, 118);
    lemma_head_asks("\n-Model\n"@, 124);
}

/// An answer that cannot be read is told with the reason.
pub proof fn law_unread_answers_are_told(json: Seq<char>, message: Seq<char>)
    ensures
        parse_fault(json, message) matches ErrorView::Exiftool(m) && (text::decimal(
            utf8::encode_utf8(json).len(),
        ) + " bytes): "@ + message).is_suffix_of(m),
{
    let m = parse_fault(json, message)->Exiftool_0;
    let end = text::decimal(utf8::encode_utf8(json).len()) + " bytes): "@ + message;
    assert(m.skip(m.len() - end.len()) =~= end);
}

} // verus!
