//! Which date of a file counts as its capture date.

use vstd::prelude::*;
use crate::datetime::DateTime;
use crate::exiftool::{FileMetadata, MetadataView};
use crate::source::SourceFile;
use crate::text;

verus! {

/// Where a capture date comes from.
#[derive(Debug, Clone, Copy, PartialEq, Eq, Structural)]
pub enum DateSource {
    DateTimeOriginal,
    CreateDate,
    MediaCreateDate,
    ModifyDate,
    FileMtime,
}

impl DateSource {
    /// Whether the date is anything but the one the camera recorded.
    pub fn is_fallback(self) -> (r: bool)
        ensures
            r == !(self is DateTimeOriginal),
    {
        !matches!(self, DateSource::DateTimeOriginal)
    }

    /// The name of the source of the date.
    pub open spec fn name(self) -> Seq<char> {
        match self {
            DateSource::DateTimeOriginal => "DateTimeOriginal"@,
            DateSource::CreateDate => "CreateDate"@,
            DateSource::MediaCreateDate => "MediaCreateDate"@,
            DateSource::ModifyDate => "ModifyDate"@,
            DateSource::FileMtime => "FileMtime"@,
        }
    }

    /// The name of the source of the date.
    pub fn label(self) -> (r: &'static str)
        ensures
            r@ == self.name(),
    {
        match self {
            DateSource::DateTimeOriginal => "DateTimeOriginal",
            DateSource::CreateDate => "CreateDate",
            DateSource::MediaCreateDate => "MediaCreateDate",
            DateSource::ModifyDate => "ModifyDate",
            DateSource::FileMtime => "FileMtime",
        }
    }
}

/// A capture date with its source, and the camera.
#[derive(Debug)]
pub struct ResolvedMetadata {
    pub datetime: DateTime,
    pub source: DateSource,
    pub make: Option<String>,
    pub model: Option<String>,
}

/// The contents of a [`ResolvedMetadata`].
pub struct ResolvedView {
    pub datetime: DateTime,
    pub source: DateSource,
    pub make: Option<Seq<char>>,
    pub model: Option<Seq<char>>,
}

impl View for ResolvedMetadata {
    type V = ResolvedView;

    open spec fn view(&self) -> ResolvedView {
        ResolvedView {
            datetime: self.datetime,
            source: self.source,
            make: text::opt_text(self.make),
            model: text::opt_text(self.model),
        }
    }
}

impl Clone for ResolvedMetadata {
    fn clone(&self) -> (r: Self)
        ensures
            r@ == self@,
    {
        ResolvedMetadata {
            datetime: self.datetime,
            source: self.source,
            make: text::copy_opt(&self.make),
            model: text::copy_opt(&self.model),
        }
    }
}

/// The contents of an optional [`ResolvedMetadata`].
pub open spec fn opt_resolved(m: Option<ResolvedMetadata>) -> Option<ResolvedView> {
    match m {
        Some(r) => Some(r@),
        None => None,
    }
}

/// The date that counts: the first that is known of the dates that the camera,
/// the file's creation, the medium's creation and a change recorded, and last
/// of all the file's own time of modification.
pub open spec fn dated(mtime: Option<DateTime>, exif: MetadataView) -> Option<(DateTime, DateSource)> {
    if exif.date_time_original is Some {
        Some((exif.date_time_original->0, DateSource::DateTimeOriginal))
    } else if exif.create_date is Some {
        Some((exif.create_date->0, DateSource::CreateDate))
    } else if exif.media_create_date is Some {
        Some((exif.media_create_date->0, DateSource::MediaCreateDate))
    } else if exif.modify_date is Some {
        Some((exif.modify_date->0, DateSource::ModifyDate))
    } else if mtime is Some {
        Some((mtime->0, DateSource::FileMtime))
    } else {
        None
    }
}

/// The date of a file, with the camera that its metadata names.
pub open spec fn resolved(mtime: Option<DateTime>, exif: MetadataView) -> Option<ResolvedView> {
    match dated(mtime, exif) {
        Some((datetime, source)) => Some(
            ResolvedView { datetime, source, make: exif.make, model: exif.model },
        ),
        None => None,
    }
}

/// The date of a file, with the camera that its metadata names; `None` if
/// nothing dates it.
pub fn resolve_one(file: &SourceFile, exif: &FileMetadata) -> (r: Option<ResolvedMetadata>)
    ensures
        opt_resolved(r) == resolved(file@.mtime, exif@),
{
    let (datetime, source) = if let Some(dt) = exif.date_time_original {
        (dt, DateSource::DateTimeOriginal)
    } else if let Some(dt) = exif.create_date {
        (dt, DateSource::CreateDate)
    } else if let Some(dt) = exif.media_create_date {
        (dt, DateSource::MediaCreateDate)
    } else if let Some(dt) = exif.modify_date {
        (dt, DateSource::ModifyDate)
    } else if let Some(dt) = file.mtime {
        (dt, DateSource::FileMtime)
    } else {
        return None;
    };
    Some(
        ResolvedMetadata {
            datetime,
            source,
            make: text::copy_opt(&exif.make),
            model: text::copy_opt(&exif.model),
        },
    )
}

/// The dates of many files, given their metadata in the same order. Where the
/// lists differ in length, the shorter counts.
pub fn resolve_batch(files: &Vec<SourceFile>, metadata: &Vec<FileMetadata>) -> (r: Vec<
    Option<ResolvedMetadata>,
>)
    ensures
        r@.len() == if files@.len() <= metadata@.len() {
            files@.len()
        } else {
            metadata@.len()
        },
        forall|i: int|
            0 <= i < r@.len() ==> opt_resolved(#[trigger] r@[i]) == resolved(
                files@[i]@.mtime,
                metadata@[i]@,
            ),
{
    let mut out: Vec<Option<ResolvedMetadata>> = Vec::new();
    let mut i: usize = 0;
    while i < files.len() && i < metadata.len()
        invariant
            i <= files@.len(),
            i <= metadata@.len(),
            out@.len() == i,
            forall|k: int|
                0 <= k < i ==> opt_resolved(#[trigger] out@[k]) == resolved(
                    files@[k]@.mtime,
                    metadata@[k]@,
                ),
        decreases files@.len() - i,
    {
        out.push(resolve_one(&files[i], &metadata[i]));
        i += 1;
    }
    out
}

/// A file is dated by its metadata wherever that has any date, by the best of
/// them, and by its time of modification only otherwise.
pub proof fn law_best_date_wins(mtime: Option<DateTime>, exif: MetadataView)
    ensures
        exif.best() is Some ==> resolved(mtime, exif) is Some && resolved(mtime, exif)->0.datetime
            == exif.best()->0 && resolved(mtime, exif)->0.source != DateSource::FileMtime,
        exif.best() is None && mtime is Some ==> resolved(mtime, exif) is Some && resolved(
            mtime,
            exif,
        )->0.datetime == mtime->0 && resolved(mtime, exif)->0.source == DateSource::FileMtime,
        exif.best() is None && mtime is None ==> resolved(mtime, exif) is None,
{
}

/// The date that the camera recorded counts before that of the file's creation, that before
/// the medium's, that before a later change, and the file's own time counts only where the
/// metadata has no date at all. Which date was taken is told with it, and the camera is the one
/// that the metadata names.
pub proof fn law_dates_have_their_rank(
    file: SourceFile,
    exif: FileMetadata,
    r: Option<ResolvedMetadata>,
)
    requires
        opt_resolved(r) == resolved(file@.mtime, exif@),
    ensures
        exif.date_time_original matches Some(d) ==> (r matches Some(m) && m.datetime == d
            && m.source is DateTimeOriginal),
        exif.date_time_original is None ==> (exif.create_date matches Some(d) ==> (r matches Some(m)
            && m.datetime == d && m.source is CreateDate)),
        exif.date_time_original is None && exif.create_date is None ==> (
        exif.media_create_date matches Some(d) ==> (r matches Some(m) && m.datetime == d
            && m.source is MediaCreateDate)),
        exif.date_time_original is None && exif.create_date is None && exif.media_create_date is None
            ==> (exif.modify_date matches Some(d) ==> (r matches Some(m) && m.datetime == d
            && m.source is ModifyDate)),
        exif.date_time_original is None && exif.create_date is None && exif.media_create_date is None
            && exif.modify_date is None ==> match file.mtime {
            Some(d) => r matches Some(m) && m.datetime == d && m.source is FileMtime,
            None => r is None,
        },
        r matches Some(m) ==> text::opt_text(m.make) == text::opt_text(exif.make)
            && text::opt_text(m.model) == text::opt_text(exif.model),
{
}

/// The best date of the metadata is the one that a file is dated by, and there is one exactly
/// where one of its four dates is known.
pub proof fn law_best_date_is_the_first_known(exif: FileMetadata)
    ensures
        exif.date_time_original is Some ==> exif@.best() == exif.date_time_original,
        exif.date_time_original is None && exif.create_date is Some ==> exif@.best()
            == exif.create_date,
        exif.date_time_original is None && exif.create_date is None
            && exif.media_create_date is Some ==> exif@.best() == exif.media_create_date,
        exif.date_time_original is None && exif.create_date is None && exif.media_create_date is None
            ==> exif@.best() == exif.modify_date,
{
}

/// A date from anywhere but the camera's own record is called by its name.
pub proof fn law_date_sources_have_their_names(a: DateSource, b: DateSource)
    ensures
        a != b ==> a.name() != b.name(),
{
    reveal_strlit("DateTimeOriginal");
    reveal_strlit("CreateDate");
    reveal_strlit("MediaCreateDate");
    reveal_strlit("ModifyDate");
    reveal_strlit("FileMtime");
    if a != b {
        if a.name().len() == b.name().len() {
            assert(a.name()[0] != b.name()[0]);
        }
    }
}

} // verus!
