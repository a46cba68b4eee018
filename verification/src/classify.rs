//! Classification of media files into kinds.

use vstd::prelude::*;
use crate::config::RawMode;
use crate::profiles::{self, CameraProfile, ExtensionKind};
use crate::text;

verus! {

/// What a file is.
#[derive(Debug, Clone, Copy, PartialEq, Eq, Structural)]
pub enum MediaKind {
    Image { raw: bool },
    Video,
    Sidecar,
}

impl MediaKind {
    /// Whether the file is an image, raw or not.
    pub fn is_image(self) -> (r: bool)
        ensures
            r == (self is Image),
    {
        matches!(self, MediaKind::Image { .. })
    }

    /// Whether the file is a video.
    pub fn is_video(self) -> (r: bool)
        ensures
            r == (self is Video),
    {
        matches!(self, MediaKind::Video)
    }

    /// Whether the file is a raw image.
    pub fn is_raw(self) -> (r: bool)
        ensures
            r == (self == MediaKind::Image { raw: true }),
    {
        matches!(self, MediaKind::Image { raw: true })
    }

    /// Whether the file accompanies another one.
    pub fn is_sidecar(self) -> (r: bool)
        ensures
            r == (self is Sidecar),
    {
        matches!(self, MediaKind::Sidecar)
    }
}

/// The kind of file that an extension's meaning stands for.
pub open spec fn media_kind(k: ExtensionKind) -> MediaKind {
    match k {
        ExtensionKind::RawImage => MediaKind::Image { raw: true },
        ExtensionKind::Image => MediaKind::Image { raw: false },
        ExtensionKind::Video => MediaKind::Video,
        ExtensionKind::Sidecar => MediaKind::Sidecar,
    }
}

/// The kind of a file with an extension; `None` for an extension that the
/// camera does not know.
pub open spec fn kind_for(k: Option<ExtensionKind>) -> Option<MediaKind> {
    match k {
        Some(k) => Some(media_kind(k)),
        None => None,
    }
}

/// Classifies a file by its extension.
pub fn classify(profile: &CameraProfile, ext: &str) -> (r: Option<MediaKind>)
    ensures
        r == kind_for(profile@.kind_of(ext@)),
{
    match profile.classify_extension(ext) {
        Some(ExtensionKind::RawImage) => Some(MediaKind::Image { raw: true }),
        Some(ExtensionKind::Image) => Some(MediaKind::Image { raw: false }),
        Some(ExtensionKind::Video) => Some(MediaKind::Video),
        Some(ExtensionKind::Sidecar) => Some(MediaKind::Sidecar),
        None => None,
    }
}

/// Whether the user's filters keep a file.
pub open spec fn kept(
    kind: MediaKind,
    raw_mode: RawMode,
    include_videos: bool,
    include_sidecars: bool,
) -> bool {
    match kind {
        MediaKind::Image { raw } => match raw_mode {
            RawMode::All => true,
            RawMode::RawOnly => raw,
            RawMode::NonRawOnly => !raw,
        },
        MediaKind::Video => include_videos,
        MediaKind::Sidecar => include_sidecars,
    }
}

/// Whether the user's filters keep a file.
pub fn should_include(
    kind: MediaKind,
    raw_mode: RawMode,
    include_videos: bool,
    include_sidecars: bool,
) -> (r: bool)
    ensures
        r == kept(kind, raw_mode, include_videos, include_sidecars),
{
    match kind {
        MediaKind::Image { raw } => match raw_mode {
            RawMode::All => true,
            RawMode::RawOnly => raw,
            RawMode::NonRawOnly => !raw,
        },
        MediaKind::Video => include_videos,
        MediaKind::Sidecar => include_sidecars,
    }
}

/// Every image passes exactly one of the two filters on raw images, and all of
/// them pass the filter that keeps all.
pub proof fn law_raw_filters_partition_images(raw: bool, videos: bool, sidecars: bool)
    ensures
        kept(MediaKind::Image { raw }, RawMode::RawOnly, videos, sidecars) != kept(
            MediaKind::Image { raw },
            RawMode::NonRawOnly,
            videos,
            sidecars,
        ),
        kept(MediaKind::Image { raw }, RawMode::All, videos, sidecars),
{
}

/// Whether a list has an extension, up to the case of ASCII letters.
pub open spec fn lists(list: Seq<String>, ext: Seq<char>) -> bool {
    exists|i: int|
        0 <= i < list.len() && (#[trigger] list[i])@.len() == ext.len() && forall|j: int|
            0 <= j < ext.len() ==> text::alike(list[i]@[j], #[trigger] ext[j])
}

proof fn lemma_lists(list: Seq<String>, ext: Seq<char>)
    ensures
        profiles::holds_ignoring_case(text::texts(list), ext) <==> lists(list, ext),
{
    let ts = text::texts(list);
    assert forall|i: int| 0 <= i < list.len() implies (text::same_ignoring_case(
        #[trigger] ts[i],
        ext,
    ) <==> list[i]@.len() == ext.len() && forall|j: int|
        0 <= j < ext.len() ==> text::alike(list[i]@[j], #[trigger] ext[j])) by {
        text::law_folded_texts_are_alike(ts[i], ext);
        if forall|j: int| 0 <= j < ext.len() ==> text::alike(list[i]@[j], #[trigger] ext[j]) {
            assert forall|j: int| 0 <= j < ts[i].len() && ts[i].len() == ext.len() implies text::alike(
                #[trigger] ts[i][j],
                ext[j],
            ) by {
                assert(text::alike(list[i]@[j], ext[j]));
            }
        }
    }
    if profiles::holds_ignoring_case(ts, ext) {
        let i = choose|i: int|
            0 <= i < ts.len() && text::same_ignoring_case(#[trigger] ts[i], ext);
        assert(list[i]@ == ts[i]);
    }
    if lists(list, ext) {
        let i = choose|i: int|
            0 <= i < list.len() && (#[trigger] list[i])@.len() == ext.len() && forall|j: int|
                0 <= j < ext.len() ==> text::alike(list[i]@[j], #[trigger] ext[j]);
        assert(text::same_ignoring_case(ts[i], ext));
    }
}

/// A file is what the first list of its camera that has its extension says: the raw formats,
/// the other images, the videos, the sidecars. One that none of them has is unknown.
pub proof fn law_extensions_tell_the_kind(p: CameraProfile, ext: Seq<char>)
    ensures
        ({
            let kind = kind_for(p@.kind_of(ext));
            let raw = lists(p.raw_extensions@, ext);
            let image = lists(p.image_extensions@, ext);
            let video = lists(p.video_extensions@, ext);
            let sidecar = lists(p.sidecar_extensions@, ext);
            &&& kind == Some(MediaKind::Image { raw: true }) <==> raw
            &&& kind == Some(MediaKind::Image { raw: false }) <==> image && !raw
            &&& kind == Some(MediaKind::Video) <==> video && !image && !raw
            &&& kind == Some(MediaKind::Sidecar) <==> sidecar && !video && !image && !raw
            &&& kind is None <==> !sidecar && !video && !image && !raw
        }),
{
    lemma_lists(p.raw_extensions@, ext);
    lemma_lists(p.image_extensions@, ext);
    lemma_lists(p.video_extensions@, ext);
    lemma_lists(p.sidecar_extensions@, ext);
}

/// Each filter is about its own kind of file: the setting for raw images decides on images and
/// on nothing else, that for videos on videos, that for sidecars on sidecars.
pub proof fn law_each_filter_has_its_own_kind(
    raw: bool,
    mode: RawMode,
    other: RawMode,
    videos: bool,
    sidecars: bool,
)
    ensures
        kept(MediaKind::Video, mode, videos, sidecars) == videos,
        kept(MediaKind::Video, other, videos, !sidecars) == videos,
        kept(MediaKind::Sidecar, mode, videos, sidecars) == sidecars,
        kept(MediaKind::Sidecar, other, !videos, sidecars) == sidecars,
        kept(MediaKind::Image { raw }, mode, videos, sidecars) <==> mode == RawMode::All || (mode
            == RawMode::RawOnly) == raw,
{
}

} // verus!
