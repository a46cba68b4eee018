//! The preview of an import: what will be copied, by source folder.

use vstd::prelude::*;
use crate::engine::execute;
use crate::events::{MediaKindWire, PlannedAction, PlannedFile, PlannedFileView};
use crate::plan;
use crate::plan::{PlanView, SyncPlan};
use crate::text;
use super::labels;
use super::style;
use super::style::{Line, LineView, Page, Span, Tone};

verus! {

// ---------------------------------------------------------------------------
// The model
// ---------------------------------------------------------------------------

/// The name of a file without its folders.
pub open spec fn base_name(f: PlannedFileView) -> Seq<char> {
    text::after_last(f.source_rel_path, '/')
}

/// The folder that a file comes from.
pub open spec fn folder_of(f: PlannedFileView) -> Seq<char> {
    if text::last_index(f.source_rel_path, '/') < 0 {
        "(root)"@
    } else {
        text::before_last(f.source_rel_path, '/')
    }
}

/// How many of the ascending `dirs` come before `d`.
pub open spec fn place(dirs: Seq<Seq<char>>, d: Seq<char>) -> int
    decreases dirs.len(),
{
    if dirs.len() == 0 || !text::text_before(dirs[0], d) {
        0
    } else {
        1 + place(dirs.skip(1), d)
    }
}

/// The ascending `dirs` with `d` among them.
pub open spec fn with_folder(dirs: Seq<Seq<char>>, d: Seq<char>) -> Seq<Seq<char>> {
    let k = place(dirs, d);
    if k < dirs.len() && dirs[k] == d {
        dirs
    } else {
        dirs.insert(k, d)
    }
}

/// The folders of the files that are to be copied, in ascending order.
pub open spec fn folders(items: Seq<PlannedFileView>) -> Seq<Seq<char>>
    decreases items.len(),
{
    if items.len() == 0 {
        Seq::empty()
    } else if items.last().action == PlannedAction::Copy {
        with_folder(folders(items.drop_last()), folder_of(items.last()))
    } else {
        folders(items.drop_last())
    }
}

/// Whether a file is to be copied out of the folder `d`.
pub open spec fn belongs(f: PlannedFileView, d: Seq<char>) -> bool {
    f.action == PlannedAction::Copy && folder_of(f) == d
}

/// The files that are to be copied out of the folder `d`, in the order of the plan.
pub open spec fn members(items: Seq<PlannedFileView>, d: Seq<char>) -> Seq<PlannedFileView>
    decreases items.len(),
{
    if items.len() == 0 {
        Seq::empty()
    } else if belongs(items.last(), d) {
        members(items.drop_last(), d).push(items.last())
    } else {
        members(items.drop_last(), d)
    }
}

/// Where `f` goes among `fs`: behind every file whose name does not come after its own.
pub open spec fn name_place(fs: Seq<PlannedFileView>, f: PlannedFileView) -> int
    decreases fs.len(),
{
    if fs.len() == 0 {
        0
    } else if text::text_before(base_name(f), base_name(fs.last())) {
        name_place(fs.drop_last(), f)
    } else {
        fs.len() as int
    }
}

/// The files in the order of their names; files of one name keep their order.
pub open spec fn by_name(fs: Seq<PlannedFileView>) -> Seq<PlannedFileView>
    decreases fs.len(),
{
    if fs.len() == 0 {
        fs
    } else {
        let rest = by_name(fs.drop_last());
        rest.insert(name_place(rest, fs.last()), fs.last())
    }
}

/// How many files are of a kind.
pub open spec fn count_kind(fs: Seq<PlannedFileView>, kind: MediaKindWire) -> nat
    decreases fs.len(),
{
    if fs.len() == 0 {
        0
    } else {
        count_kind(fs.drop_last(), kind) + if fs.last().kind == kind {
            1nat
        } else {
            0nat
        }
    }
}

/// The bytes of all files.
pub open spec fn total_size(fs: Seq<PlannedFileView>) -> nat
    decreases fs.len(),
{
    if fs.len() == 0 {
        0
    } else {
        total_size(fs.drop_last()) + fs.last().source_size as nat
    }
}

/// The short name of a kind.
pub open spec fn kind_tag(kind: MediaKindWire) -> Seq<char> {
    match kind {
        MediaKindWire::RawImage => "RAW"@,
        MediaKindWire::Image => "IMG"@,
        MediaKindWire::Video => "VID"@,
        MediaKindWire::Sidecar => "SIDE"@,
    }
}

/// The colour of a kind.
pub open spec fn kind_tone(kind: MediaKindWire) -> Tone {
    match kind {
        MediaKindWire::RawImage => Tone::Magenta,
        MediaKindWire::Image => Tone::Yellow,
        MediaKindWire::Video => Tone::Blue,
        MediaKindWire::Sidecar => Tone::DarkGray,
    }
}

/// How many files are of a kind, where there are any.
pub open spec fn kind_count(fs: Seq<PlannedFileView>, kind: MediaKindWire) -> LineView {
    let n = count_kind(fs, kind);
    if n > 0 {
        seq![style::toned(kind_tag(kind) + ": "@ + text::decimal(n) + "  "@, kind_tone(kind))]
    } else {
        LineView::empty()
    }
}

/// The line over the files of a folder.
pub open spec fn folder_line(d: Seq<char>, fs: Seq<PlannedFileView>) -> LineView {
    let start: LineView = seq![
        style::toned("  "@, Tone::DarkGray),
        style::strong(d + "/"@, Tone::Cyan),
        style::plain("   "@),
    ];
    (start + kind_count(fs, MediaKindWire::RawImage) + kind_count(fs, MediaKindWire::Image)
        + kind_count(fs, MediaKindWire::Video) + kind_count(fs, MediaKindWire::Sidecar)).push(
        style::toned("("@ + labels::human_size(total_size(fs)) + ")"@, Tone::DarkGray),
    )
}

/// The line of a file.
pub open spec fn file_line(f: PlannedFileView) -> LineView {
    seq![
        style::plain("    ├─ "@),
        style::toned(kind_tag(f.kind), kind_tone(f.kind)),
        style::plain("  "@),
        style::plain(base_name(f)),
    ]
}

/// The lines of several files.
pub open spec fn file_lines(fs: Seq<PlannedFileView>) -> Seq<LineView> {
    fs.map_values(|f: PlannedFileView| file_line(f))
}

/// An empty line.
pub open spec fn blank_line() -> LineView {
    seq![style::plain(""@)]
}

/// The lines of a folder: its own, those of its files by name, and an empty one.
pub open spec fn folder_lines(d: Seq<char>, fs: Seq<PlannedFileView>) -> Seq<LineView> {
    (seq![folder_line(d, fs)] + file_lines(by_name(fs))).push(blank_line())
}

/// The lines of the folders `dirs`.
pub open spec fn group_lines(items: Seq<PlannedFileView>, dirs: Seq<Seq<char>>) -> Seq<LineView>
    decreases dirs.len(),
{
    if dirs.len() == 0 {
        Seq::empty()
    } else {
        group_lines(items, dirs.drop_last()) + folder_lines(
            dirs.last(),
            members(items, dirs.last()),
        )
    }
}

/// The files that are to be copied, by folder.
pub open spec fn review_tree(items: Seq<PlannedFileView>) -> Seq<LineView> {
    if plan::count_copies(items) == 0 {
        seq![seq![style::toned("(no new files to copy)"@, Tone::DarkGray)]]
    } else {
        group_lines(items, folders(items))
    }
}

/// The whole preview.
pub open spec fn review_lines(p: PlanView) -> Seq<LineView> {
    seq![
        seq![
            style::toned(" Copy      "@, Tone::Green),
            style::plain(
                text::decimal(plan::count_copies(p.items)) + " files · "@ + labels::human_size(
                    execute::copy_bytes(p.items),
                ),
            ),
        ],
        seq![
            style::toned(" Skip      "@, Tone::Cyan),
            style::plain(text::decimal(plan::count_skips(p.items)) + " files"@),
        ],
        blank_line(),
        seq![style::strong("Planned source groups"@, Tone::DarkGray)],
    ] + review_tree(p.items)
}

// ---------------------------------------------------------------------------
// Folders
// ---------------------------------------------------------------------------

/// The name of a file without its folders.
pub fn basename_of(rel_path: &str) -> (r: String)
    ensures
        r@ == text::after_last(rel_path@, '/'),
{
    text::text_after_last(rel_path, '/')
}

fn folder_text(f: &PlannedFile) -> (r: String)
    ensures
        r@ == folder_of(f@),
{
    match text::rfind(f.source_rel_path.as_str(), '/') {
        Some(_) => text::text_before_last(f.source_rel_path.as_str(), '/'),
        None => text::copy_str("(root)"),
    }
}

proof fn lemma_place_is(dirs: Seq<Seq<char>>, d: Seq<char>, k: int)
    requires
        0 <= k <= dirs.len(),
        k < dirs.len() ==> !text::text_before(dirs[k], d),
        forall|i: int| 0 <= i < k ==> text::text_before(#[trigger] dirs[i], d),
    ensures
        place(dirs, d) == k,
    decreases dirs.len(),
{
    if dirs.len() > 0 && k > 0 {
        assert(text::text_before(dirs[0], d));
        assert forall|i: int| 0 <= i < k - 1 implies text::text_before(
            #[trigger] dirs.skip(1)[i],
            d,
        ) by {
            assert(dirs.skip(1)[i] == dirs[i + 1]);
        }
        lemma_place_is(dirs.skip(1), d, k - 1);
    }
}

fn add_folder(dirs: &mut Vec<String>, d: String)
    ensures
        text::texts(final(dirs)@) == with_folder(text::texts(old(dirs)@), d@),
{
    let ghost before = text::texts(dirs@);
    let mut k: usize = 0;
    while k < dirs.len() && text::less_text(dirs[k].as_str(), d.as_str())
        invariant
            k <= dirs@.len(),
            before == text::texts(dirs@),
            forall|i: int| 0 <= i < k ==> text::text_before(#[trigger] before[i], d@),
        decreases dirs@.len() - k,
    {
        k += 1;
    }
    proof {
        lemma_place_is(before, d@, k as int);
    }
    if k < dirs.len() && text::same_text(dirs[k].as_str(), d.as_str()) {
        return;
    }
    let ghost new = d@;
    dirs.insert(k, d);
    proof {
        assert(text::texts(dirs@) =~= before.insert(k as int, new));
    }
}

fn copy_folders(p: &SyncPlan) -> (r: Vec<String>)
    ensures
        text::texts(r@) == folders(p@.items),
{
    let ghost all = p@.items;
    let mut dirs: Vec<String> = Vec::new();
    let mut i: usize = 0;
    proof {
        assert(text::texts(dirs@) =~= folders(all.take(0)));
    }
    while i < p.items.len()
        invariant
            i <= p.items@.len(),
            all == p@.items,
            text::texts(dirs@) == folders(all.take(i as int)),
        decreases p.items@.len() - i,
    {
        proof {
            assert(all.take(i + 1).drop_last() =~= all.take(i as int));
            assert(all.take(i + 1).last() == p.items@[i as int]@);
        }
        if p.items[i].action == PlannedAction::Copy {
            let d = folder_text(&p.items[i]);
            add_folder(&mut dirs, d);
        }
        i += 1;
    }
    proof {
        assert(all.take(all.len() as int) =~= all);
    }
    dirs
}

// ---------------------------------------------------------------------------
// The files of a folder
// ---------------------------------------------------------------------------

/// The contents of a list of borrowed files.
pub open spec fn refs_view(v: Seq<&PlannedFile>) -> Seq<PlannedFileView> {
    v.map_values(|f: &PlannedFile| f@)
}

fn folder_files<'a>(p: &'a SyncPlan, d: &str) -> (r: Vec<&'a PlannedFile>)
    ensures
        refs_view(r@) == members(p@.items, d@),
        r@.len() <= p@.items.len(),
{
    let ghost all = p@.items;
    let mut out: Vec<&'a PlannedFile> = Vec::new();
    let mut i: usize = 0;
    proof {
        assert(refs_view(out@) =~= members(all.take(0), d@));
    }
    while i < p.items.len()
        invariant
            i <= p.items@.len(),
            all == p@.items,
            refs_view(out@) == members(all.take(i as int), d@),
            out@.len() <= i,
        decreases p.items@.len() - i,
    {
        let f: &'a PlannedFile = &p.items[i];
        proof {
            assert(all.take(i + 1).drop_last() =~= all.take(i as int));
            assert(all.take(i + 1).last() == f@);
        }
        if f.action == PlannedAction::Copy {
            let folder = folder_text(f);
            if text::same_text(folder.as_str(), d) {
                let ghost before = out@;
                out.push(f);
                proof {
                    assert(refs_view(out@) =~= refs_view(before).push(f@));
                }
            }
        }
        i += 1;
    }
    proof {
        assert(all.take(all.len() as int) =~= all);
    }
    out
}

proof fn lemma_name_place_is(fs: Seq<PlannedFileView>, f: PlannedFileView, k: int)
    requires
        0 <= k <= fs.len(),
        k > 0 ==> !text::text_before(base_name(f), base_name(fs[k - 1])),
        forall|i: int| k <= i < fs.len() ==> text::text_before(base_name(f), base_name(#[trigger] fs[i])),
    ensures
        name_place(fs, f) == k,
    decreases fs.len(),
{
    if fs.len() > 0 && k < fs.len() {
        assert(text::text_before(base_name(f), base_name(fs.last())));
        assert forall|i: int| k <= i < fs.drop_last().len() implies text::text_before(
            base_name(f),
            base_name(#[trigger] fs.drop_last()[i]),
        ) by {
            assert(fs.drop_last()[i] == fs[i]);
        }
        lemma_name_place_is(fs.drop_last(), f, k);
    }
}

fn place_by_name<'a>(sorted: &mut Vec<&'a PlannedFile>, f: &'a PlannedFile)
    ensures
        refs_view(final(sorted)@) == refs_view(old(sorted)@).insert(
            name_place(refs_view(old(sorted)@), f@),
            f@,
        ),
{
    let ghost before = refs_view(sorted@);
    let name = basename_of(f.source_rel_path.as_str());
    let mut k: usize = sorted.len();
    while k > 0
        invariant
            k <= sorted@.len(),
            before == refs_view(sorted@),
            name@ == base_name(f@),
            forall|i: int|
                k <= i < before.len() ==> text::text_before(
                    base_name(f@),
                    base_name(#[trigger] before[i]),
                ),
        ensures
            k <= sorted@.len(),
            before == refs_view(sorted@),
            name@ == base_name(f@),
            k > 0 ==> !text::text_before(base_name(f@), base_name(before[k - 1])),
            forall|i: int|
                k <= i < before.len() ==> text::text_before(
                    base_name(f@),
                    base_name(#[trigger] before[i]),
                ),
        decreases k,
    {
        let other = basename_of(sorted[k - 1].source_rel_path.as_str());
        proof {
            assert(before[k - 1] == sorted@[k - 1]@);
        }
        if !text::less_text(name.as_str(), other.as_str()) {
            break;
        }
        k -= 1;
    }
    proof {
        lemma_name_place_is(before, f@, k as int);
    }
    sorted.insert(k, f);
    proof {
        assert(refs_view(sorted@) =~= before.insert(k as int, f@));
    }
}

fn sort_by_name<'a>(files: &Vec<&'a PlannedFile>) -> (r: Vec<&'a PlannedFile>)
    ensures
        refs_view(r@) == by_name(refs_view(files@)),
{
    let ghost all = refs_view(files@);
    let mut out: Vec<&'a PlannedFile> = Vec::new();
    let mut i: usize = 0;
    proof {
        assert(refs_view(out@) =~= by_name(all.take(0)));
    }
    while i < files.len()
        invariant
            i <= files@.len(),
            all == refs_view(files@),
            refs_view(out@) == by_name(all.take(i as int)),
        decreases files@.len() - i,
    {
        proof {
            assert(all.take(i + 1).drop_last() =~= all.take(i as int));
            assert(all.take(i + 1).last() == files@[i as int]@);
        }
        place_by_name(&mut out, files[i]);
        i += 1;
    }
    proof {
        assert(all.take(all.len() as int) =~= all);
    }
    out
}

fn count_of(files: &Vec<&PlannedFile>, kind: MediaKindWire) -> (r: u64)
    ensures
        r == count_kind(refs_view(files@), kind),
{
    let ghost all = refs_view(files@);
    let mut n: u64 = 0;
    let mut i: usize = 0;
    while i < files.len()
        invariant
            i <= files@.len(),
            all == refs_view(files@),
            n == count_kind(all.take(i as int), kind),
            n <= i,
        decreases files@.len() - i,
    {
        proof {
            assert(all.take(i + 1).drop_last() =~= all.take(i as int));
            assert(all.take(i + 1).last() == files@[i as int]@);
        }
        if files[i].kind == kind {
            n += 1;
        }
        i += 1;
    }
    proof {
        assert(all.take(all.len() as int) =~= all);
    }
    n
}

proof fn lemma_size_grows(fs: Seq<PlannedFileView>, n: int)
    requires
        0 <= n <= fs.len(),
    ensures
        total_size(fs.take(n)) <= total_size(fs),
    decreases fs.len() - n,
{
    if n == fs.len() {
        assert(fs.take(n) =~= fs);
    } else {
        lemma_size_grows(fs, n + 1);
        assert(fs.take(n + 1).drop_last() =~= fs.take(n));
    }
}

proof fn lemma_folder_size(items: Seq<PlannedFileView>, d: Seq<char>)
    ensures
        total_size(members(items, d)) <= execute::copy_bytes(items),
    decreases items.len(),
{
    if items.len() > 0 {
        lemma_folder_size(items.drop_last(), d);
        let rest = members(items.drop_last(), d);
        assert(rest.push(items.last()).drop_last() =~= rest);
    }
}

fn size_of(files: &Vec<&PlannedFile>) -> (r: u64)
    requires
        total_size(refs_view(files@)) <= u64::MAX,
    ensures
        r == total_size(refs_view(files@)),
{
    let ghost all = refs_view(files@);
    let mut n: u64 = 0;
    let mut i: usize = 0;
    while i < files.len()
        invariant
            i <= files@.len(),
            all == refs_view(files@),
            total_size(all) <= u64::MAX,
            n == total_size(all.take(i as int)),
        decreases files@.len() - i,
    {
        proof {
            assert(all.take(i + 1).drop_last() =~= all.take(i as int));
            assert(all.take(i + 1).last() == files@[i as int]@);
            lemma_size_grows(all, i + 1);
        }
        n += files[i].source_size;
        i += 1;
    }
    proof {
        assert(all.take(all.len() as int) =~= all);
    }
    n
}

// ---------------------------------------------------------------------------
// Lines
// ---------------------------------------------------------------------------

fn tag_of(kind: MediaKindWire) -> (r: &'static str)
    ensures
        r@ == kind_tag(kind),
{
    match kind {
        MediaKindWire::RawImage => "RAW",
        MediaKindWire::Image => "IMG",
        MediaKindWire::Video => "VID",
        MediaKindWire::Sidecar => "SIDE",
    }
}

fn tone_of(kind: MediaKindWire) -> (r: Tone)
    ensures
        r == kind_tone(kind),
{
    match kind {
        MediaKindWire::RawImage => Tone::Magenta,
        MediaKindWire::Image => Tone::Yellow,
        MediaKindWire::Video => Tone::Blue,
        MediaKindWire::Sidecar => Tone::DarkGray,
    }
}

fn add_kind_count(line: &mut Line, files: &Vec<&PlannedFile>, kind: MediaKindWire)
    ensures
        final(line)@ == old(line)@ + kind_count(refs_view(files@), kind),
{
    let n: u64 = count_of(files, kind);
    let ghost before = line@;
    if n > 0 {
        let shown = text::with(
            text::with(text::with(text::copy_str(tag_of(kind)), ": "), &text::decimal_text(n)),
            "  ",
        );
        line.add(Span::toned(shown, tone_of(kind)));
    }
    proof {
        assert(line@ =~= before + kind_count(refs_view(files@), kind));
    }
}

fn head_of(d: &str, files: &Vec<&PlannedFile>) -> (r: Line)
    requires
        total_size(refs_view(files@)) <= u64::MAX,
    ensures
        r@ == folder_line(d@, refs_view(files@)),
{
    let mut line = Line::new();
    line.add(Span::toned(text::copy_str("  "), Tone::DarkGray));
    line.add(Span::strong(text::with(text::copy_str(d), "/"), Tone::Cyan));
    line.add(Span::plain(text::copy_str("   ")));
    proof {
        assert(line@ =~= seq![
            style::toned("  "@, Tone::DarkGray),
            style::strong(d@ + "/"@, Tone::Cyan),
            style::plain("   "@),
        ]);
    }
    add_kind_count(&mut line, files, MediaKindWire::RawImage);
    add_kind_count(&mut line, files, MediaKindWire::Image);
    add_kind_count(&mut line, files, MediaKindWire::Video);
    add_kind_count(&mut line, files, MediaKindWire::Sidecar);
    let size: u64 = size_of(files);
    let shown = text::with(text::with(text::copy_str("("), &labels::human_bytes(size)), ")");
    line.add(Span::toned(shown, Tone::DarkGray));
    line
}

fn line_of(f: &PlannedFile) -> (r: Line)
    ensures
        r@ == file_line(f@),
{
    let mut line = Line::new();
    line.add(Span::plain(text::copy_str("    ├─ ")));
    line.add(Span::toned(text::copy_str(tag_of(f.kind)), tone_of(f.kind)));
    line.add(Span::plain(text::copy_str("  ")));
    line.add(Span::plain(basename_of(f.source_rel_path.as_str())));
    line
}

fn add_folder_lines(page: &mut Page, d: &str, files: &Vec<&PlannedFile>)
    requires
        total_size(refs_view(files@)) <= u64::MAX,
    ensures
        final(page)@ == old(page)@ + folder_lines(d@, refs_view(files@)),
{
    let ghost before = page@;
    let ghost head = folder_line(d@, refs_view(files@));
    page.add(head_of(d, files));
    let sorted = sort_by_name(files);
    let ghost rows = file_lines(by_name(refs_view(files@)));
    let mut i: usize = 0;
    proof {
        assert(page@ =~= before.push(head) + rows.take(0));
    }
    while i < sorted.len()
        invariant
            i <= sorted@.len(),
            rows == file_lines(refs_view(sorted@)),
            page@ == before.push(head) + rows.take(i as int),
        decreases sorted@.len() - i,
    {
        let ghost now = page@;
        page.add(line_of(sorted[i]));
        proof {
            assert(rows[i as int] == file_line(sorted@[i as int]@));
            assert(page@ =~= before.push(head) + rows.take(i + 1));
        }
        i += 1;
    }
    page.add_raw("");
    proof {
        assert(page@ =~= before + folder_lines(d@, refs_view(files@)));
    }
}

proof fn lemma_folders_of_nothing(items: Seq<PlannedFileView>)
    ensures
        folders(items).len() == 0 <==> plan::count_copies(items) == 0,
    decreases items.len(),
{
    if items.len() > 0 {
        lemma_folders_of_nothing(items.drop_last());
        let dirs = folders(items.drop_last());
        let d = folder_of(items.last());
        lemma_place_bounds(dirs, d);
    }
}

proof fn lemma_place_bounds(dirs: Seq<Seq<char>>, d: Seq<char>)
    ensures
        0 <= place(dirs, d) <= dirs.len(),
        place(dirs, d) < dirs.len() ==> !text::text_before(dirs[place(dirs, d)], d),
        forall|i: int| 0 <= i < place(dirs, d) ==> text::text_before(#[trigger] dirs[i], d),
    decreases dirs.len(),
{
    if dirs.len() > 0 && text::text_before(dirs[0], d) {
        lemma_place_bounds(dirs.skip(1), d);
        assert forall|i: int| 0 <= i < place(dirs, d) implies text::text_before(
            #[trigger] dirs[i],
            d,
        ) by {
            if i > 0 {
                assert(dirs[i] == dirs.skip(1)[i - 1]);
            }
        }
    }
}

fn add_review_tree(page: &mut Page, p: &SyncPlan)
    requires
        execute::copy_bytes(p@.items) <= u64::MAX,
    ensures
        final(page)@ == old(page)@ + review_tree(p@.items),
{
    let ghost items = p@.items;
    let ghost before = page@;
    let dirs = copy_folders(p);
    let ghost all = folders(items);
    proof {
        lemma_folders_of_nothing(items);
    }
    if dirs.len() == 0 {
        page.add(Line::of(Span::toned(text::copy_str("(no new files to copy)"), Tone::DarkGray)));
        proof {
            assert(page@ =~= before + review_tree(items));
        }
        return;
    }
    let mut i: usize = 0;
    proof {
        assert(page@ =~= before + group_lines(items, all.take(0)));
    }
    while i < dirs.len()
        invariant
            i <= dirs@.len(),
            items == p@.items,
            execute::copy_bytes(items) <= u64::MAX,
            all == text::texts(dirs@),
            page@ == before + group_lines(items, all.take(i as int)),
        decreases dirs@.len() - i,
    {
        let files = folder_files(p, dirs[i].as_str());
        let ghost now = page@;
        proof {
            assert(all.take(i + 1).drop_last() =~= all.take(i as int));
            assert(all.take(i + 1).last() == dirs@[i as int]@);
            lemma_folder_size(items, dirs@[i as int]@);
        }
        add_folder_lines(page, dirs[i].as_str(), &files);
        proof {
            assert(page@ =~= before + group_lines(items, all.take(i + 1)));
        }
        i += 1;
    }
    proof {
        assert(all.take(all.len() as int) =~= all);
    }
}

/// The files that are to be copied: one section for each source folder, with the number
/// of files of each kind, the size and every file name.
pub fn build_review_tree(p: &SyncPlan) -> (r: Page)
    requires
        execute::copy_bytes(p@.items) <= u64::MAX,
    ensures
        r@ == review_tree(p@.items),
{
    let mut page = Page::new();
    add_review_tree(&mut page, p);
    proof {
        assert(page@ =~= review_tree(p@.items));
    }
    page
}

/// The whole preview: what is copied, what is left out, and the files by folder.
pub fn build_review_items(p: &SyncPlan) -> (r: Page)
    requires
        execute::copy_bytes(p@.items) <= u64::MAX,
    ensures
        r@ == review_lines(p@),
{
    let mut page = Page::new();
    let size: u64 = execute::total_copy_bytes(p);
    let copies = text::with(
        text::with(text::decimal_text(p.copies()), " files · "),
        &labels::human_bytes(size),
    );
    page.add(Line::pair(Span::toned(text::copy_str(" Copy      "), Tone::Green), Span::plain(copies)));
    let skips = text::with(text::decimal_text(p.skips()), " files");
    page.add(Line::pair(Span::toned(text::copy_str(" Skip      "), Tone::Cyan), Span::plain(skips)));
    page.add_raw("");
    page.add(Line::of(Span::strong(text::copy_str("Planned source groups"), Tone::DarkGray)));
    add_review_tree(&mut page, p);
    proof {
        assert(page@ =~= review_lines(p@));
    }
    page
}

// ---------------------------------------------------------------------------
// Laws
// ---------------------------------------------------------------------------

/// Every folder comes before those behind it.
pub open spec fn ascending(dirs: Seq<Seq<char>>) -> bool {
    forall|i: int, j: int|
        0 <= i < j < dirs.len() ==> text::text_before(#[trigger] dirs[i], #[trigger] dirs[j])
}

proof fn lemma_with_folder(dirs: Seq<Seq<char>>, d: Seq<char>)
    requires
        ascending(dirs),
    ensures
        ascending(with_folder(dirs, d)),
        with_folder(dirs, d).contains(d),
        forall|x: Seq<char>| dirs.contains(x) ==> with_folder(dirs, d).contains(x),
        forall|x: Seq<char>| with_folder(dirs, d).contains(x) ==> x == d || dirs.contains(x),
{
    lemma_place_bounds(dirs, d);
    let k = place(dirs, d);
    if k < dirs.len() && dirs[k] == d {
        assert(dirs.contains(d));
    } else {
        let after = dirs.insert(k, d);
        assert(after[k] == d);
        assert forall|x: Seq<char>| dirs.contains(x) implies after.contains(x) by {
            let i = dirs.index_of(x);
            if i < k {
                assert(after[i] == x);
            } else {
                assert(after[i + 1] == x);
            }
        }
        assert forall|x: Seq<char>| after.contains(x) implies x == d || dirs.contains(x) by {
            let i = after.index_of(x);
            if i < k {
                assert(dirs[i] == x);
            } else if i > k {
                assert(dirs[i - 1] == x);
            }
        }
        assert forall|i: int, j: int| 0 <= i < j < after.len() implies text::text_before(
            #[trigger] after[i],
            #[trigger] after[j],
        ) by {
            let di = if i < k {
                dirs[i]
            } else {
                dirs[i - 1]
            };
            let dj = if j < k {
                dirs[j]
            } else {
                dirs[j - 1]
            };
            if i == k {
                text::lemma_text_order_total(dirs[k], d);
                if j - 1 > k {
                    text::lemma_text_order_transitive(d, dirs[k], dirs[j - 1]);
                }
            } else if j == k {
            } else {
                assert(text::text_before(di, dj));
            }
        }
    }
}

proof fn lemma_folders(items: Seq<PlannedFileView>)
    ensures
        ascending(folders(items)),
        forall|i: int|
            0 <= i < items.len() && (#[trigger] items[i]).action == PlannedAction::Copy ==> folders(
                items,
            ).contains(folder_of(items[i])),
        forall|d: Seq<char>|
            folders(items).contains(d) ==> exists|i: int|
                0 <= i < items.len() && belongs(#[trigger] items[i], d),
    decreases items.len(),
{
    if items.len() > 0 {
        let rest = items.drop_last();
        lemma_folders(rest);
        if items.last().action == PlannedAction::Copy {
            lemma_with_folder(folders(rest), folder_of(items.last()));
        }
        assert forall|i: int|
            0 <= i < items.len() && (#[trigger] items[i]).action == PlannedAction::Copy implies folders(
            items,
        ).contains(folder_of(items[i])) by {
            if i < rest.len() {
                assert(rest[i] == items[i]);
                assert(folders(rest).contains(folder_of(rest[i])));
            }
        }
        assert forall|d: Seq<char>| folders(items).contains(d) implies exists|i: int|
            0 <= i < items.len() && belongs(#[trigger] items[i], d) by {
            if folders(rest).contains(d) {
                let i = choose|i: int| 0 <= i < rest.len() && belongs(#[trigger] rest[i], d);
                assert(belongs(items[i], d));
            } else {
                assert(belongs(items[items.len() - 1], d));
            }
        }
    }
}

/// The preview names each folder once, in ascending order, and names exactly the folders
/// out of which something is copied.
pub proof fn law_folders_are_listed_once(items: Seq<PlannedFileView>)
    ensures
        ascending(folders(items)),
        forall|d: Seq<char>|
            folders(items).contains(d) <==> exists|i: int|
                0 <= i < items.len() && belongs(#[trigger] items[i], d),
{
    lemma_folders(items);
}

proof fn lemma_name_place(fs: Seq<PlannedFileView>, f: PlannedFileView)
    ensures
        0 <= name_place(fs, f) <= fs.len(),
        name_place(fs, f) > 0 ==> !text::text_before(
            base_name(f),
            base_name(fs[name_place(fs, f) - 1]),
        ),
        forall|i: int|
            name_place(fs, f) <= i < fs.len() ==> text::text_before(
                base_name(f),
                base_name(#[trigger] fs[i]),
            ),
    decreases fs.len(),
{
    if fs.len() > 0 && text::text_before(base_name(f), base_name(fs.last())) {
        lemma_name_place(fs.drop_last(), f);
        assert forall|i: int| name_place(fs, f) <= i < fs.len() implies text::text_before(
            base_name(f),
            base_name(#[trigger] fs[i]),
        ) by {
            if i < fs.len() - 1 {
                assert(fs[i] == fs.drop_last()[i]);
            }
        }
    }
}

/// No file stands before one whose name comes earlier.
pub open spec fn names_ascend(fs: Seq<PlannedFileView>) -> bool {
    forall|i: int, j: int|
        0 <= i < j < fs.len() ==> !text::text_before(
            base_name(#[trigger] fs[j]),
            base_name(#[trigger] fs[i]),
        )
}

/// Sorting by name keeps every file and puts them in the order of their names.
pub proof fn law_names_are_in_order(fs: Seq<PlannedFileView>)
    ensures
        names_ascend(by_name(fs)),
        by_name(fs).to_multiset() == fs.to_multiset(),
        by_name(fs).len() == fs.len(),
    decreases fs.len(),
{
    if fs.len() > 0 {
        let rest = by_name(fs.drop_last());
        let f = fs.last();
        let k = name_place(rest, f);
        law_names_are_in_order(fs.drop_last());
        lemma_name_place(rest, f);
        let after = rest.insert(k, f);
        assert forall|i: int, j: int| 0 <= i < j < after.len() implies !text::text_before(
            base_name(#[trigger] after[j]),
            base_name(#[trigger] after[i]),
        ) by {
            if i == k {
                assert(after[j] == rest[j - 1]);
                text::lemma_text_order_total(base_name(f), base_name(rest[j - 1]));
            } else if j == k {
                assert(after[i] == rest[i]);
                if i < k - 1 {
                    assert(!text::text_before(base_name(rest[k - 1]), base_name(rest[i])));
                }
                if text::text_before(base_name(f), base_name(rest[i])) {
                    let a = base_name(rest[i]);
                    let b = base_name(rest[k - 1]);
                    text::lemma_text_order_total(a, b);
                    if a != b {
                        text::lemma_text_order_transitive(base_name(f), a, b);
                    }
                }
            } else {
                let oi = if i < k {
                    i
                } else {
                    i - 1
                };
                let oj = if j < k {
                    j
                } else {
                    j - 1
                };
                assert(after[i] == rest[oi] && after[j] == rest[oj]);
            }
        }
        assert(fs =~= fs.drop_last().push(f));
        rest.to_multiset_ensures();
        fs.drop_last().to_multiset_ensures();
        after.to_multiset_ensures();
        assert(rest.insert(k, f).to_multiset() =~= rest.to_multiset().insert(f)) by {
            let l = rest.take(k);
            let r = rest.skip(k);
            assert(rest =~= l + r);
            assert(after =~= l.push(f) + r);
            vstd::seq_lib::lemma_multiset_commutative(l, r);
            vstd::seq_lib::lemma_multiset_commutative(l.push(f), r);
            l.to_multiset_ensures();
            assert(l.push(f).to_multiset() =~= l.to_multiset().insert(f));
        }
        assert(fs.to_multiset() =~= fs.drop_last().to_multiset().insert(f));
    }
}

/// How many files the folders `dirs` have between them.
spec fn member_total(items: Seq<PlannedFileView>, dirs: Seq<Seq<char>>) -> nat
    decreases dirs.len(),
{
    if dirs.len() == 0 {
        0
    } else {
        member_total(items, dirs.drop_last()) + members(items, dirs.last()).len()
    }
}

proof fn lemma_member_total_step(
    items: Seq<PlannedFileView>,
    dirs: Seq<Seq<char>>,
)
    requires
        items.len() > 0,
        ascending(dirs),
    ensures
        member_total(items, dirs) == member_total(items.drop_last(), dirs) + if items.last().action
            == PlannedAction::Copy && dirs.contains(folder_of(items.last())) {
            1nat
        } else {
            0nat
        },
    decreases dirs.len(),
{
    if dirs.len() > 0 {
        let front = dirs.drop_last();
        let f = items.last();
        assert(ascending(front));
        lemma_member_total_step(items, front);
        assert(dirs =~= front.push(dirs.last()));
        if f.action == PlannedAction::Copy {
            let d = folder_of(f);
            if dirs.last() == d {
                assert(dirs[dirs.len() - 1] == d);
                if front.contains(d) {
                    let i = front.index_of(d);
                    assert(text::text_before(dirs[i], dirs[dirs.len() - 1]));
                    text::lemma_text_order_total(d, d);
                    assert(false);
                }
            } else if dirs.contains(d) {
                let i = dirs.index_of(d);
                assert(front[i] == d);
            } else if front.contains(d) {
                let i = front.index_of(d);
                assert(dirs[i] == d);
            }
        }
    }
}

proof fn lemma_member_total(items: Seq<PlannedFileView>, dirs: Seq<Seq<char>>)
    requires
        ascending(dirs),
        forall|i: int|
            0 <= i < items.len() && (#[trigger] items[i]).action == PlannedAction::Copy
                ==> dirs.contains(folder_of(items[i])),
    ensures
        member_total(items, dirs) == plan::count_copies(items),
    decreases items.len(),
{
    if items.len() > 0 {
        lemma_member_total_step(items, dirs);
        assert(items.last() == items[items.len() - 1]);
        lemma_member_total(items.drop_last(), dirs);
    } else {
        lemma_member_total_empty(items, dirs);
    }
}

proof fn lemma_member_total_empty(items: Seq<PlannedFileView>, dirs: Seq<Seq<char>>)
    requires
        items.len() == 0,
    ensures
        member_total(items, dirs) == 0,
    decreases dirs.len(),
{
    if dirs.len() > 0 {
        lemma_member_total_empty(items, dirs.drop_last());
    }
}

proof fn lemma_group_lines_len(items: Seq<PlannedFileView>, dirs: Seq<Seq<char>>)
    ensures
        group_lines(items, dirs).len() == member_total(items, dirs) + 2 * dirs.len(),
    decreases dirs.len(),
{
    if dirs.len() > 0 {
        lemma_group_lines_len(items, dirs.drop_last());
        law_names_are_in_order(members(items, dirs.last()));
    }
}

proof fn lemma_members_contain(items: Seq<PlannedFileView>, d: Seq<char>, i: int)
    requires
        0 <= i < items.len(),
        belongs(items[i], d),
    ensures
        members(items, d).contains(items[i]),
    decreases items.len(),
{
    let rest = members(items.drop_last(), d);
    if i == items.len() - 1 {
        assert(rest.push(items.last())[rest.len() as int] == items[i]);
    } else {
        lemma_members_contain(items.drop_last(), d, i);
        let k = rest.index_of(items[i]);
        if belongs(items.last(), d) {
            assert(rest.push(items.last())[k] == items[i]);
        }
    }
}

proof fn lemma_group_shows(
    items: Seq<PlannedFileView>,
    dirs: Seq<Seq<char>>,
    i: int,
)
    requires
        0 <= i < items.len(),
        items[i].action == PlannedAction::Copy,
        dirs.contains(folder_of(items[i])),
    ensures
        group_lines(items, dirs).contains(file_line(items[i])),
    decreases dirs.len(),
{
    let d = folder_of(items[i]);
    let line = file_line(items[i]);
    let front = group_lines(items, dirs.drop_last());
    let fs = members(items, dirs.last());
    let back = folder_lines(dirs.last(), fs);
    if dirs.last() == d {
        lemma_members_contain(items, d, i);
        law_names_are_in_order(fs);
        fs.to_multiset_ensures();
        by_name(fs).to_multiset_ensures();
        assert(fs.to_multiset().count(items[i]) > 0);
        assert(by_name(fs).contains(items[i]));
        let k = by_name(fs).index_of(items[i]);
        assert(file_lines(by_name(fs))[k] == line);
        assert(back[k + 1] == line);
        assert((front + back)[front.len() + k + 1] == line);
    } else {
        let k = dirs.index_of(d);
        assert(dirs.drop_last()[k] == d);
        lemma_group_shows(items, dirs.drop_last(), i);
        let m = front.index_of(line);
        assert((front + back)[m] == line);
    }
}

/// The preview leaves no file out: it has a line for each file that is to be copied, and
/// besides them only a heading and an empty line for each folder.
pub proof fn law_every_copy_is_shown(items: Seq<PlannedFileView>)
    requires
        plan::count_copies(items) > 0,
    ensures
        review_tree(items).len() == plan::count_copies(items) + 2 * folders(items).len(),
        forall|i: int|
            0 <= i < items.len() && (#[trigger] items[i]).action == PlannedAction::Copy
                ==> review_tree(items).contains(file_line(items[i])),
{
    lemma_folders(items);
    lemma_member_total(items, folders(items));
    lemma_group_lines_len(items, folders(items));
    assert forall|i: int|
        0 <= i < items.len() && (#[trigger] items[i]).action
            == PlannedAction::Copy implies review_tree(items).contains(file_line(items[i])) by {
        lemma_group_shows(items, folders(items), i);
    }
}

/// A file is grouped by the folder it comes from and named by what follows it.
pub proof fn law_files_are_grouped_by_folder(f: PlannedFile)
    ensures
        f.source_rel_path@.contains('/') ==> f.source_rel_path@ == folder_of(f@).push('/')
            + base_name(f@),
        !f.source_rel_path@.contains('/') ==> folder_of(f@) == "(root)"@ && base_name(f@)
            == f.source_rel_path@,
        !base_name(f@).contains('/'),
{
    text::law_text_is_cut_at_the_last(f.source_rel_path@, '/');
    text::lemma_last_index_bounds(f.source_rel_path@, '/');
}

/// Only files that are to be copied are previewed, each under its own folder, in the order of
/// the plan before they are sorted.
pub proof fn law_only_copies_are_previewed(
    items: Seq<PlannedFileView>,
    f: PlannedFileView,
    d: Seq<char>,
)
    ensures
        members(Seq::empty(), d).len() == 0,
        members(items.push(f), d) == if f.action is Copy && folder_of(f) == d {
            members(items, d).push(f)
        } else {
            members(items, d)
        },
{
    assert(items.push(f).drop_last() =~= items);
}

/// The heading of a folder counts every file of it once under its kind, and all of their bytes.
pub proof fn law_headings_count_every_file(
    fs: Seq<PlannedFileView>,
    f: PlannedFileView,
    kind: MediaKindWire,
)
    ensures
        count_kind(Seq::empty(), kind) == 0,
        total_size(Seq::empty()) == 0,
        count_kind(fs.push(f), kind) == count_kind(fs, kind) + if f.kind == kind {
            1int
        } else {
            0int
        },
        total_size(fs.push(f)) == total_size(fs) + f.source_size,
{
    assert(fs.push(f).drop_last() =~= fs);
}

/// The line of a file has its name and the tag of its kind; the tags of two kinds differ.
pub proof fn law_lines_name_their_files(f: PlannedFile, a: MediaKindWire, b: MediaKindWire)
    ensures
        file_line(f@).last().text == text::after_last(f.source_rel_path@, '/'),
        file_line(f@)[1].text == kind_tag(f.kind),
        a != b ==> kind_tag(a) != kind_tag(b),
{
    reveal_strlit("RAW");
    reveal_strlit("IMG");
    reveal_strlit("VID");
    reveal_strlit("SIDE");
    if a != b {
        assert(kind_tag(a).len() != kind_tag(b).len() || kind_tag(a)[0] != kind_tag(b)[0]);
    }
}

/// The preview begins with how many files and bytes are to be copied and how many files are
/// left out, and an import without new files says so.
pub proof fn law_preview_begins_with_the_numbers(p: PlanView)
    ensures
        review_lines(p)[0][1].text == text::decimal(plan::count_copies(p.items)) + " files · "@
            + labels::human_size(execute::copy_bytes(p.items)),
        review_lines(p)[1][1].text == text::decimal(plan::count_skips(p.items)) + " files"@,
        review_lines(p).skip(4) == review_tree(p.items),
        plan::count_copies(p.items) == 0 ==> review_tree(p.items).len() == 1
            && review_tree(p.items)[0][0].text == "(no new files to copy)"@,
{
    assert(review_lines(p).skip(4) =~= review_tree(p.items));
}

} // verus!
