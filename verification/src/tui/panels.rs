//! What the screens of a running scan or import show, and the two around them.

use vstd::prelude::*;
use crate::engine::execute;
use crate::events::SyncSummary;
use crate::plan;
use crate::text;
use super::labels;
use super::menus;
use super::menus::{Content, ContentView};
use super::review;
use super::slots;
use super::slots::{CopySlot, SlotView};
use super::state;
use super::style;
use super::style::{Line, LineView, Page, Span, Tone};
use super::state::{App, AppView};

verus! {

/// A bar that is filled to `done / total`, and at most to its end. `total` is not 0.
#[derive(Debug)]
pub struct Gauge {
    pub title: String,
    pub done: u64,
    pub total: u64,
    pub label: String,
}

/// The contents of a [`Gauge`].
pub struct GaugeView {
    pub title: Seq<char>,
    pub done: u64,
    pub total: u64,
    pub label: Seq<char>,
}

impl View for Gauge {
    type V = GaugeView;

    open spec fn view(&self) -> GaugeView {
        GaugeView {
            title: self.title@,
            done: self.done,
            total: self.total,
            label: self.label@,
        }
    }
}

// ---------------------------------------------------------------------------
// The scan
// ---------------------------------------------------------------------------

/// What the scan shows.
#[derive(Debug)]
pub struct ScanContent {
    pub heading: Line,
    pub action: Line,
    /// Why the scan failed; nothing else is shown then.
    pub error: Option<Line>,
    pub status: Line,
    pub gauge: Gauge,
    pub details: Line,
}

/// The contents of a [`ScanContent`].
pub struct ScanContentView {
    pub heading: LineView,
    pub action: LineView,
    pub error: Option<LineView>,
    pub status: LineView,
    pub gauge: GaugeView,
    pub details: LineView,
}

/// The contents of an optional line.
pub open spec fn opt_line(l: Option<Line>) -> Option<LineView> {
    match l {
        Some(line) => Some(line@),
        None => None,
    }
}

impl View for ScanContent {
    type V = ScanContentView;

    open spec fn view(&self) -> ScanContentView {
        ScanContentView {
            heading: self.heading@,
            action: self.action@,
            error: opt_line(self.error),
            status: self.status@,
            gauge: self.gauge@,
            details: self.details@,
        }
    }
}

/// What the scan shows. The bar is full once the files are counted.
pub open spec fn scan_content(s: AppView) -> ScanContentView {
    ScanContentView {
        heading: menus::in_bold("Planning import"@, Tone::Plain),
        action: if s.scan.error is Some {
            menus::raw("Back to source"@)
        } else if s.scan.cancelling {
            menus::in_tone("Cancelling scan…"@, Tone::DarkGray)
        } else {
            menus::in_tone("Cancel scan"@, Tone::Red)
        },
        error: match s.scan.error {
            Some(e) => Some(menus::in_tone(e, Tone::Red)),
            None => None,
        },
        status: menus::raw(s.scan.status),
        gauge: GaugeView {
            title: " Planning "@,
            done: if s.scan.files_total > 0 {
                1
            } else {
                0
            },
            total: 1,
            label: "building plan…"@,
        },
        details: menus::in_tone(
            text::decimal(s.scan.files_total as nat) + " files enumerated."@,
            Tone::DarkGray,
        ),
    }
}

impl App {
    /// What the scan shows.
    pub fn scan_screen(&self) -> (r: ScanContent)
        ensures
            r@ == scan_content(self@),
    {
        let action = if self.scan.error.is_some() {
            Line::raw("Back to source")
        } else if self.scan.cancelling {
            menus::tone_line("Cancelling scan…", Tone::DarkGray)
        } else {
            menus::tone_line("Cancel scan", Tone::Red)
        };
        let error = match &self.scan.error {
            Some(e) => Some(menus::tone_line(e.as_str(), Tone::Red)),
            None => None,
        };
        let counted = text::with(text::decimal_text(self.scan.files_total), " files enumerated.");
        ScanContent {
            heading: menus::bold_line("Planning import", Tone::Plain),
            action,
            error,
            status: Line::raw(self.scan.status.as_str()),
            gauge: Gauge {
                title: text::copy_str(" Planning "),
                done: if self.scan.files_total > 0 {
                    1
                } else {
                    0
                },
                total: 1,
                label: text::copy_str("building plan…"),
            },
            details: menus::tone_line(counted.as_str(), Tone::DarkGray),
        }
    }
}

// ---------------------------------------------------------------------------
// The preview
// ---------------------------------------------------------------------------

/// The preview of a plan.
pub open spec fn review_content(s: AppView) -> Option<ContentView> {
    match s.plan {
        None => None,
        Some(p) => Some(
            ContentView {
                heading: menus::in_bold("Ready to import"@, Tone::Plain),
                menu_title: " Actions "@,
                menu: seq![
                    menus::in_bold(
                        "Import "@ + text::decimal(plan::count_copies(p.items)) + " files"@,
                        Tone::Green,
                    ),
                    menus::raw("Dry run"@),
                    menus::raw(""@),
                    menus::raw("Back"@),
                ],
                selected: menus::third_apart(s.review_action as int),
                details_title: " Import preview "@,
                details: review::review_lines(p),
            },
        ),
    }
}

/// The contents of an optional screen.
pub open spec fn opt_content(c: Option<Content>) -> Option<ContentView> {
    match c {
        Some(content) => Some(content@),
        None => None,
    }
}

impl App {
    /// The preview, where there is a plan.
    pub fn review_screen(&self) -> (r: Option<Content>)
        requires
            self@.review_action <= 2,
            self@.plan matches Some(p) ==> execute::copy_bytes(p.items) <= u64::MAX,
        ensures
            opt_content(r) == review_content(self@),
    {
        match &self.plan {
            None => None,
            Some(p) => {
                let import = text::with(
                    text::with(text::copy_str("Import "), &text::decimal_text(p.copies())),
                    " files",
                );
                let mut menu = Page::new();
                menu.add(menus::bold_line(import.as_str(), Tone::Green));
                menu.add_raw("Dry run");
                menu.add_raw("");
                menu.add_raw("Back");
                let r = Content {
                    heading: menus::bold_line("Ready to import", Tone::Plain),
                    menu_title: " Actions ",
                    menu,
                    selected: menus::skip_gap(self.review_action),
                    details_title: " Import preview ",
                    details: review::build_review_items(p),
                };
                proof {
                    assert(r@.menu =~= review_content(self@)->0.menu);
                }
                Some(r)
            },
        }
    }
}

/// Whether a preview of `lines` lines needs a scroll bar in a frame of a height.
pub fn needs_scrollbar(lines: usize, height: u16) -> (r: bool)
    ensures
        r == (lines > height - 2 && lines > 0),
{
    let inside: usize = if height > 2 {
        (height - 2) as usize
    } else {
        0
    };
    lines > inside
}

// ---------------------------------------------------------------------------
// The import
// ---------------------------------------------------------------------------

/// What the import shows: a heading, the way out, all lanes together, the lanes for which
/// there is room, and the last lines of the log.
#[derive(Debug)]
pub struct SyncContent {
    pub heading: Line,
    pub action: Line,
    pub total: Gauge,
    pub lanes: Vec<Gauge>,
}

/// The contents of a [`SyncContent`].
pub struct SyncContentView {
    pub heading: LineView,
    pub action: LineView,
    pub total: GaugeView,
    pub lanes: Seq<GaugeView>,
}

/// The contents of a list of bars.
pub open spec fn gauges_view(v: Seq<Gauge>) -> Seq<GaugeView> {
    v.map_values(|g: Gauge| g@)
}

impl View for SyncContent {
    type V = SyncContentView;

    open spec fn view(&self) -> SyncContentView {
        SyncContentView {
            heading: self.heading@,
            action: self.action@,
            total: self.total@,
            lanes: gauges_view(self.lanes@),
        }
    }
}

/// How many of `lanes` are shown in a body of a height: three lines each, besides three for
/// all together and three for the log, but always one.
pub open spec fn visible_lanes(lanes: nat, height: u16) -> nat {
    let room = if height > 6 {
        (height - 6) as nat / 3
    } else {
        0
    };
    let fit = if lanes <= room {
        lanes
    } else {
        room
    };
    if fit == 0 {
        1
    } else {
        fit
    }
}

/// How many lanes are not shown.
pub open spec fn hidden_lanes(lanes: nat, height: u16) -> nat {
    if lanes > visible_lanes(lanes, height) {
        (lanes - visible_lanes(lanes, height)) as nat
    } else {
        0
    }
}

/// What the bar of the whole import says.
pub open spec fn total_label(s: AppView, height: u16) -> Seq<char> {
    let p = s.sync.progress;
    let hidden = hidden_lanes(s.sync.lanes.len(), height);
    let counts = text::decimal((p.copied + p.failed) as nat) + "/"@ + text::decimal(
        s.sync.copy_total as nat,
    ) + " imported · "@ + text::decimal(p.copied as nat) + " copied · "@ + text::decimal(
        p.failed as nat,
    ) + " failed · "@ + text::decimal(p.skipped as nat) + " skipped"@;
    if hidden > 0 {
        counts + " · +"@ + text::decimal(hidden) + " more lanes hidden"@
    } else {
        counts
    }
}

/// The bar of the whole import. It is full where there is nothing to copy.
pub open spec fn total_gauge(s: AppView, height: u16) -> GaugeView {
    let p = s.sync.progress;
    GaugeView {
        title: if s.sync.dry_run {
            " Progress (dry run) "@
        } else {
            " Progress "@
        },
        done: if s.sync.copy_total > 0 {
            (p.copied + p.failed) as u64
        } else {
            1
        },
        total: if s.sync.copy_total > 0 {
            s.sync.copy_total
        } else {
            1
        },
        label: total_label(s, height),
    }
}

/// The bar of a lane. It is empty where nothing or nothing sized is worked on.
pub open spec fn lane_gauge(lanes: Seq<Option<SlotView>>, i: int) -> GaugeView {
    let title = " Worker "@ + text::decimal((i + 1) as nat) + " "@;
    let lane = if i < lanes.len() {
        lanes[i]
    } else {
        None
    };
    match lane {
        Some(slot) => if slot.bytes_total > 0 {
            GaugeView {
                title,
                done: slot.bytes_done,
                total: slot.bytes_total,
                label: slot.rel_path + " — "@ + labels::phase_label(slot.phase) + "  "@
                    + labels::human_size(slot.bytes_done as nat) + "/"@ + labels::human_size(
                    slot.bytes_total as nat,
                ),
            }
        } else {
            GaugeView {
                title,
                done: 0,
                total: 1,
                label: slot.rel_path + " — "@ + labels::phase_label(slot.phase),
            }
        },
        None => GaugeView { title, done: 0, total: 1, label: "(idle)"@ },
    }
}

/// What the import shows in a body of a height.
pub open spec fn sync_content(s: AppView, height: u16) -> SyncContentView {
    SyncContentView {
        heading: menus::in_bold(
            if s.sync.dry_run {
                "Checking import (dry run)"@
            } else {
                "Importing files"@
            },
            Tone::Plain,
        ),
        action: if s.sync.cancelling {
            menus::in_tone("Cancelling import…"@, Tone::DarkGray)
        } else {
            menus::in_tone("Cancel import"@, Tone::Red)
        },
        total: total_gauge(s, height),
        lanes: Seq::new(
            visible_lanes(s.sync.lanes.len(), height),
            |i: int| lane_gauge(s.sync.lanes, i),
        ),
    }
}

/// The colour of a line of the log.
pub open spec fn log_tone(line: Seq<char>) -> Tone {
    if text::holds(line, "FAIL"@) || text::holds(line, "ERROR"@) {
        Tone::Red
    } else if text::holds(line, "WARN"@) {
        Tone::Yellow
    } else if text::holds(line, "SKIP"@) {
        Tone::DarkGray
    } else {
        Tone::Green
    }
}

/// The last lines of the log, as many as a frame of a height has room for.
pub open spec fn log_lines(log: Seq<Seq<char>>, height: u16) -> Seq<LineView> {
    let room: int = if height > 2 {
        height - 2
    } else {
        0
    };
    let shown = if log.len() > room {
        log.skip(log.len() - room)
    } else {
        log
    };
    shown.map_values(|l: Seq<char>| menus::in_tone(l, log_tone(l)))
}

fn shown_lanes(lanes: usize, height: u16) -> (r: usize)
    ensures
        r == visible_lanes(lanes as nat, height),
{
    let room: usize = if height > 6 {
        ((height - 6) / 3) as usize
    } else {
        0
    };
    let fit: usize = if lanes <= room {
        lanes
    } else {
        room
    };
    if fit == 0 {
        1
    } else {
        fit
    }
}

fn lane_bar(slot: Option<&CopySlot>, title: String) -> (r: Gauge)
    ensures
        r@ == (match slot {
            Some(s) => if s.bytes_total > 0 {
                GaugeView {
                    title: title@,
                    done: s.bytes_done,
                    total: s.bytes_total,
                    label: s.rel_path@ + " — "@ + labels::phase_label(s.phase) + "  "@
                        + labels::human_size(s.bytes_done as nat) + "/"@ + labels::human_size(
                        s.bytes_total as nat,
                    ),
                }
            } else {
                GaugeView {
                    title: title@,
                    done: 0,
                    total: 1,
                    label: s.rel_path@ + " — "@ + labels::phase_label(s.phase),
                }
            },
            None => GaugeView { title: title@, done: 0, total: 1, label: "(idle)"@ },
        }),
{
    match slot {
        Some(s) => {
            let named = text::with(
                text::with(text::copy_str(s.rel_path.as_str()), " — "),
                labels::file_phase_label(s.phase),
            );
            if s.bytes_total > 0 {
                let sizes = text::with(
                    text::with(text::with(named, "  "), &labels::human_bytes(s.bytes_done)),
                    "/",
                );
                Gauge {
                    title,
                    done: s.bytes_done,
                    total: s.bytes_total,
                    label: text::with(sizes, &labels::human_bytes(s.bytes_total)),
                }
            } else {
                Gauge { title, done: 0, total: 1, label: named }
            }
        },
        None => Gauge { title, done: 0, total: 1, label: text::copy_str("(idle)") },
    }
}

fn tone_of_log(line: &str) -> (r: Tone)
    ensures
        r == log_tone(line@),
{
    if text::contains_text(line, "FAIL") || text::contains_text(line, "ERROR") {
        Tone::Red
    } else if text::contains_text(line, "WARN") {
        Tone::Yellow
    } else if text::contains_text(line, "SKIP") {
        Tone::DarkGray
    } else {
        Tone::Green
    }
}

impl App {
    fn lane_bar_at(&self, i: usize) -> (r: Gauge)
        requires
            i < u64::MAX,
        ensures
            r@ == lane_gauge(self@.sync.lanes, i as int),
    {
        let number: u64 = i as u64 + 1;
        let title = text::with(
            text::with(text::copy_str(" Worker "), &text::decimal_text(number)),
            " ",
        );
        if i < self.sync.lanes.slots.len() {
            proof {
                assert(self@.sync.lanes[i as int] == slots::opt_slot(
                    self.sync.lanes.slots@[i as int],
                ));
            }
            match &self.sync.lanes.slots[i] {
                Some(slot) => lane_bar(Some(slot), title),
                None => lane_bar(None, title),
            }
        } else {
            lane_bar(None, title)
        }
    }

    fn total_text(&self, height: u16) -> (r: String)
        requires
            self@.sync.progress.copied + self@.sync.progress.failed <= u64::MAX,
        ensures
            r@ == total_label(self@, height),
    {
        let p = self.sync.progress;
        let done: u64 = p.copied + p.failed;
        let imported = text::with(
            text::with(
                text::with(text::decimal_text(done), "/"),
                &text::decimal_text(self.sync.copy_total),
            ),
            " imported · ",
        );
        let copied = text::with(text::with(imported, &text::decimal_text(p.copied)), " copied · ");
        let failed = text::with(text::with(copied, &text::decimal_text(p.failed)), " failed · ");
        let counts = text::with(text::with(failed, &text::decimal_text(p.skipped)), " skipped");
        let lanes: usize = self.sync.lanes.len();
        let visible: usize = shown_lanes(lanes, height);
        if lanes > visible {
            let hidden: u64 = (lanes - visible) as u64;
            text::with(
                text::with(text::with(counts, " · +"), &text::decimal_text(hidden)),
                " more lanes hidden",
            )
        } else {
            counts
        }
    }

    fn total_bar(&self, height: u16) -> (r: Gauge)
        requires
            self@.sync.progress.copied + self@.sync.progress.failed <= u64::MAX,
        ensures
            r@ == total_gauge(self@, height),
    {
        let any: bool = self.sync.copy_total > 0;
        Gauge {
            title: if self.sync.dry_run {
                text::copy_str(" Progress (dry run) ")
            } else {
                text::copy_str(" Progress ")
            },
            done: if any {
                self.sync.progress.copied + self.sync.progress.failed
            } else {
                1
            },
            total: if any {
                self.sync.copy_total
            } else {
                1
            },
            label: self.total_text(height),
        }
    }

    /// What the import shows in a body of a height.
    pub fn sync_screen(&self, height: u16) -> (r: SyncContent)
        requires
            self@.sync.progress.copied + self@.sync.progress.failed <= u64::MAX,
        ensures
            r@ == sync_content(self@, height),
    {
        let heading = if self.sync.dry_run {
            menus::bold_line("Checking import (dry run)", Tone::Plain)
        } else {
            menus::bold_line("Importing files", Tone::Plain)
        };
        let action = if self.sync.cancelling {
            menus::tone_line("Cancelling import…", Tone::DarkGray)
        } else {
            menus::tone_line("Cancel import", Tone::Red)
        };
        let n: usize = shown_lanes(self.sync.lanes.len(), height);
        let mut lanes: Vec<Gauge> = Vec::new();
        let mut i: usize = 0;
        while i < n
            invariant
                i <= n,
                n <= 0x5555 + 1,
                lanes@.len() == i,
                forall|j: int| 0 <= j < i ==> (#[trigger] lanes@[j])@ == lane_gauge(self@.sync.lanes, j),
            decreases n - i,
        {
            lanes.push(self.lane_bar_at(i));
            i += 1;
        }
        let r = SyncContent { heading, action, total: self.total_bar(height), lanes };
        proof {
            assert(r@.lanes =~= sync_content(self@, height).lanes);
        }
        r
    }

    /// The last lines of the log, as many as a frame of a height has room for.
    pub fn log_rows(&self, height: u16) -> (r: Page)
        ensures
            r@ == log_lines(self@.sync.log, height),
    {
        let n: usize = self.sync.log.len();
        let room: usize = if height > 2 {
            (height - 2) as usize
        } else {
            0
        };
        let first: usize = if n > room {
            n - room
        } else {
            0
        };
        let ghost all = log_lines(self@.sync.log, height);
        let mut page = Page::new();
        let mut i: usize = first;
        while i < n
            invariant
                first <= i <= n,
                n == self.sync.log@.len(),
                room == (if height > 2 {
                    height - 2
                } else {
                    0
                }),
                first == (if n > room {
                    n - room
                } else {
                    0
                }),
                all == log_lines(self@.sync.log, height),
                page@ == all.take(i - first),
            decreases n - i,
        {
            let line = self.sync.log[i].as_str();
            page.add(menus::tone_line(line, tone_of_log(line)));
            proof {
                assert(all[i - first] == menus::in_tone(line@, log_tone(line@)));
                assert(page@ =~= all.take(i + 1 - first));
            }
            i += 1;
        }
        proof {
            assert(all.take(all.len() as int) =~= all);
        }
        page
    }
}

// ---------------------------------------------------------------------------
// The summary
// ---------------------------------------------------------------------------

/// What the import came to, in a line.
pub open spec fn summary_heading(s: AppView) -> LineView {
    let summary = match s.sync.summary {
        Some(v) => v,
        None => state::no_summary(),
    };
    match s.sync.error {
        Some(e) => menus::in_bold("Import did not complete: "@ + e, Tone::Red),
        None => if summary.cancelled {
            menus::in_bold("Import cancelled"@, Tone::Yellow)
        } else if s.sync.dry_run {
            menus::in_bold("Dry run complete"@, Tone::Green)
        } else {
            menus::in_bold("Import complete"@, Tone::Green)
        },
    }
}

/// A number in the summary.
pub open spec fn figure(name: Seq<char>, tone: Tone, n: Seq<char>) -> LineView {
    seq![style::toned(name, tone), style::plain(n)]
}

/// The numbers of an import.
pub open spec fn figures(v: SyncSummary) -> Seq<LineView> {
    seq![
        figure(
            " Completed   "@,
            Tone::Cyan,
            text::decimal((v.copied + v.skipped + v.failed) as nat) + "/"@ + text::decimal(
                v.total as nat,
            ),
        ),
        figure(" Copied      "@, Tone::Green, text::decimal(v.copied as nat)),
        figure(" Skipped     "@, Tone::Cyan, text::decimal(v.skipped as nat)),
        figure(" Failed      "@, Tone::Red, text::decimal(v.failed as nat)),
    ]
}

/// Lines as they are.
pub open spec fn raw_lines(v: Seq<Seq<char>>) -> Seq<LineView> {
    v.map_values(|l: Seq<char>| menus::raw(l))
}

/// What there is to know of an import that is over: that nothing was written where that
/// was so, the numbers where there are any, and every warning and error.
pub open spec fn summary_details(s: AppView) -> Seq<LineView> {
    let cancelled = s.sync.summary matches Some(v) && v.cancelled;
    let dry: Seq<LineView> = if s.sync.dry_run && s.sync.error is None && !cancelled {
        seq![menus::raw("No files were written."@), menus::raw(""@)]
    } else {
        Seq::empty()
    };
    let numbers = match s.sync.summary {
        Some(v) => figures(v),
        None => Seq::empty(),
    };
    let notes: Seq<LineView> = if s.sync.diagnostics.len() > 0 {
        seq![menus::raw(""@), menus::in_bold("Warnings and errors"@, Tone::Yellow)] + raw_lines(
            s.sync.diagnostics,
        )
    } else {
        Seq::empty()
    };
    dry + numbers + notes
}

/// The summary of an import.
pub open spec fn summary_content(s: AppView) -> ContentView {
    ContentView {
        heading: summary_heading(s),
        menu_title: " Actions "@,
        menu: seq![
            menus::in_bold("Import another source"@, Tone::Green),
            menus::raw("Quit"@),
        ],
        selected: s.summary_action as int,
        details_title: " Summary "@,
        details: summary_details(s),
    }
}

fn figure_row(name: &str, tone: Tone, n: String) -> (r: Line)
    ensures
        r@ == figure(name@, tone, n@),
{
    Line::pair(Span::toned(text::copy_str(name), tone), Span::plain(n))
}

fn add_figures(page: &mut Page, v: &SyncSummary)
    requires
        v.copied + v.skipped + v.failed <= u64::MAX,
    ensures
        final(page)@ == old(page)@ + figures(*v),
{
    let ghost before = page@;
    let completed = text::with(
        text::with(text::decimal_text(v.completed()), "/"),
        &text::decimal_text(v.total),
    );
    page.add(figure_row(" Completed   ", Tone::Cyan, completed));
    page.add(figure_row(" Copied      ", Tone::Green, text::decimal_text(v.copied)));
    page.add(figure_row(" Skipped     ", Tone::Cyan, text::decimal_text(v.skipped)));
    page.add(figure_row(" Failed      ", Tone::Red, text::decimal_text(v.failed)));
    proof {
        assert(page@ =~= before + figures(*v));
    }
}

fn add_raw_lines(page: &mut Page, v: &Vec<String>)
    ensures
        final(page)@ == old(page)@ + raw_lines(text::texts(v@)),
{
    let ghost before = page@;
    let ghost all = raw_lines(text::texts(v@));
    let mut i: usize = 0;
    proof {
        assert(page@ =~= before + all.take(0));
    }
    while i < v.len()
        invariant
            i <= v@.len(),
            all == raw_lines(text::texts(v@)),
            page@ == before + all.take(i as int),
        decreases v@.len() - i,
    {
        page.add_raw(v[i].as_str());
        proof {
            assert(all[i as int] == menus::raw(v@[i as int]@));
            assert(page@ =~= before + all.take(i + 1));
        }
        i += 1;
    }
    proof {
        assert(all.take(all.len() as int) =~= all);
    }
}

impl App {
    fn is_cancelled(&self) -> (r: bool)
        ensures
            r == (self@.sync.summary matches Some(v) && v.cancelled),
    {
        match &self.sync.summary {
            Some(v) => v.cancelled,
            None => false,
        }
    }

    fn summary_head(&self) -> (r: Line)
        ensures
            r@ == summary_heading(self@),
    {
        match &self.sync.error {
            Some(e) => {
                let shown = text::with(text::copy_str("Import did not complete: "), e.as_str());
                menus::bold_line(shown.as_str(), Tone::Red)
            },
            None => if self.is_cancelled() {
                menus::bold_line("Import cancelled", Tone::Yellow)
            } else if self.sync.dry_run {
                menus::bold_line("Dry run complete", Tone::Green)
            } else {
                menus::bold_line("Import complete", Tone::Green)
            },
        }
    }

    fn summary_rows(&self) -> (r: Page)
        requires
            self@.sync.summary matches Some(v) ==> v.copied + v.skipped + v.failed <= u64::MAX,
        ensures
            r@ == summary_details(self@),
    {
        let mut page = Page::new();
        if self.sync.dry_run && self.sync.error.is_none() && !self.is_cancelled() {
            page.add_raw("No files were written.");
            page.add_raw("");
        }
        let ghost dry = page@;
        match &self.sync.summary {
            Some(v) => {
                add_figures(&mut page, v);
            },
            None => {},
        }
        let ghost numbered = page@;
        if self.sync.diagnostics.len() > 0 {
            page.add_raw("");
            page.add(menus::bold_line("Warnings and errors", Tone::Yellow));
            add_raw_lines(&mut page, &self.sync.diagnostics);
        }
        proof {
            assert(page@ =~= summary_details(self@));
        }
        page
    }

    /// The summary of an import.
    pub fn summary_screen(&self) -> (r: Content)
        requires
            self@.sync.summary matches Some(v) ==> v.copied + v.skipped + v.failed <= u64::MAX,
        ensures
            r@ == summary_content(self@),
    {
        let mut menu = Page::new();
        menu.add(menus::bold_line("Import another source", Tone::Green));
        menu.add_raw("Quit");
        let r = Content {
            heading: self.summary_head(),
            menu_title: " Actions ",
            menu,
            selected: self.summary_action,
            details_title: " Summary ",
            details: self.summary_rows(),
        };
        proof {
            assert(r@.menu =~= summary_content(self@).menu);
        }
        r
    }
}

/// Whether the files with an outcome can be counted.
pub fn is_countable(v: &SyncSummary) -> (r: bool)
    ensures
        r == (v.copied + v.skipped + v.failed <= u64::MAX),
{
    match v.copied.checked_add(v.skipped) {
        Some(n) => n.checked_add(v.failed).is_some(),
        None => false,
    }
}

// ---------------------------------------------------------------------------
// Laws
// ---------------------------------------------------------------------------

/// Every lane is either shown or counted as hidden, and at least one is shown.
pub proof fn law_lanes_are_shown_or_counted(lanes: nat, height: u16)
    ensures
        visible_lanes(lanes, height) >= 1,
        lanes >= 1 ==> visible_lanes(lanes, height) + hidden_lanes(lanes, height) == lanes,
        visible_lanes(lanes, height) > 1 ==> 3 * visible_lanes(lanes, height) + 6 <= height,
{
}

/// The summary tells every warning and every error of the import.
pub proof fn law_summary_tells_every_diagnostic(s: AppView, i: int)
    requires
        0 <= i < s.sync.diagnostics.len(),
    ensures
        summary_details(s).contains(menus::raw(s.sync.diagnostics[i])),
{
    let lines = raw_lines(s.sync.diagnostics);
    assert(lines[i] == menus::raw(s.sync.diagnostics[i]));
    let all = summary_details(s);
    assert(all[all.len() - lines.len() + i] == lines[i]);
}

} // verus!
