//! What the screens with menus show.

use vstd::prelude::*;
use crate::config;
use crate::config::{AppConfig, CatalogueConfig, CatalogueView, Entry};
use crate::mount;
use crate::mount::{DetectedMount, MountRank, MountView};
use crate::text;
use super::form::{CatalogueCreateItem, FormView};
use super::form;
use super::keys;
use super::labels;
use super::style;
use super::style::{Line, LineView, Page, Span, Tone};
use super::state::{App, AppView, Screen};

verus! {

/// What a screen shows: a heading, a menu with one row chosen, and details on it.
#[derive(Debug)]
pub struct Content {
    pub heading: Line,
    pub menu_title: &'static str,
    pub menu: Page,
    pub selected: usize,
    pub details_title: &'static str,
    pub details: Page,
}

/// The contents of a [`Content`].
pub struct ContentView {
    pub heading: LineView,
    pub menu_title: Seq<char>,
    pub menu: Seq<LineView>,
    pub selected: int,
    pub details_title: Seq<char>,
    pub details: Seq<LineView>,
}

impl View for Content {
    type V = ContentView;

    open spec fn view(&self) -> ContentView {
        ContentView {
            heading: self.heading@,
            menu_title: self.menu_title@,
            menu: self.menu@,
            selected: self.selected as int,
            details_title: self.details_title@,
            details: self.details@,
        }
    }
}

// ---------------------------------------------------------------------------
// Pieces
// ---------------------------------------------------------------------------

/// A plain line.
pub open spec fn raw(s: Seq<char>) -> LineView {
    seq![style::plain(s)]
}

/// A line in a colour.
pub open spec fn in_tone(s: Seq<char>, tone: Tone) -> LineView {
    seq![style::toned(s, tone)]
}

/// A bold line in a colour.
pub open spec fn in_bold(s: Seq<char>, tone: Tone) -> LineView {
    seq![style::strong(s, tone)]
}

/// A named value.
pub open spec fn named(name: Seq<char>, value: Seq<char>) -> LineView {
    seq![style::toned(name, Tone::Cyan), style::plain(value)]
}

pub(super) fn tone_line(s: &str, tone: Tone) -> (r: Line)
    ensures
        r@ == in_tone(s@, tone),
{
    Line::of(Span::toned(text::copy_str(s), tone))
}

pub(super) fn bold_line(s: &str, tone: Tone) -> (r: Line)
    ensures
        r@ == in_bold(s@, tone),
{
    Line::of(Span::strong(text::copy_str(s), tone))
}

pub(super) fn named_line(name: &str, value: &str) -> (r: Line)
    ensures
        r@ == named(name@, value@),
{
    Line::pair(
        Span::toned(text::copy_str(name), Tone::Cyan),
        Span::plain(text::copy_str(value)),
    )
}

/// The text, or another where there is none.
pub open spec fn text_or(s: Option<Seq<char>>, other: Seq<char>) -> Seq<char> {
    match s {
        Some(t) => t,
        None => other,
    }
}

pub(super) fn str_or<'a>(s: &'a Option<String>, other: &'a str) -> (r: &'a str)
    ensures
        r@ == text_or(text::opt_text(*s), other@),
{
    match s {
        Some(t) => t.as_str(),
        None => other,
    }
}

/// The line of a menu of three rows with an empty line before the last.
pub open spec fn third_apart(action: int) -> int {
    if action < 2 {
        action
    } else {
        3
    }
}

pub(super) fn skip_gap(action: usize) -> (r: usize)
    ensures
        r == third_apart(action as int),
{
    if action < 2 {
        action
    } else {
        3
    }
}

// ---------------------------------------------------------------------------
// Header, status and help
// ---------------------------------------------------------------------------

/// The stage of the import that a screen belongs to.
pub open spec fn stage_of(screen: Screen) -> int {
    match screen {
        Screen::SourceSelect => 0,
        Screen::CatalogueSelect => 1,
        Screen::CatalogueCreate => 1,
        Screen::Confirm => 2,
        Screen::SaveConfigPrompt => 2,
        Screen::Scan => 3,
        Screen::Review => 3,
        Screen::Sync => 4,
        Screen::Summary => 4,
    }
}

/// A stage in the header: the current one stands out, those behind are lighter than those
/// ahead.
pub open spec fn stage_span(name: Seq<char>, index: int, current: int) -> style::SpanView {
    if index == current {
        style::SpanView { text: name, tone: Tone::Cyan, bold: true, underlined: true }
    } else if index < current {
        style::toned(name, Tone::Gray)
    } else {
        style::toned(name, Tone::DarkGray)
    }
}

/// The header.
pub open spec fn header_line(current: int) -> LineView {
    let between = style::toned("  ─  "@, Tone::DarkGray);
    seq![
        style::strong(" IMAGESYNC     "@, Tone::Cyan),
        stage_span("SOURCE"@, 0, current),
        between,
        stage_span("CATALOGUE"@, 1, current),
        between,
        stage_span("CONFIRM"@, 2, current),
        between,
        stage_span("REVIEW"@, 3, current),
        between,
        stage_span("IMPORT"@, 4, current),
    ]
}

/// What the keys do, in the last line.
pub open spec fn help_text(s: AppView) -> Seq<char> {
    match s.screen {
        Screen::SourceSelect => if s.manual_editing {
            "Enter accept   Esc cancel"@
        } else {
            "↑/↓ choose   Enter activate   Esc quit"@
        },
        Screen::CatalogueSelect => "↑/↓ choose   Enter activate   Esc back"@,
        Screen::CatalogueCreate =>
            "↑/↓ choose   ←/→ move cursor   Enter activate   Esc back"@,
        Screen::SaveConfigPrompt => "↑/↓ choose   Enter activate   Esc back"@,
        Screen::Confirm => "↑/↓ choose   ←/→ change value   Enter activate   Esc back"@,
        Screen::Scan => if s.scan.error is Some {
            "Enter/Esc back"@
        } else {
            "Enter/Esc cancel"@
        },
        Screen::Review =>
            "↑/↓ choose   PgUp/PgDn scroll preview   Enter activate   Esc back"@,
        Screen::Sync => "Enter/Esc cancel"@,
        Screen::Summary => "↑/↓ choose   Enter activate   Esc quit"@,
    }
}

fn stage(name: &str, index: usize, current: usize) -> (r: Span)
    ensures
        r@ == stage_span(name@, index as int, current as int),
{
    if index == current {
        Span { text: text::copy_str(name), tone: Tone::Cyan, bold: true, underlined: true }
    } else if index < current {
        Span::toned(text::copy_str(name), Tone::Gray)
    } else {
        Span::toned(text::copy_str(name), Tone::DarkGray)
    }
}

fn between() -> (r: Span)
    ensures
        r@ == style::toned("  ─  "@, Tone::DarkGray),
{
    Span::toned(text::copy_str("  ─  "), Tone::DarkGray)
}

impl App {
    /// The header with the stages of the import.
    pub fn header(&self) -> (r: Line)
        ensures
            r@ == header_line(stage_of(self@.screen)),
    {
        let current: usize = match self.screen {
            Screen::SourceSelect => 0,
            Screen::CatalogueSelect | Screen::CatalogueCreate => 1,
            Screen::Confirm | Screen::SaveConfigPrompt => 2,
            Screen::Scan | Screen::Review => 3,
            Screen::Sync | Screen::Summary => 4,
        };
        let mut line = Line::new();
        line.add(Span::strong(text::copy_str(" IMAGESYNC     "), Tone::Cyan));
        line.add(stage("SOURCE", 0, current));
        line.add(between());
        line.add(stage("CATALOGUE", 1, current));
        line.add(between());
        line.add(stage("CONFIRM", 2, current));
        line.add(between());
        line.add(stage("REVIEW", 3, current));
        line.add(between());
        line.add(stage("IMPORT", 4, current));
        line
    }

    /// The message to show.
    pub fn status_text(&self) -> (r: &str)
        ensures
            r@ == text_or(self@.status, ""@),
    {
        str_or(&self.status, "")
    }

    /// What the keys do on this screen.
    pub fn help(&self) -> (r: &'static str)
        ensures
            r@ == help_text(self@),
    {
        match self.screen {
            Screen::SourceSelect => if self.manual_editing {
                "Enter accept   Esc cancel"
            } else {
                "↑/↓ choose   Enter activate   Esc quit"
            },
            Screen::CatalogueSelect => "↑/↓ choose   Enter activate   Esc back",
            Screen::CatalogueCreate =>
                "↑/↓ choose   ←/→ move cursor   Enter activate   Esc back",
            Screen::SaveConfigPrompt => "↑/↓ choose   Enter activate   Esc back",
            Screen::Confirm => "↑/↓ choose   ←/→ change value   Enter activate   Esc back",
            Screen::Scan => if self.scan.error.is_some() {
                "Enter/Esc back"
            } else {
                "Enter/Esc cancel"
            },
            Screen::Review =>
                "↑/↓ choose   PgUp/PgDn scroll preview   Enter activate   Esc back",
            Screen::Sync => "Enter/Esc cancel",
            Screen::Summary => "↑/↓ choose   Enter activate   Esc quit",
        }
    }
}

// ---------------------------------------------------------------------------
// Sources
// ---------------------------------------------------------------------------

/// The row of a volume.
pub open spec fn mount_line(m: MountView) -> LineView {
    seq![
        style::strong(text::space_pad(labels::trimmed_label(m.label, 30), 30), Tone::Plain),
        match m.rank {
            MountRank::CameraCard => style::toned("CAMERA"@, Tone::Green),
            MountRank::Removable => style::toned("REMOVABLE"@, Tone::Cyan),
            MountRank::Other => style::toned("OTHER"@, Tone::DarkGray),
        },
    ]
}

/// The rows of several volumes.
pub open spec fn mount_lines(ms: Seq<MountView>) -> Seq<LineView> {
    ms.map_values(|m: MountView| mount_line(m))
}

/// The row in which a path is typed.
pub open spec fn path_line(s: AppView) -> LineView {
    if s.manual_editing {
        seq![
            style::toned("Enter a path…  "@, Tone::Yellow),
            style::toned(s.manual_path + "_"@, Tone::Yellow),
        ]
    } else {
        raw("Enter a path…"@)
    }
}

/// What the chosen row of the sources is about.
pub open spec fn source_details(s: AppView) -> Seq<LineView> {
    let n = s.mounts.len();
    let at = s.source_selection;
    if at < n {
        let m = s.mounts[at as int];
        seq![
            named(
                " Type   "@,
                match m.rank {
                    MountRank::CameraCard => "Camera card"@,
                    MountRank::Removable => "Removable storage"@,
                    MountRank::Other => "Other mount"@,
                },
            ),
            named(" Path   "@, m.path.text),
        ]
    } else if at == n {
        seq![raw("Enter an absolute path to a mounted camera or storage directory."@)]
    } else if at == n + 1 {
        seq![raw("Rescan the system for mounted storage devices."@)]
    } else {
        seq![raw("Exit ImageSync."@)]
    }
}

/// The choice of a source.
pub open spec fn source_content(s: AppView) -> ContentView {
    ContentView {
        heading: in_bold("Select a camera or storage device"@, Tone::Plain),
        menu_title: " Sources "@,
        menu: mount_lines(s.mounts) + seq![
            raw(""@),
            path_line(s),
            raw("Refresh sources"@),
            in_tone("Quit"@, Tone::Red),
        ],
        selected: if s.source_selection < s.mounts.len() {
            s.source_selection as int
        } else {
            keys::row_down(s.source_selection, (s.source_selection + 1) as nat) as int
        },
        details_title: " Source details "@,
        details: source_details(s),
    }
}

fn mount_row(m: &DetectedMount) -> (r: Line)
    ensures
        r@ == mount_line(m@),
{
    let label = text::space_padded(&labels::trim_label(m.label.as_str(), 30), 30);
    let kind = match m.rank {
        MountRank::CameraCard => Span::toned(text::copy_str("CAMERA"), Tone::Green),
        MountRank::Removable => Span::toned(text::copy_str("REMOVABLE"), Tone::Cyan),
        MountRank::Other => Span::toned(text::copy_str("OTHER"), Tone::DarkGray),
    };
    Line::pair(Span::strong(label, Tone::Plain), kind)
}

fn mount_rows(mounts: &Vec<DetectedMount>) -> (r: Page)
    ensures
        r@ == mount_lines(mount::mounts_view(mounts@)),
{
    let ghost all = mount_lines(mount::mounts_view(mounts@));
    let mut page = Page::new();
    let mut i: usize = 0;
    while i < mounts.len()
        invariant
            i <= mounts@.len(),
            all == mount_lines(mount::mounts_view(mounts@)),
            page@ == all.take(i as int),
        decreases mounts@.len() - i,
    {
        page.add(mount_row(&mounts[i]));
        proof {
            assert(all[i as int] == mount_line(mounts@[i as int]@));
            assert(page@ =~= all.take(i + 1));
        }
        i += 1;
    }
    proof {
        assert(all.take(all.len() as int) =~= all);
    }
    page
}

impl App {
    fn source_detail_rows(&self) -> (r: Page)
        ensures
            r@ == source_details(self@),
    {
        let n: usize = self.mounts.len();
        let at: usize = self.source_selection;
        let mut page = Page::new();
        if at < n {
            let m = &self.mounts[at];
            let kind = match m.rank {
                MountRank::CameraCard => "Camera card",
                MountRank::Removable => "Removable storage",
                MountRank::Other => "Other mount",
            };
            page.add(named_line(" Type   ", kind));
            page.add(named_line(" Path   ", m.path.text.as_str()));
        } else if at == n {
            page.add_raw("Enter an absolute path to a mounted camera or storage directory.");
        } else if at - n == 1 {
            page.add_raw("Rescan the system for mounted storage devices.");
        } else {
            page.add_raw("Exit ImageSync.");
        }
        page
    }

    /// The choice of a source.
    pub fn source_screen(&self) -> (r: Content)
        ensures
            r@ == source_content(self@),
    {
        let mut menu = mount_rows(&self.mounts);
        let ghost rows = menu@;
        menu.add_raw("");
        if self.manual_editing {
            let typed = text::with(text::copy_str(self.manual_path.as_str()), "_");
            menu.add(
                Line::pair(
                    Span::toned(text::copy_str("Enter a path…  "), Tone::Yellow),
                    Span::toned(typed, Tone::Yellow),
                ),
            );
        } else {
            menu.add_raw("Enter a path…");
        }
        menu.add_raw("Refresh sources");
        menu.add(tone_line("Quit", Tone::Red));
        let at: usize = self.source_selection;
        let selected: usize = if at < self.mounts.len() || at == usize::MAX {
            at
        } else {
            at + 1
        };
        let r = Content {
            heading: bold_line("Select a camera or storage device", Tone::Plain),
            menu_title: " Sources ",
            menu,
            selected,
            details_title: " Source details ",
            details: self.source_detail_rows(),
        };
        proof {
            assert(r@.menu =~= source_content(self@).menu);
        }
        r
    }
}

// ---------------------------------------------------------------------------
// Catalogues
// ---------------------------------------------------------------------------

/// What there is to know of a catalogue.
pub open spec fn catalogue_lines(e: Entry) -> Seq<LineView> {
    seq![
        in_bold(e.0, Tone::Plain),
        named(" Images   "@, e.1.images_root),
        in_tone("           "@ + e.1.images_template, Tone::DarkGray),
        named(" Videos   "@, e.1.videos_root),
        in_tone("           "@ + e.1.videos_template, Tone::DarkGray),
    ]
}

/// The catalogue with exactly a name.
pub open spec fn entry_named(es: Seq<Entry>, name: Option<Seq<char>>) -> Option<Entry> {
    match name {
        Some(n) => if exists|i: int| 0 <= i < es.len() && (#[trigger] es[i]).0 == n {
            Some(es[keys::entry_index(es, n)])
        } else {
            None
        },
        None => None,
    }
}

/// What the chosen row of the catalogues is about.
pub open spec fn catalogue_details(s: AppView) -> Seq<LineView> {
    let es = s.cfg.catalogues;
    let at = s.catalogue_selection;
    if at < es.len() {
        catalogue_lines(es[at as int])
    } else if at == es.len() {
        seq![
            raw("Create another destination catalogue."@),
            in_tone("You will choose image/video roots and folder templates."@, Tone::DarkGray),
        ]
    } else {
        match entry_named(es, s.selected_catalogue) {
            Some(e) => catalogue_lines(e),
            None => if es.len() > 0 {
                catalogue_lines(es[0])
            } else {
                seq![raw("Return to source selection."@)]
            },
        }
    }
}

/// The names of the catalogues, as rows.
pub open spec fn name_lines(es: Seq<Entry>) -> Seq<LineView> {
    es.map_values(|e: Entry| raw(e.0))
}

/// The choice of a catalogue.
pub open spec fn catalogue_content(s: AppView) -> ContentView {
    let n = s.cfg.catalogues.len();
    ContentView {
        heading: seq![
            style::strong("Choose a catalogue"@, Tone::Plain),
            style::toned(
                "    Source: "@ + text_or(s.chosen_label, "(none)"@),
                Tone::DarkGray,
            ),
        ],
        menu_title: " Catalogues "@,
        menu: name_lines(s.cfg.catalogues) + seq![
            in_tone("+ New catalogue…"@, Tone::Green),
            raw(""@),
            raw("Back"@),
        ],
        selected: if s.catalogue_selection == n + 1 {
            keys::row_down(s.catalogue_selection, n + 2) as int
        } else {
            s.catalogue_selection as int
        },
        details_title: " Catalogue details "@,
        details: catalogue_details(s),
    }
}

fn catalogue_rows(name: &str, c: &CatalogueConfig) -> (r: Page)
    ensures
        r@ == catalogue_lines((name@, c@)),
{
    let mut page = Page::new();
    page.add(bold_line(name, Tone::Plain));
    page.add(named_line(" Images   ", c.images_root.as_str()));
    let images = text::with(text::copy_str("           "), c.images_template.as_str());
    page.add(tone_line(images.as_str(), Tone::DarkGray));
    page.add(named_line(" Videos   ", c.videos_root.as_str()));
    let videos = text::with(text::copy_str("           "), c.videos_template.as_str());
    page.add(tone_line(videos.as_str(), Tone::DarkGray));
    page
}

fn find_entry(cfg: &AppConfig, name: &Option<String>) -> (r: Option<usize>)
    ensures
        match r {
            Some(i) => i < cfg@.catalogues.len() && entry_named(
                cfg@.catalogues,
                text::opt_text(*name),
            ) == Some(cfg@.catalogues[i as int]),
            None => entry_named(cfg@.catalogues, text::opt_text(*name)) is None,
        },
{
    match name {
        Some(n) => keys::index_of_name(cfg, n.as_str()),
        None => None,
    }
}

impl App {
    fn catalogue_rows_at(&self, i: usize) -> (r: Page)
        requires
            i < self@.cfg.catalogues.len(),
        ensures
            r@ == catalogue_lines(self@.cfg.catalogues[i as int]),
    {
        catalogue_rows(self.cfg.catalogues.name_at(i), self.cfg.catalogues.at(i))
    }

    fn catalogue_detail_rows(&self) -> (r: Page)
        ensures
            r@ == catalogue_details(self@),
    {
        let n: usize = self.cfg.catalogues.len();
        let at: usize = self.catalogue_selection;
        if at < n {
            return self.catalogue_rows_at(at);
        }
        let mut page = Page::new();
        if at == n {
            page.add_raw("Create another destination catalogue.");
            page.add(
                tone_line(
                    "You will choose image/video roots and folder templates.",
                    Tone::DarkGray,
                ),
            );
            return page;
        }
        match find_entry(&self.cfg, &self.selected_catalogue) {
            Some(i) => self.catalogue_rows_at(i),
            None => {
                if n > 0 {
                    return self.catalogue_rows_at(0);
                }
                page.add_raw("Return to source selection.");
                page
            },
        }
    }

    fn name_rows(&self) -> (r: Page)
        ensures
            r@ == name_lines(self@.cfg.catalogues),
    {
        let ghost all = name_lines(self@.cfg.catalogues);
        let n: usize = self.cfg.catalogues.len();
        let mut page = Page::new();
        let mut i: usize = 0;
        while i < n
            invariant
                i <= n,
                n == self@.cfg.catalogues.len(),
                all == name_lines(self@.cfg.catalogues),
                page@ == all.take(i as int),
            decreases n - i,
        {
            page.add_raw(self.cfg.catalogues.name_at(i));
            proof {
                assert(all[i as int] == raw(self@.cfg.catalogues[i as int].0));
                assert(page@ =~= all.take(i + 1));
            }
            i += 1;
        }
        proof {
            assert(all.take(all.len() as int) =~= all);
        }
        page
    }

    /// The choice of a catalogue.
    pub fn catalogue_screen(&self) -> (r: Content)
        ensures
            r@ == catalogue_content(self@),
    {
        let n: usize = self.cfg.catalogues.len();
        let mut menu = self.name_rows();
        menu.add(tone_line("+ New catalogue…", Tone::Green));
        menu.add_raw("");
        menu.add_raw("Back");
        let source = text::with(
            text::copy_str("    Source: "),
            str_or(&self.chosen_label, "(none)"),
        );
        let at: usize = self.catalogue_selection;
        let selected: usize = if at > n && at - n == 1 && at < usize::MAX {
            at + 1
        } else {
            at
        };
        let r = Content {
            heading: Line::pair(
                Span::strong(text::copy_str("Choose a catalogue"), Tone::Plain),
                Span::toned(source, Tone::DarkGray),
            ),
            menu_title: " Catalogues ",
            menu,
            selected,
            details_title: " Catalogue details ",
            details: self.catalogue_detail_rows(),
        };
        proof {
            assert(r@.menu =~= catalogue_content(self@).menu);
        }
        r
    }
}

// ---------------------------------------------------------------------------
// The form
// ---------------------------------------------------------------------------

/// A field of the form; the cursor stands in the chosen one.
pub open spec fn field_line(f: FormView, item: CatalogueCreateItem, label: Seq<char>) -> LineView {
    let value = f.field(item)->0;
    named(
        text::space_pad(label, 16),
        if f.item == item {
            value.insert(f.cursor, '_')
        } else {
            value
        },
    )
}

/// The rows of the form.
pub open spec fn form_menu(f: FormView) -> Seq<LineView> {
    seq![
        field_line(f, CatalogueCreateItem::Name, "Name"@),
        field_line(f, CatalogueCreateItem::ImagesRoot, "Images root"@),
        field_line(f, CatalogueCreateItem::VideosRoot, "Videos root"@),
        field_line(f, CatalogueCreateItem::ImagesTemplate, "Images folders"@),
        field_line(f, CatalogueCreateItem::VideosTemplate, "Videos folders"@),
        raw(""@),
        in_bold("Create catalogue"@, Tone::Green),
        raw("Back"@),
    ]
}

/// The form in which a catalogue is entered.
pub open spec fn form_content(s: AppView) -> ContentView {
    ContentView {
        heading: in_bold("Create a catalogue"@, Tone::Plain),
        menu_title: " Catalogue fields and actions "@,
        menu: form_menu(s.form),
        selected: if form::row_number(s.form.item) < 5 {
            form::row_number(s.form.item)
        } else {
            form::row_number(s.form.item) + 1
        },
        details_title: " Field help "@,
        details: seq![
            raw("Typing edits the selected field. Left/Right moves its text cursor."@),
            in_tone(
                "Folder tokens: {yyyy}, {mm}, {dd}, {month}, {HH}, {MM}, {SS}"@,
                Tone::DarkGray,
            ),
        ],
    }
}

fn with_cursor(value: &str, cursor: usize) -> (r: String)
    requires
        cursor <= value@.len(),
    ensures
        r@ == value@.insert(cursor as int, '_'),
{
    let mut chars = text::to_chars(value);
    chars.insert(cursor, '_');
    let r = text::from_chars(&chars, 0, chars.len());
    proof {
        assert(r@ =~= chars@);
    }
    r
}

impl App {
    fn field_row(&self, item: CatalogueCreateItem, label: &str, value: &str) -> (r: Line)
        requires
            self@.form.wf(),
            self@.form.field(item) == Some(value@),
        ensures
            r@ == field_line(self@.form, item, label@),
    {
        let shown = if self.form.item == item {
            with_cursor(value, self.form.cursor)
        } else {
            text::copy_str(value)
        };
        named_line(&text::space_padded(label, 16), shown.as_str())
    }

    fn form_rows(&self) -> (r: Page)
        requires
            self@.form.wf(),
        ensures
            r@ == form_menu(self@.form),
    {
        let mut menu = Page::new();
        menu.add(self.field_row(CatalogueCreateItem::Name, "Name", self.form.name.as_str()));
        menu.add(
            self.field_row(
                CatalogueCreateItem::ImagesRoot,
                "Images root",
                self.form.images_root.as_str(),
            ),
        );
        menu.add(
            self.field_row(
                CatalogueCreateItem::VideosRoot,
                "Videos root",
                self.form.videos_root.as_str(),
            ),
        );
        menu.add(
            self.field_row(
                CatalogueCreateItem::ImagesTemplate,
                "Images folders",
                self.form.images_template.as_str(),
            ),
        );
        menu.add(
            self.field_row(
                CatalogueCreateItem::VideosTemplate,
                "Videos folders",
                self.form.videos_template.as_str(),
            ),
        );
        menu.add_raw("");
        menu.add(bold_line("Create catalogue", Tone::Green));
        menu.add_raw("Back");
        menu
    }

    /// The form in which a catalogue is entered.
    pub fn form_screen(&self) -> (r: Content)
        requires
            self@.form.wf(),
        ensures
            r@ == form_content(self@),
    {
        let row: usize = self.form.item.index();
        let mut details = Page::new();
        details.add_raw("Typing edits the selected field. Left/Right moves its text cursor.");
        details.add(
            tone_line(
                "Folder tokens: {yyyy}, {mm}, {dd}, {month}, {HH}, {MM}, {SS}",
                Tone::DarkGray,
            ),
        );
        let r = Content {
            heading: bold_line("Create a catalogue", Tone::Plain),
            menu_title: " Catalogue fields and actions ",
            menu: self.form_rows(),
            selected: if row < 5 {
                row
            } else {
                row + 1
            },
            details_title: " Field help ",
            details,
        };
        proof {
            assert(r@.details =~= form_content(self@).details);
        }
        r
    }
}

// ---------------------------------------------------------------------------
// Saving and confirming
// ---------------------------------------------------------------------------

/// The question whether to save the RAW setting.
pub open spec fn save_content(s: AppView) -> ContentView {
    ContentView {
        heading: in_bold("Save this RAW setting?"@, Tone::Plain),
        menu_title: " Actions "@,
        menu: seq![
            in_bold("Save to config"@, Tone::Green),
            raw("Use this session only"@),
            raw(""@),
            raw("Back"@),
        ],
        selected: third_apart(s.save_action as int),
        details_title: " Setting details "@,
        details: seq![
            named(" Config path   "@, s.cfg_path),
            named(" RAW files     "@, labels::mode_label(s.cfg.filters.raw_mode)),
        ],
    }
}

/// A root and the folders below it.
pub open spec fn routing(name: Seq<char>, root: Seq<char>, folders: Seq<char>) -> LineView {
    in_tone(name + root + " / "@ + folders, Tone::DarkGray)
}

/// A catalogue without anything in it.
pub open spec fn no_catalogue() -> CatalogueView {
    CatalogueView {
        images_root: ""@,
        videos_root: ""@,
        images_template: ""@,
        videos_template: ""@,
    }
}

/// What an import is about to do.
pub open spec fn import_details(s: AppView) -> Seq<LineView> {
    let c = match entry_named(s.cfg.catalogues, s.selected_catalogue) {
        Some(e) => e.1,
        None => no_catalogue(),
    };
    let label = match s.chosen_label {
        Some(l) => l,
        None => if s.chosen_source is Some {
            "(source)"@
        } else {
            ""@
        },
    };
    seq![
        named(" Source      "@, label),
        in_tone(
            "             "@ + match s.chosen_source {
                Some(p) => p.text,
                None => ""@,
            },
            Tone::DarkGray,
        ),
        raw(""@),
        named(" Catalogue   "@, text_or(s.selected_catalogue, "(none)"@)),
        routing(" Images      "@, c.images_root, c.images_template),
        routing(" Videos      "@, c.videos_root, c.videos_template),
    ]
}

/// The confirmation of an import.
pub open spec fn confirm_content(s: AppView) -> ContentView {
    ContentView {
        heading: in_bold("Confirm import"@, Tone::Plain),
        menu_title: " Actions "@,
        menu: seq![
            in_bold("Scan & review"@, Tone::Green),
            seq![
                style::plain("RAW files    "@),
                style::toned(
                    "‹ "@ + labels::mode_label(s.cfg.filters.raw_mode) + " ›"@,
                    if s.confirm_action == 1 {
                        Tone::Black
                    } else {
                        Tone::Yellow
                    },
                ),
                style::toned("    ←/→ change"@, Tone::DarkGray),
            ],
            raw(""@),
            raw("Back"@),
        ],
        selected: third_apart(s.confirm_action as int),
        details_title: " Import details "@,
        details: import_details(s),
    }
}

fn routing_row(name: &str, root: &str, folders: &str) -> (r: Line)
    ensures
        r@ == routing(name@, root@, folders@),
{
    let shown = text::with(text::with(text::with(text::copy_str(name), root), " / "), folders);
    tone_line(shown.as_str(), Tone::DarkGray)
}

impl App {
    /// The question whether to save the RAW setting.
    pub fn save_screen(&self) -> (r: Content)
        requires
            self@.save_action <= 2,
        ensures
            r@ == save_content(self@),
    {
        let mut menu = Page::new();
        menu.add(bold_line("Save to config", Tone::Green));
        menu.add_raw("Use this session only");
        menu.add_raw("");
        menu.add_raw("Back");
        let mut details = Page::new();
        details.add(named_line(" Config path   ", self.cfg_path.as_str()));
        details.add(
            named_line(" RAW files     ", labels::raw_mode_label(self.cfg.filters.raw_mode)),
        );
        let r = Content {
            heading: bold_line("Save this RAW setting?", Tone::Plain),
            menu_title: " Actions ",
            menu,
            selected: skip_gap(self.save_action),
            details_title: " Setting details ",
            details,
        };
        proof {
            assert(r@.menu =~= save_content(self@).menu);
            assert(r@.details =~= save_content(self@).details);
        }
        r
    }

    fn routing_rows(&self) -> (r: (Line, Line))
        ensures
            ({
                let c = match entry_named(self@.cfg.catalogues, self@.selected_catalogue) {
                    Some(e) => e.1,
                    None => no_catalogue(),
                };
                &&& r.0@ == routing(" Images      "@, c.images_root, c.images_template)
                &&& r.1@ == routing(" Videos      "@, c.videos_root, c.videos_template)
            }),
    {
        match find_entry(&self.cfg, &self.selected_catalogue) {
            Some(i) => {
                let c = self.cfg.catalogues.at(i);
                (
                    routing_row(" Images      ", c.images_root.as_str(), c.images_template.as_str()),
                    routing_row(" Videos      ", c.videos_root.as_str(), c.videos_template.as_str()),
                )
            },
            None => (
                routing_row(" Images      ", "", ""),
                routing_row(" Videos      ", "", ""),
            ),
        }
    }

    fn import_detail_rows(&self) -> (r: Page)
        ensures
            r@ == import_details(self@),
    {
        let label = match &self.chosen_label {
            Some(l) => l.as_str(),
            None => if self.chosen_source.is_some() {
                "(source)"
            } else {
                ""
            },
        };
        let root = match &self.chosen_source {
            Some(p) => p.text.as_str(),
            None => "",
        };
        let path = text::with(text::copy_str("             "), root);
        let mut page = Page::new();
        page.add(named_line(" Source      ", label));
        page.add(tone_line(path.as_str(), Tone::DarkGray));
        page.add_raw("");
        page.add(named_line(" Catalogue   ", str_or(&self.selected_catalogue, "(none)")));
        let (images, videos) = self.routing_rows();
        page.add(images);
        page.add(videos);
        proof {
            assert(page@ =~= import_details(self@));
        }
        page
    }

    /// The confirmation of an import.
    pub fn confirm_screen(&self) -> (r: Content)
        requires
            self@.confirm_action <= 2,
        ensures
            r@ == confirm_content(self@),
    {
        let tone = if self.confirm_action == 1 {
            Tone::Black
        } else {
            Tone::Yellow
        };
        let mode = text::with(
            text::with(
                text::copy_str("‹ "),
                labels::raw_mode_label(self.cfg.filters.raw_mode),
            ),
            " ›",
        );
        let mut setting = Line::new();
        setting.add(Span::plain(text::copy_str("RAW files    ")));
        setting.add(Span::toned(mode, tone));
        setting.add(Span::toned(text::copy_str("    ←/→ change"), Tone::DarkGray));
        let mut menu = Page::new();
        menu.add(bold_line("Scan & review", Tone::Green));
        menu.add(setting);
        menu.add_raw("");
        menu.add_raw("Back");
        let r = Content {
            heading: bold_line("Confirm import", Tone::Plain),
            menu_title: " Actions ",
            menu,
            selected: skip_gap(self.confirm_action),
            details_title: " Import details ",
            details: self.import_detail_rows(),
        };
        proof {
            assert(r@.menu[1] =~= confirm_content(self@).menu[1]);
            assert(r@.menu =~= confirm_content(self@).menu);
        }
        r
    }
}

} // verus!
