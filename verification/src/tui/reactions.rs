//! How the keys answer what the screens show, and what becomes of the engine's news.

use vstd::prelude::*;
use crate::config;
use crate::config::{AppConfigView, RawMode};
use crate::engine::ScanResultView;
use crate::error::ErrorView;
use crate::events::{
    DetectedProfileView, EventView, FileIdView, FilePhase, OperationErrorKind, OutcomeView,
    PlanSummary, PlannedFileView, SyncSummary, WarningKind,
};
use crate::mount::MountView;
use crate::path::{self, NativeView};
use crate::plan;
use crate::text;
use super::form;
use super::form::CatalogueCreateItem;
use super::keys;
use super::labels;
use super::menus;
use super::menus::ContentView;
use super::panels;
use super::progress::{ScanEndView, SyncEndView};
use super::slots;
use super::slots::SlotView;
use super::state;
use super::state::{ActionView, AppView, Key, Screen};
use super::style::Tone;

verus! {

// ---------------------------------------------------------------------------
// Arrows
// ---------------------------------------------------------------------------

/// The row that stands out in the menu of a screen.
pub open spec fn row_of(s: AppView) -> usize {
    match s.screen {
        Screen::SourceSelect => s.source_selection,
        Screen::CatalogueSelect => s.catalogue_selection,
        Screen::Confirm => s.confirm_action,
        Screen::SaveConfigPrompt => s.save_action,
        Screen::Review => s.review_action,
        Screen::Summary => s.summary_action,
        _ => 0,
    }
}

/// The last row of the menu of a screen.
pub open spec fn last_row(s: AppView) -> nat {
    match s.screen {
        Screen::SourceSelect => s.mounts.len() + 2,
        Screen::CatalogueSelect => s.cfg.catalogues.len() + 1,
        Screen::Confirm => 2,
        Screen::SaveConfigPrompt => 2,
        Screen::Review => 2,
        Screen::Summary => 1,
        _ => 0,
    }
}

/// The screens that are menus, and no text is typed there.
pub open spec fn is_menu(s: AppView) -> bool {
    (s.screen == Screen::SourceSelect && !s.manual_editing) || s.screen == Screen::CatalogueSelect
        || s.screen == Screen::Confirm || s.screen == Screen::SaveConfigPrompt || s.screen
        == Screen::Review || s.screen == Screen::Summary
}

/// In every menu the arrow down goes to the next row, and stops at the last; the arrow up goes
/// back, and stops at the first. Nothing else changes, and nothing is asked for.
pub proof fn law_arrows_go_from_row_to_row(s: AppView)
    requires
        is_menu(s),
        row_of(s) <= last_row(s),
        last_row(s) < usize::MAX,
    ensures
        s.key(Key::Down, false).1 is Stay,
        s.key(Key::Up, false).1 is Stay,
        row_of(s) < last_row(s) ==> row_of(s.key(Key::Down, false).0) == row_of(s) + 1 && s.key(
            Key::Down,
            false,
        ).0.key(Key::Up, false).0 == s,
        row_of(s) == last_row(s) ==> s.key(Key::Down, false).0 == s,
        row_of(s) == 0 ==> s.key(Key::Up, false).0 == s,
        row_of(s) > 0 ==> row_of(s.key(Key::Up, false).0) == row_of(s) - 1 && s.key(
            Key::Up,
            false,
        ).0.key(Key::Down, false).0 == s,
{
}

/// In the form the arrows go from row to row as well, and stop at the first and the last. The
/// cursor stands at the end of the field that is reached.
pub proof fn law_arrows_go_through_the_form(s: AppView)
    requires
        s.screen == Screen::CatalogueCreate,
    ensures
        ({
            let below = s.key(Key::Down, false).0.form;
            let above = s.key(Key::Up, false).0.form;
            let row = form::row_number(s.form.item);
            &&& row < 6 ==> form::row_number(below.item) == row + 1
            &&& row == 6 ==> below.item == CatalogueCreateItem::Back
            &&& row > 0 ==> form::row_number(above.item) == row - 1
            &&& row == 0 ==> above.item == CatalogueCreateItem::Name
            &&& below.name == s.form.name && above.name == s.form.name
            &&& below.field(below.item) matches Some(t) ==> below.cursor == t.len()
            &&& above.field(above.item) matches Some(t) ==> above.cursor == t.len()
        }),
{
}

/// The preview is scrolled by ten lines, and never beyond its first or last line.
pub proof fn law_preview_scrolls_by_ten(s: AppView, at: usize)
    requires
        s.screen == Screen::Review,
        s.review_selected == Some(at),
        at < s.review_len() <= usize::MAX,
    ensures
        ({
            let on = s.key(Key::PageDown, false).0;
            let back = s.key(Key::PageUp, false).0;
            &&& on.review_selected matches Some(i) && i < s.review_len() && (i == at + 10 || (i
                == s.review_len() - 1 && i <= at + 10))
            &&& back.review_selected matches Some(i) && (i + 10 == at || (i == 0 && at < 10))
            &&& on == AppView { review_selected: on.review_selected, ..s }
            &&& back == AppView { review_selected: back.review_selected, ..s }
        }),
{
}

// ---------------------------------------------------------------------------
// Enter
// ---------------------------------------------------------------------------

/// What the chosen row of a menu says first.
pub open spec fn chosen_text(c: ContentView) -> Seq<char> {
    c.menu[c.selected][0].text
}

/// Enter at a source takes the volume whose row is chosen; the rows behind the volumes type a
/// path, look for volumes again, and quit, as they say.
pub proof fn law_enter_takes_the_source_shown(s: AppView)
    requires
        s.screen == Screen::SourceSelect,
        !s.manual_editing,
        s.source_selection <= s.mounts.len() + 2,
        s.mounts.len() + 3 < usize::MAX,
    ensures
        ({
            let c = menus::source_content(s);
            let (after, action) = s.key(Key::Enter, false);
            let at = s.source_selection as int;
            let n = s.mounts.len();
            &&& at < n ==> {
                &&& c.menu[c.selected] == menus::mount_line(s.mounts[at])
                &&& c.details[1][1].text == s.mounts[at].path.text
                &&& after.chosen_source == Some(s.mounts[at].path)
                &&& after.screen == Screen::CatalogueSelect
                &&& action is Stay
            }
            &&& at == n ==> {
                &&& chosen_text(c) == "Enter a path…"@
                &&& after.manual_editing
                &&& after.screen == Screen::SourceSelect
                &&& action is Stay
            }
            &&& at == n + 1 ==> {
                &&& chosen_text(c) == "Refresh sources"@
                &&& after == s
                &&& action is RefreshMounts
            }
            &&& at == n + 2 ==> {
                &&& chosen_text(c) == "Quit"@
                &&& after.should_quit
                &&& action is Stay
            }
            &&& at < n + 2 ==> after.should_quit == s.should_quit
        }),
{
    let c = menus::source_content(s);
    if s.source_selection < s.mounts.len() {
        assert(menus::mount_lines(s.mounts)[s.source_selection as int] == menus::mount_line(
            s.mounts[s.source_selection as int],
        ));
    }
}

/// Enter at a catalogue takes the catalogue whose name and roots are shown; the rows behind
/// them open the form and go back, as they say.
pub proof fn law_enter_takes_the_catalogue_shown(s: AppView)
    requires
        s.screen == Screen::CatalogueSelect,
        s.catalogue_selection <= s.cfg.catalogues.len() + 1,
        s.cfg.catalogues.len() + 2 < usize::MAX,
    ensures
        ({
            let c = menus::catalogue_content(s);
            let (after, action) = s.key(Key::Enter, false);
            let at = s.catalogue_selection as int;
            let n = s.cfg.catalogues.len();
            &&& action is Stay
            &&& at < n ==> {
                &&& after.selected_catalogue == Some(chosen_text(c))
                &&& chosen_text(c) == s.cfg.catalogues[at].0
                &&& c.details[1][1].text == s.cfg.catalogues[at].1.images_root
                &&& c.details[3][1].text == s.cfg.catalogues[at].1.videos_root
                &&& after.screen == Screen::Confirm
                &&& after.confirm_action == 0
            }
            &&& at == n ==> {
                &&& chosen_text(c) == "+ New catalogue…"@
                &&& after.screen == Screen::CatalogueCreate
                &&& after.form == form::blank_form()
            }
            &&& at == n + 1 ==> {
                &&& chosen_text(c) == "Back"@
                &&& after.screen == Screen::SourceSelect
            }
        }),
{
    if s.catalogue_selection < s.cfg.catalogues.len() {
        let at = s.catalogue_selection as int;
        assert(menus::name_lines(s.cfg.catalogues)[at] == menus::raw(s.cfg.catalogues[at].0));
    }
}

/// Enter at the confirmation scans, or goes back, as the chosen row says; a setting for raw
/// images that differs from that of the file is asked about first.
pub proof fn law_enter_confirms_what_is_shown(s: AppView)
    requires
        s.screen == Screen::Confirm,
        s.confirm_action <= 2,
    ensures
        ({
            let c = menus::confirm_content(s);
            let r = s.key(Key::Enter, false);
            &&& s.confirm_action == 0 ==> {
                &&& chosen_text(c) == "Scan & review"@
                &&& s.cfg.filters.raw_mode == s.raw_mode_disk ==> r == s.scan_started()
                &&& s.cfg.filters.raw_mode != s.raw_mode_disk ==> r.0.screen
                    == Screen::SaveConfigPrompt && r.0.save_action == 0 && r.1 is Stay
            }
            &&& s.confirm_action == 1 ==> chosen_text(c) == "RAW files    "@ && r == (
                s,
                ActionView::Stay,
            )
            &&& s.confirm_action == 2 ==> chosen_text(c) == "Back"@ && r.0.screen
                == Screen::CatalogueSelect && r.1 is Stay
        }),
        s.confirm_action == 1 ==> ({
            let right = s.key(Key::Right, false).0.cfg.filters;
            let left = s.key(Key::Left, false).0.cfg.filters;
            &&& s.cfg.filters.raw_mode == RawMode::All ==> right.raw_mode == RawMode::RawOnly
                && left.raw_mode == RawMode::NonRawOnly
            &&& s.cfg.filters.raw_mode == RawMode::RawOnly ==> right.raw_mode == RawMode::NonRawOnly
                && left.raw_mode == RawMode::All
            &&& s.cfg.filters.raw_mode == RawMode::NonRawOnly ==> right.raw_mode == RawMode::All
                && left.raw_mode == RawMode::RawOnly
            &&& right.include_videos == s.cfg.filters.include_videos && left.include_videos
                == s.cfg.filters.include_videos
            &&& right.include_sidecars == s.cfg.filters.include_sidecars && left.include_sidecars
                == s.cfg.filters.include_sidecars
        }),
{
}

/// Enter at the question whether to save does what the chosen row says. Whatever is chosen,
/// the scan that follows has the setting that is shown.
pub proof fn law_enter_saves_or_not_as_shown(s: AppView, reason: Seq<char>)
    requires
        s.screen == Screen::SaveConfigPrompt,
        s.save_action <= 2,
    ensures
        ({
            let c = menus::save_content(s);
            let (after, action) = s.key(Key::Enter, false);
            &&& c.details[0][1].text == s.cfg_path
            &&& s.save_action == 0 ==> chosen_text(c) == "Save to config"@ && after == s && action
                is SaveConfig
            &&& s.save_action == 1 ==> chosen_text(c) == "Use this session only"@ && !(action
                is SaveConfig) && after.raw_mode_disk == s.cfg.filters.raw_mode && after.cfg == s.cfg
            &&& s.save_action == 2 ==> chosen_text(c) == "Back"@ && after.screen == Screen::Confirm
                && action is Stay && after.raw_mode_disk == s.raw_mode_disk
        }),
        s.stored(Ok(())).0.raw_mode_disk == s.cfg.filters.raw_mode,
        s.stored(Ok(())).0.cfg == s.cfg,
        s.stored(Err(reason)).0.screen == s.screen,
        s.stored(Err(reason)).0.raw_mode_disk == s.raw_mode_disk,
        s.stored(Err(reason)).1 is Stay,
{
}

/// Enter at the preview imports, tries, or goes back, as the chosen row says.
pub proof fn law_enter_imports_as_shown(s: AppView)
    requires
        s.screen == Screen::Review,
        s.review_action <= 2,
        s.plan is Some,
    ensures
        ({
            let c = panels::review_content(s)->0;
            let r = s.key(Key::Enter, false);
            &&& s.review_action == 0 ==> r == s.sync_started(false) && chosen_text(c)
                == "Import "@ + text::decimal(plan::count_copies(s.plan->0.items)) + " files"@
            &&& s.review_action == 1 ==> r == s.sync_started(true) && chosen_text(c) == "Dry run"@
            &&& s.review_action == 2 ==> r == (s, ActionView::StartOver) && chosen_text(c)
                == "Back"@
        }),
{
}

/// Enter at the summary starts over or quits, as the chosen row says.
pub proof fn law_enter_ends_as_shown(s: AppView)
    requires
        s.screen == Screen::Summary,
        s.summary_action <= 1,
    ensures
        ({
            let c = panels::summary_content(s);
            let (after, action) = s.key(Key::Enter, false);
            &&& s.summary_action == 0 ==> chosen_text(c) == "Import another source"@ && after == s
                && action is StartOver
            &&& s.summary_action == 1 ==> chosen_text(c) == "Quit"@ && after.should_quit && action
                is Stay
        }),
{
}

/// Enter in the form creates a catalogue or goes back, as the chosen row says, and does nothing
/// at a field.
pub proof fn law_enter_in_the_form(s: AppView)
    requires
        s.screen == Screen::CatalogueCreate,
    ensures
        ({
            let c = menus::form_content(s);
            let (after, action) = s.key(Key::Enter, false);
            &&& s.form.item == CatalogueCreateItem::Create ==> chosen_text(c)
                == "Create catalogue"@ && after == s && action is CreateCatalogue
            &&& s.form.item == CatalogueCreateItem::Back ==> chosen_text(c) == "Back"@
                && after.screen == Screen::CatalogueSelect && action is Stay
            &&& s.form.field(s.form.item) is Some ==> after == s && action is Stay
        }),
{
}

/// The form shows every field next to its label, with the cursor in the chosen one.
pub proof fn law_form_shows_its_fields(s: AppView)
    requires
        s.form.wf(),
    ensures
        ({
            let f = s.form;
            let c = menus::form_content(s);
            &&& f.item != CatalogueCreateItem::Name ==> c.menu[0][1].text == f.name
            &&& f.item != CatalogueCreateItem::ImagesRoot ==> c.menu[1][1].text == f.images_root
            &&& f.item != CatalogueCreateItem::VideosRoot ==> c.menu[2][1].text == f.videos_root
            &&& f.item != CatalogueCreateItem::ImagesTemplate ==> c.menu[3][1].text
                == f.images_template
            &&& f.item != CatalogueCreateItem::VideosTemplate ==> c.menu[4][1].text
                == f.videos_template
            &&& f.field(f.item) matches Some(t) ==> c.menu[c.selected][1].text == t.take(f.cursor)
                + seq!['_'] + t.skip(f.cursor)
        }),
{
    let f = s.form;
    if f.field(f.item) is Some {
        let t = f.field(f.item)->0;
        assert(t.insert(f.cursor, '_') =~= t.take(f.cursor) + seq!['_'] + t.skip(f.cursor));
    }
}

/// The confirmation shows the source and the catalogue that the scan will have.
pub proof fn law_confirmation_shows_the_import(s: AppView, k: int)
    requires
        0 <= k < s.cfg.catalogues.len(),
        s.selected_catalogue == Some(s.cfg.catalogues[k].0),
        forall|j: int| 0 <= j < k ==> (#[trigger] s.cfg.catalogues[j]).0 != s.cfg.catalogues[k].0,
        s.chosen_source is Some,
    ensures
        ({
            let c = s.cfg.catalogues[k].1;
            let shown = menus::confirm_content(s).details;
            &&& shown[1][0].text == "             "@ + s.chosen_source->0.text
            &&& shown[3][1].text == s.cfg.catalogues[k].0
            &&& shown[4][0].text == " Images      "@ + c.images_root + " / "@ + c.images_template
            &&& shown[5][0].text == " Videos      "@ + c.videos_root + " / "@ + c.videos_template
        }),
{
    keys::lemma_entry_index(s.cfg.catalogues, s.cfg.catalogues[k].0, k);
}

// ---------------------------------------------------------------------------
// Typing, leaving and cancelling
// ---------------------------------------------------------------------------

/// A path is typed at its end; Enter asks about it without the white space around it, and Esc
/// leaves it.
pub proof fn law_paths_are_typed_at_the_end(s: AppView, c: char)
    requires
        s.screen == Screen::SourceSelect,
        s.manual_editing,
    ensures
        s.key(Key::Char(c), false).0.manual_path == s.manual_path.push(c),
        s.key(Key::Char(c), false).0.key(Key::Backspace, false).0 == s,
        s.manual_path.len() == 0 ==> s.key(Key::Backspace, false).0 == s,
        text::trimmed(s.manual_path).len() > 0 ==> s.key(Key::Enter, false) == (
            s,
            ActionView::CheckSource { path: text::trimmed(s.manual_path) },
        ),
        text::trimmed(s.manual_path).len() == 0 ==> s.key(Key::Enter, false).1 is Stay && s.key(
            Key::Enter,
            false,
        ).0.status is Some,
        !s.key(Key::Esc, false).0.manual_editing,
        s.key(Key::Esc, false).0.manual_path == s.manual_path,
        !s.should_quit ==> !s.key(Key::Char(c), false).0.should_quit && !s.key(
            Key::Esc,
            false,
        ).0.should_quit,
{
    assert(s.manual_path.push(c).drop_last() =~= s.manual_path);
}

/// What is typed in the form goes into the chosen field, and the arrows to the sides move its
/// cursor.
pub proof fn law_forms_are_typed_at_the_cursor(s: AppView, c: char, t: Seq<char>)
    requires
        s.screen == Screen::CatalogueCreate,
        s.form.wf(),
        s.form.field(s.form.item) == Some(t),
        s.form.cursor < usize::MAX,
    ensures
        s.key(Key::Char(c), false).0.form.field(s.form.item) == Some(
            t.take(s.form.cursor) + seq![c] + t.skip(s.form.cursor),
        ),
        s.key(Key::Char(c), false).0.key(Key::Backspace, false).0.form.field(s.form.item) == Some(
            t,
        ),
        s.form.cursor < t.len() ==> s.key(Key::Delete, false).0.form.field(s.form.item) == Some(
            t.take(s.form.cursor) + t.skip(s.form.cursor + 1),
        ),
        s.form.cursor < t.len() ==> s.key(Key::Right, false).0.form.cursor == s.form.cursor + 1,
        s.form.cursor > 0 ==> s.key(Key::Left, false).0.form.cursor == s.form.cursor - 1,
{
    form::law_editing_happens_at_the_cursor(s.form, c, t);
    form::law_backspace_undoes_typing(s.form, c);
}

/// Esc goes back one screen, or quits at the first and the last; it changes nothing of the
/// configuration and saves nothing.
pub proof fn law_esc_goes_back(s: AppView)
    ensures
        ({
            let (after, action) = s.key(Key::Esc, false);
            &&& s.screen == Screen::SourceSelect && !s.manual_editing ==> after.should_quit
            &&& s.screen == Screen::CatalogueSelect ==> after.screen == Screen::SourceSelect
            &&& s.screen == Screen::CatalogueCreate ==> after.screen == Screen::CatalogueSelect
            &&& s.screen == Screen::Confirm ==> after.screen == Screen::CatalogueSelect
            &&& s.screen == Screen::SaveConfigPrompt ==> after.screen == Screen::Confirm
            &&& s.screen == Screen::Review ==> after == s && action is StartOver
            &&& s.screen == Screen::Summary ==> after.should_quit
            &&& s.screen == Screen::Scan && s.scan.error is Some ==> after == s && action
                is StartOver
            &&& s.screen == Screen::Scan && s.scan.error is None && s.scan.running
                && !s.scan.cancelling ==> after.scan.cancelling && action is CancelScan
            &&& s.screen == Screen::Sync && s.sync.running && !s.sync.cancelling
                ==> after.sync.cancelling && action is CancelSync
            &&& after.cfg == s.cfg
            &&& !(action is SaveConfig) && !(action is StartScan) && !(action is StartSync)
            &&& after.should_quit && !s.should_quit ==> s.screen == Screen::SourceSelect || s.screen
                == Screen::Summary
        }),
{
}

// ---------------------------------------------------------------------------
// Starting
// ---------------------------------------------------------------------------

/// A source that was chosen is the one that is scanned, whole, under its own name.
pub proof fn law_chosen_sources_are_scanned(s: AppView, name: Seq<char>)
    requires
        s.chosen_source is Some,
        s.selected_catalogue == Some(name),
        config::run_fault(s.cfg.catalogues, text::trimmed(name)) is None,
    ensures
        ({
            let (after, action) = s.scan_started();
            &&& after.plan_source matches Some(source) && source.root == s.chosen_source->0
                && source.id == s.chosen_source->0.text && source.scan_subdirs.len() == 0 && (
            s.chosen_label matches Some(label) ==> source.display_name == label)
            &&& after.screen == Screen::Scan
            &&& after.scan.running && !after.scan.cancelling && after.scan.error is None
            &&& after.scan.files_total == 0 && after.scan.meta_done == 0 && after.scan.meta_total
                == 0
            &&& action is StartScan
        }),
{
}

/// Nothing is started without a catalogue or with one that is refused; the reason is shown at
/// the choice of a catalogue.
pub proof fn law_nothing_starts_without_a_good_catalogue(s: AppView, dry_run: bool)
    ensures
        s.chosen_source is Some && s.selected_catalogue is None ==> s.scan_started() == (
            AppView {
                status: Some("no catalogue selected"@),
                screen: Screen::CatalogueSelect,
                ..s
            },
            ActionView::Stay,
        ),
        s.chosen_source is Some && (s.selected_catalogue matches Some(name) && config::run_fault(
            s.cfg.catalogues,
            text::trimmed(name),
        ) is Some) ==> s.scan_started() == (
            AppView {
                status: Some(
                    config::run_fault(
                        s.cfg.catalogues,
                        text::trimmed(s.selected_catalogue->0),
                    )->0.message(),
                ),
                screen: Screen::CatalogueSelect,
                ..s
            },
            ActionView::Stay,
        ),
        s.chosen_source is None ==> s.scan_started() == (s, ActionView::Stay),
        s.selected_catalogue is None || s.plan is None || s.plan_source is None || config::run_fault(
            s.cfg.catalogues,
            text::trimmed(s.selected_catalogue->0),
        ) is Some ==> !(s.sync_started(dry_run).1 is StartSync),
        s.selected_catalogue is Some && s.plan is Some && s.plan_source is Some && config::run_fault(
            s.cfg.catalogues,
            text::trimmed(s.selected_catalogue->0),
        ) is Some ==> s.sync_started(dry_run).0.plan == s.plan && s.sync_started(dry_run).0.screen
            == Screen::CatalogueSelect,
{
}

/// An import that is started counts the copies of its plan, shows a free lane for every worker,
/// up to eight, and has nothing to tell yet.
pub proof fn law_started_imports_are_blank(s: AppView, dry_run: bool, i: int)
    requires
        s.sync_started(dry_run).1 is StartSync,
        plan::count_copies(s.plan->0.items) <= u64::MAX,
    ensures
        ({
            let (after, action) = s.sync_started(dry_run);
            let workers = s.cfg.performance.copy_workers;
            &&& action->StartSync_plan == s.plan->0
            &&& action->StartSync_dry_run == dry_run
            &&& after.sync.dry_run == dry_run
            &&& after.sync.running && !after.sync.cancelling
            &&& after.sync.copy_total == plan::count_copies(s.plan->0.items)
            &&& workers == 0 ==> after.sync.lanes.len() == 1
            &&& 1 <= workers <= 8 ==> after.sync.lanes.len() == workers
            &&& workers > 8 ==> after.sync.lanes.len() == 8
            &&& 0 <= i < after.sync.lanes.len() ==> after.sync.lanes[i] is None
            &&& after.sync.log.len() == 0 && after.sync.diagnostics.len() == 0
            &&& after.sync.summary is None && after.sync.error is None
            &&& after.sync.progress.total == 0 && after.sync.progress.copied == 0
            &&& after.sync.progress.skipped == 0 && after.sync.progress.failed == 0
            &&& !after.sync.progress.cancelled
            &&& after.plan is None && after.plan_source == s.plan_source
        }),
{
}

/// A source that was chosen goes by the last name of its path, or by the whole path where that
/// has no name.
pub proof fn law_chosen_sources_have_a_label(s: AppView, p: NativeView)
    ensures
        ({
            let after = s.with_source(p);
            &&& after.chosen_source == Some(p)
            &&& path::file_name(p.text) is Some ==> after.chosen_label
                == path::file_name(p.text)
            &&& path::file_name(p.text) is None ==> after.chosen_label == Some(p.text)
            &&& after.screen == Screen::CatalogueSelect && after.catalogue_selection == 0
            &&& after.selected_catalogue is None && !after.manual_editing && after.status is None
            &&& after.cfg == s.cfg && after.mounts == s.mounts && after.should_quit
                == s.should_quit
        }),
{
}

// ---------------------------------------------------------------------------
// News
// ---------------------------------------------------------------------------

/// News of the scan are shown where they belong: the numbers of files and of metadata, the
/// camera, warnings and errors. Nothing but the news changes.
pub proof fn law_news_of_the_scan_are_shown(
    s: AppView,
    source: Seq<char>,
    files: u64,
    done: u64,
    total: u64,
    profile: DetectedProfileView,
    kind: WarningKind,
    fault: OperationErrorKind,
    message: Seq<char>,
    file: Option<FileIdView>,
)
    ensures
        ({
            let after = s.scan_event(EventView::ScanComplete { source, files });
            after.scan.files_total == files && after.scan.status == text::decimal(files as nat)
                + " files enumerated"@ && after.scan.meta_done == s.scan.meta_done && after.sync
                == s.sync
        }),
        ({
            let after = s.scan_event(EventView::MetadataProgress { done, total });
            after.scan.meta_done == done && after.scan.meta_total == total
                && after.scan.files_total == s.scan.files_total && after.scan.status
                == s.scan.status
        }),
        s.scan_event(EventView::ProfileDetected { profile }).detected_profile_name == Some(
            profile.display_name,
        ),
        s.scan_event(EventView::Warning { kind, message, file }).status == Some(
            "warn: "@ + message,
        ),
        s.scan_event(EventView::Error { kind: fault, message, file }).status == Some(
            "error: "@ + message,
        ),
{
}

/// News of the import are shown where they belong: a file that is started, copied and finished
/// has a lane meanwhile, its end is logged, and the counts are those that were reported.
pub proof fn law_news_of_the_import_are_shown(
    s: AppView,
    file: PlannedFileView,
    id: FileIdView,
    phase: FilePhase,
    bytes_done: u64,
    bytes_total: u64,
    outcome: OutcomeView,
    summary: SyncSummary,
    k: int,
)
    requires
        0 <= k < s.sync.lanes.len(),
        forall|i: int| 0 <= i < k ==> (#[trigger] s.sync.lanes[i]) is Some && !slots::shows(
            s.sync.lanes[i],
            file.source_rel_path,
        ),
        s.sync.lanes[k] is None,
        forall|i: int|
            0 <= i < s.sync.lanes.len() ==> !slots::shows(
                #[trigger] s.sync.lanes[i],
                file.source_rel_path,
            ),
        id.rel_path == file.source_rel_path,
    ensures
        ({
            let one = s.sync_event(EventView::FileStarted { file });
            let two = one.sync_event(EventView::FileProgress { file: id, bytes_done, bytes_total });
            let three = two.sync_event(EventView::FilePhaseChanged { file: id, phase });
            let four = three.sync_event(EventView::FileFinished { file, outcome });
            &&& one.sync.lanes[k] == Some(
                SlotView {
                    rel_path: file.source_rel_path,
                    bytes_done: 0,
                    bytes_total: file.source_size,
                    phase: Some(FilePhase::Copying),
                },
            )
            &&& two.sync.lanes[k] == Some(
                SlotView {
                    rel_path: file.source_rel_path,
                    bytes_done,
                    bytes_total,
                    phase: Some(FilePhase::Copying),
                },
            )
            &&& three.sync.lanes[k] == Some(
                SlotView {
                    rel_path: file.source_rel_path,
                    bytes_done,
                    bytes_total,
                    phase: Some(phase),
                },
            )
            &&& four.sync.lanes == s.sync.lanes
            &&& one.sync.log == s.sync.log && three.sync.log == s.sync.log
            &&& four.sync.log == labels::logged(s.sync.log, four.sync.log.last())
            &&& four.sync.progress == s.sync.progress
        }),
        s.sync_event(EventView::ExecutionProgress { summary }).sync.progress == summary,
        s.sync_event(EventView::ExecutionFinished { summary }).sync.progress == summary,
        s.sync_event(EventView::ExecutionProgress { summary }).sync.lanes == s.sync.lanes,
{
    let rel_path = file.source_rel_path;
    let lanes = s.sync.lanes;
    slots::law_started_files_take_a_lane(lanes, rel_path, file.source_size, k);
    let one = s.sync_event(EventView::FileStarted { file });
    let two = one.sync_event(EventView::FileProgress { file: id, bytes_done, bytes_total });
    let three = two.sync_event(EventView::FilePhaseChanged { file: id, phase });
    let four = three.sync_event(EventView::FileFinished { file, outcome });
    slots::lemma_lane_of_is(one.sync.lanes, rel_path, k);
    slots::lemma_lane_of_is(two.sync.lanes, rel_path, k);
    slots::lemma_lane_of_is(three.sync.lanes, rel_path, k);
    assert(four.sync.lanes =~= lanes);
    labels::law_log_is_bounded(s.sync.log, four.sync.log.last());
}

/// A finished file is logged by its path behind what became of it, a file that was left out or
/// failed also with the reason.
pub proof fn law_ends_are_logged(s: AppView, file: PlannedFileView, bytes: u64, why: Seq<char>)
    ensures
        s.sync_event(
            EventView::FileFinished { file, outcome: OutcomeView::Copied { bytes } },
        ).sync.log.last() == " OK   "@ + file.source_rel_path,
        s.sync_event(
            EventView::FileFinished { file, outcome: OutcomeView::Skipped { reason: why } },
        ).sync.log.last() == " SKIP "@ + file.source_rel_path + " ("@ + why + ")"@,
        s.sync_event(
            EventView::FileFinished { file, outcome: OutcomeView::Failed { error: why } },
        ).sync.log.last() == " FAIL "@ + file.source_rel_path + " ("@ + why + ")"@,
{
}

/// A warning or an error is kept for the summary, logged and shown, with its message and the
/// file that it is about.
pub proof fn law_diagnostics_are_told_in_full(
    s: AppView,
    kind: WarningKind,
    fault: OperationErrorKind,
    message: Seq<char>,
    f: FileIdView,
)
    ensures
        ({
            let after = s.sync_event(EventView::Warning { kind, message, file: Some(f) });
            let line = " WARN  "@ + message + (" ("@ + f.rel_path + ")"@);
            &&& after.sync.diagnostics == s.sync.diagnostics.push(line)
            &&& after.sync.log.last() == line
            &&& after.status == Some("warn: "@ + message)
        }),
        ({
            let after = s.sync_event(EventView::Error { kind: fault, message, file: Some(f) });
            let line = " ERROR "@ + message + (" ("@ + f.rel_path + ")"@);
            &&& after.sync.diagnostics == s.sync.diagnostics.push(line)
            &&& after.sync.log.last() == line
            &&& after.status == Some("error: "@ + message)
        }),
{
}

/// A scan that is done brings its plan and its camera to the preview; a failed one shows why.
pub proof fn law_scan_results_are_taken_over(
    s: AppView,
    result: ScanResultView,
    e: ErrorView,
)
    requires
        !s.scan.cancelling,
    ensures
        ({
            let (after, action) = s.scan_over(ScanEndView::Done(result));
            &&& after.plan == Some(result.plan)
            &&& after.detected_profile_name == Some(result.profile.display_name)
            &&& after.screen == Screen::Review
            &&& after.review_action == 0 && after.review_selected == Some(0usize)
            &&& !after.scan.running
            &&& action is Stay
        }),
        s.scan_over(ScanEndView::Failed(e)).0.scan.error == Some(e.message()),
        s.scan_over(ScanEndView::Failed(e)).0.plan == s.plan,
{
}

/// What an import came to is what the summary shows: its numbers, or why it failed.
pub proof fn law_summaries_show_the_end(
    s: AppView,
    v: SyncSummary,
    e: ErrorView,
)
    requires
        s.sync.error is None,
        !s.sync.dry_run,
    ensures
        ({
            let after = s.sync_over(SyncEndView::Done(v));
            let c = panels::summary_content(after);
            &&& v.cancelled ==> c.heading[0].text == "Import cancelled"@
            &&& !v.cancelled ==> c.heading[0].text == "Import complete"@
            &&& c.details[0][1].text == text::decimal((v.copied + v.skipped + v.failed) as nat)
                + "/"@ + text::decimal(v.total as nat)
            &&& c.details[1][0].text == " Copied      "@ && c.details[1][1].text == text::decimal(
                v.copied as nat,
            )
            &&& c.details[2][0].text == " Skipped     "@ && c.details[2][1].text == text::decimal(
                v.skipped as nat,
            )
            &&& c.details[3][0].text == " Failed      "@ && c.details[3][1].text == text::decimal(
                v.failed as nat,
            )
        }),
        ({
            let after = s.sync_over(SyncEndView::Failed(e));
            &&& after.sync.error == Some("sync failed: "@ + e.message())
            &&& panels::summary_content(after).heading[0].text == "Import did not complete: "@ + (
            "sync failed: "@ + e.message())
        }),
{
}

/// While an import runs, its gauge shows how many of its copies are done, and every lane that
/// is in view shows its file with its share.
pub proof fn law_gauges_show_the_import(s: AppView, height: u16, i: int, slot: SlotView)
    requires
        0 <= i < panels::visible_lanes(s.sync.lanes.len(), height),
        i < s.sync.lanes.len(),
        s.sync.lanes[i] == Some(slot),
        s.sync.progress.copied + s.sync.progress.failed <= u64::MAX,
    ensures
        ({
            let c = panels::sync_content(s, height);
            &&& s.sync.copy_total > 0 ==> c.total.done == s.sync.progress.copied
                + s.sync.progress.failed && c.total.total == s.sync.copy_total
            &&& slot.bytes_total > 0 ==> c.lanes[i].done == slot.bytes_done && c.lanes[i].total
                == slot.bytes_total
            &&& slot.rel_path.is_prefix_of(c.lanes[i].label)
        }),
{
    let label = panels::lane_gauge(s.sync.lanes, i).label;
    assert(label.take(slot.rel_path.len() as int) =~= slot.rel_path);
}

// ---------------------------------------------------------------------------
// Opening and answers
// ---------------------------------------------------------------------------

/// The frontend opens at the choice of a source, with the setting for raw images that the
/// configuration file has, and with nothing chosen.
pub proof fn law_frontend_opens_at_the_sources(
    cfg: AppConfigView,
    cfg_path: Seq<char>,
    mounts: Seq<MountView>,
)
    ensures
        ({
            let s = state::opened(cfg, cfg_path, mounts);
            &&& s.screen == Screen::SourceSelect && s.source_selection == 0 && !s.should_quit
            &&& s.cfg == cfg && s.cfg_path == cfg_path && s.mounts == mounts
            &&& s.raw_mode_disk == cfg.filters.raw_mode
            &&& s.chosen_source is None && s.selected_catalogue is None && s.plan is None
            &&& s.status is None && s.manual_path.len() == 0 && !s.manual_editing
            &&& !s.scan.running && !s.sync.running
        }),
{
}

/// Volumes that were looked for again replace those that were shown, and the row that asked for
/// it stays the chosen one; starting over goes back to the first row. A typed path that is no
/// directory is told, and stays as it was typed.
pub proof fn law_answers_are_taken_over(
    s: AppView,
    mounts: Seq<MountView>,
    p: Seq<char>,
)
    requires
        mounts.len() + 1 < usize::MAX,
    ensures
        s.refreshed(mounts).mounts == mounts,
        s.refreshed(mounts).source_selection == mounts.len() + 1,
        s.refreshed(mounts).screen == s.screen,
        s.reset(mounts).source_selection == 0,
        s.reset(mounts).scan.running == s.scan.running,
        s.reset(mounts).sync.running == s.sync.running,
        s.checked(p, false) == (AppView { status: Some("not a directory: "@ + p), ..s }),
{
}

/// The beginning of an import sets its counts to nothing out of all, and the numbers of a plan
/// are told in order.
pub proof fn law_counts_begin_at_nothing(
    s: AppView,
    total_files: u64,
    total_bytes: u64,
    dry_run: bool,
    summary: PlanSummary,
)
    ensures
        ({
            let after = s.sync_event(
                EventView::ExecutionStarted { total_files, total_bytes, dry_run },
            ).sync;
            &&& after.progress.total == total_files && after.progress.copied == 0
            &&& after.progress.skipped == 0 && after.progress.failed == 0
            &&& !after.progress.cancelled && after.lanes == s.sync.lanes
        }),
        (text::decimal(summary.copies as nat) + " copies, "@ + text::decimal(summary.skips as nat)
            + " skips, "@ + text::decimal(summary.errors as nat) + " errors"@).is_suffix_of(
            s.scan_event(EventView::PlanReady { summary }).scan.status,
        ),
{
    let numbers = text::decimal(summary.copies as nat) + " copies, "@ + text::decimal(
        summary.skips as nat,
    ) + " skips, "@ + text::decimal(summary.errors as nat) + " errors"@;
    let line = s.scan_event(EventView::PlanReady { summary }).scan.status;
    assert(line.skip(line.len() - numbers.len()) =~= numbers);
}

/// The header goes on from stage to stage in the order of an import, never back.
pub proof fn law_header_follows_the_import()
    ensures
        menus::stage_of(Screen::SourceSelect) < menus::stage_of(Screen::CatalogueSelect),
        menus::stage_of(Screen::CatalogueCreate) == menus::stage_of(Screen::CatalogueSelect),
        menus::stage_of(Screen::CatalogueSelect) < menus::stage_of(Screen::Confirm),
        menus::stage_of(Screen::SaveConfigPrompt) == menus::stage_of(Screen::Confirm),
        menus::stage_of(Screen::Confirm) < menus::stage_of(Screen::Scan),
        menus::stage_of(Screen::Review) == menus::stage_of(Screen::Scan),
        menus::stage_of(Screen::Review) < menus::stage_of(Screen::Sync),
        menus::stage_of(Screen::Summary) == menus::stage_of(Screen::Sync),
{
}

/// The stage that stands out in the header is that of the screen, and no other.
pub proof fn law_header_marks_the_stage(screen: Screen, i: int)
    requires
        0 <= i <= 4,
    ensures
        menus::header_line(menus::stage_of(screen))[1 + 2 * i].underlined <==> i
            == menus::stage_of(screen),
        menus::header_line(i)[1].text == "SOURCE"@,
        menus::header_line(i)[3].text == "CATALOGUE"@,
        menus::header_line(i)[5].text == "CONFIRM"@,
        menus::header_line(i)[7].text == "REVIEW"@,
        menus::header_line(i)[9].text == "IMPORT"@,
{
}

/// The log shows its last lines, as many as there is room for, in order; failures and errors in
/// red, warnings in yellow.
pub proof fn law_log_shows_its_end(log: Seq<Seq<char>>, height: u16, i: int)
    requires
        height > 2,
        0 <= i < panels::log_lines(log, height).len(),
    ensures
        ({
            let lines = panels::log_lines(log, height);
            &&& log.len() <= height - 2 ==> lines.len() == log.len()
            &&& log.len() > height - 2 ==> lines.len() == height - 2
            &&& lines[i][0].text == log[log.len() - lines.len() + i]
            &&& text::holds(lines[i][0].text, "FAIL"@) || text::holds(lines[i][0].text, "ERROR"@)
                <==> lines[i][0].tone == Tone::Red
            &&& lines[i][0].tone == Tone::Yellow ==> text::holds(lines[i][0].text, "WARN"@)
            &&& text::holds(lines[i][0].text, "WARN"@) ==> lines[i][0].tone == Tone::Red
                || lines[i][0].tone == Tone::Yellow
            &&& lines[i][0].tone == Tone::DarkGray ==> text::holds(lines[i][0].text, "SKIP"@)
        }),
{
}

/// What the gauge of an import says begins with the copies that are done out of all.
pub proof fn law_gauge_tells_the_counts(s: AppView, height: u16)
    ensures
        ({
            let p = s.sync.progress;
            (text::decimal((p.copied + p.failed) as nat) + "/"@ + text::decimal(
                s.sync.copy_total as nat,
            ) + " imported · "@ + text::decimal(p.copied as nat) + " copied · "@ + text::decimal(
                p.failed as nat,
            ) + " failed · "@ + text::decimal(p.skipped as nat)).is_prefix_of(
                panels::total_label(s, height),
            )
        }),
{
    let p = s.sync.progress;
    let begin = text::decimal((p.copied + p.failed) as nat) + "/"@ + text::decimal(
        s.sync.copy_total as nat,
    ) + " imported · "@ + text::decimal(p.copied as nat) + " copied · "@ + text::decimal(
        p.failed as nat,
    ) + " failed · "@ + text::decimal(p.skipped as nat);
    let label = panels::total_label(s, height);
    assert(label.take(begin.len() as int) =~= begin);
}

} // verus!
