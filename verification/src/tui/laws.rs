//! What holds of the frontend whatever is pressed and whatever comes back.

use vstd::prelude::*;
use crate::config;
use crate::config::AppConfigView;
use crate::engine::execute;
use crate::events::EventView;
use crate::mount::MountView;
use crate::path;
use crate::text;
use super::form;
use super::form::CatalogueCreateItem;
use super::keys;
use super::progress::{ScanEndView, SyncEndView};
use super::slots;
use super::slots::MAX_VISIBLE_SLOTS;
use super::state::{ActionView, AppView, Key, Screen};

verus! {

/// The chosen rows are rows of their menus.
pub open spec fn in_menus(s: AppView) -> bool {
    &&& s.source_selection <= s.mounts.len() + 2
    &&& s.catalogue_selection <= s.cfg.catalogues.len() + 1
}

proof fn lemma_menus_keep_wf(s: AppView, key: Key)
    requires
        s.wf(),
    ensures
        s.path_key(key).0.wf(),
        s.source_key(key).0.wf(),
        s.catalogue_key(key).0.wf(),
        s.form_key(key).0.wf(),
{
}

proof fn lemma_starts_keep_wf(s: AppView, dry_run: bool)
    requires
        s.wf(),
    ensures
        s.scan_started().0.wf(),
        s.sync_started(dry_run).0.wf(),
{
}

proof fn lemma_confirming_keeps_wf(s: AppView, key: Key)
    requires
        s.wf(),
    ensures
        s.confirm_key(key).0.wf(),
        s.save_key(key).0.wf(),
{
    lemma_starts_keep_wf(s, false);
    let settled = AppView {
        status: Some("using values for this session only"@),
        raw_mode_disk: s.cfg.filters.raw_mode,
        ..s
    };
    lemma_starts_keep_wf(settled, false);
}

proof fn lemma_runs_keep_wf(s: AppView, key: Key)
    requires
        s.wf(),
    ensures
        s.scan_key(key).0.wf(),
        s.review_key(key).0.wf(),
        s.sync_key(key).0.wf(),
        s.summary_key(key).0.wf(),
{
    lemma_starts_keep_wf(s, false);
    lemma_starts_keep_wf(s, true);
}

/// Keys keep the menus and the cursor of the form in range.
pub proof fn lemma_keys_keep_wf(s: AppView, key: Key, ctrl: bool)
    requires
        s.wf(),
    ensures
        s.key(key, ctrl).0.wf(),
{
    lemma_menus_keep_wf(s, key);
    lemma_confirming_keeps_wf(s, key);
    lemma_runs_keep_wf(s, key);
}

proof fn lemma_starts_stay_in_menus(s: AppView, dry_run: bool)
    requires
        in_menus(s),
    ensures
        in_menus(s.scan_started().0),
        in_menus(s.sync_started(dry_run).0),
{
}

proof fn lemma_menus_stay_in_menus(s: AppView, key: Key)
    requires
        in_menus(s),
    ensures
        in_menus(s.path_key(key).0),
        in_menus(s.source_key(key).0),
        in_menus(s.catalogue_key(key).0),
        in_menus(s.form_key(key).0),
{
}

proof fn lemma_confirming_stays_in_menus(s: AppView, key: Key)
    requires
        in_menus(s),
    ensures
        in_menus(s.confirm_key(key).0),
        in_menus(s.save_key(key).0),
{
    lemma_starts_stay_in_menus(s, false);
    let settled = AppView {
        status: Some("using values for this session only"@),
        raw_mode_disk: s.cfg.filters.raw_mode,
        ..s
    };
    lemma_starts_stay_in_menus(settled, false);
}

proof fn lemma_runs_stay_in_menus(s: AppView, key: Key)
    requires
        in_menus(s),
    ensures
        in_menus(s.scan_key(key).0),
        in_menus(s.review_key(key).0),
        in_menus(s.sync_key(key).0),
        in_menus(s.summary_key(key).0),
{
    lemma_starts_stay_in_menus(s, false);
    lemma_starts_stay_in_menus(s, true);
}

/// No key takes a menu or the cursor of the form out of its range.
pub proof fn law_keys_stay_in_range(s: AppView, key: Key, ctrl: bool)
    requires
        s.wf(),
        in_menus(s),
    ensures
        s.key(key, ctrl).0.wf(),
        in_menus(s.key(key, ctrl).0),
{
    lemma_keys_keep_wf(s, key, ctrl);
    lemma_menus_stay_in_menus(s, key);
    lemma_confirming_stays_in_menus(s, key);
    lemma_runs_stay_in_menus(s, key);
}

/// Neither an event, nor a result, nor an answer takes a menu or the cursor of the form out
/// of its range.
pub proof fn law_news_stay_in_range(
    s: AppView,
    e: EventView,
    scan: ScanEndView,
    sync: SyncEndView,
    mounts: Seq<MountView>,
    p: Seq<char>,
    is_dir: bool,
    saved: std::result::Result<(), Seq<char>>,
)
    requires
        s.wf(),
        in_menus(s),
        scan matches ScanEndView::Done(result) ==> execute::copy_bytes(result.plan.items)
            <= u64::MAX,
        mounts.len() <= usize::MAX,
    ensures
        s.scan_event(e).wf() && in_menus(s.scan_event(e)),
        s.sync_event(e).wf() && in_menus(s.sync_event(e)),
        s.scan_over(scan).0.wf() && in_menus(s.scan_over(scan).0),
        s.sync_over(sync).wf() && in_menus(s.sync_over(sync)),
        s.reset(mounts).wf() && in_menus(s.reset(mounts)),
        s.refreshed(mounts).wf() && in_menus(s.refreshed(mounts)),
        s.checked(p, is_dir).wf() && in_menus(s.checked(p, is_dir)),
        s.stored(saved).0.wf() && in_menus(s.stored(saved).0),
{
}

/// A catalogue that was saved is the one that the menu then stands on, and the form is
/// ready for another.
pub proof fn law_saved_catalogue_is_chosen(
    s: AppView,
    name: Seq<char>,
    c: config::CatalogueView,
)
    requires
        s.wf(),
        in_menus(s),
        config::ascending(s.cfg.catalogues),
        s.cfg.catalogues.len() < usize::MAX,
    ensures
        ({
            let candidate = AppConfigView {
                catalogues: config::stored(s.cfg.catalogues, name, c),
                ..s.cfg
            };
            let after = s.created(candidate, name, Ok(()));
            &&& after.wf()
            &&& in_menus(after)
            &&& after.screen == Screen::CatalogueSelect
            &&& after.form == form::blank_form()
            &&& after.catalogue_selection < after.cfg.catalogues.len()
            &&& after.cfg.catalogues[after.catalogue_selection as int] == (name, c)
        }),
{
    let es = s.cfg.catalogues;
    let after = config::stored(es, name, c);
    let k = config::rank(es, name);
    config::lemma_rank(es, name);
    config::law_stored_ascending(es, name, c);
    assert(after[k] == (name, c));
    keys::lemma_entry_index(after, name, k);
    let i = keys::entry_index(after, name);
    if i < k {
        assert(text::text_before(after[i].0, after[k].0));
        text::lemma_text_order_total(name, name);
    }
}

/// Ctrl-C and Ctrl-Q end the program on every screen and ask for nothing more.
pub proof fn law_ctrl_c_quits(s: AppView)
    ensures
        s.key(Key::Char('c'), true) == (s.quit(), ActionView::Stay),
        s.key(Key::Char('q'), true) == (s.quit(), ActionView::Stay),
{
}

/// However a source is chosen, the choice of a catalogue comes next, with none chosen yet.
pub proof fn law_source_leads_to_catalogues(s: AppView, key: Key, p: Seq<char>, is_dir: bool)
    requires
        s.screen == Screen::SourceSelect,
    ensures
        ({
            let after = s.key(key, false).0;
            after.screen == Screen::SourceSelect || (after.screen == Screen::CatalogueSelect
                && after.catalogue_selection == 0 && after.selected_catalogue is None
                && after.chosen_source is Some)
        }),
        ({
            let after = s.checked(p, is_dir);
            if is_dir {
                after.screen == Screen::CatalogueSelect && after.catalogue_selection == 0
                    && after.selected_catalogue is None && after.chosen_source == Some(
                    path::text_path(p),
                )
            } else {
                after.screen == Screen::SourceSelect && after.chosen_source == s.chosen_source
            }
        }),
{
}

/// Keys change nothing of the configuration but the RAW setting, and that only by the left
/// and right arrows at its row of the confirmation.
pub proof fn law_only_arrows_change_the_configuration(s: AppView, key: Key, ctrl: bool)
    ensures
        s.key(key, ctrl).0.cfg.catalogues == s.cfg.catalogues,
        s.key(key, ctrl).0.cfg != s.cfg ==> s.screen == Screen::Confirm && s.confirm_action == 1
            && (key == Key::Left || key == Key::Right),
{
}

/// A catalogue that could not be saved leaves the form and the configuration as they were.
pub proof fn law_unsaved_catalogue_stays_in_the_form(
    s: AppView,
    candidate: AppConfigView,
    name: Seq<char>,
    reason: Seq<char>,
)
    ensures
        ({
            let after = s.created(candidate, name, Err(reason));
            &&& after.cfg == s.cfg
            &&& after.form == s.form
            &&& after.screen == s.screen
            &&& after.status == Some(reason)
        }),
{
}

/// Leaving the form forgets what was typed into it and changes no catalogue.
pub proof fn law_leaving_the_form_discards_it(s: AppView)
    requires
        s.screen == Screen::CatalogueCreate,
    ensures
        s.key(Key::Esc, false).0.form == form::blank_form(),
        s.key(Key::Esc, false).0.screen == Screen::CatalogueSelect,
        s.key(Key::Esc, false).0.cfg == s.cfg,
        s.form.item == CatalogueCreateItem::Back ==> s.key(Key::Enter, false) == s.key(
            Key::Esc,
            false,
        ),
{
}

/// A scan starts only by Enter at the confirmation or the question behind it, on a chosen
/// source and catalogue, and never with a RAW setting that is still to be settled.
pub proof fn law_scan_needs_a_settled_choice(s: AppView, key: Key, ctrl: bool)
    requires
        s.key(key, ctrl).1 is StartScan,
    ensures
        key == Key::Enter,
        s.screen == Screen::Confirm || s.screen == Screen::SaveConfigPrompt,
        s.chosen_source is Some,
        s.selected_catalogue is Some,
        ({
            let after = s.key(key, ctrl).0;
            &&& after.screen == Screen::Scan
            &&& after.scan.running
            &&& after.raw_mode_disk == after.cfg.filters.raw_mode
            &&& after.plan_source is Some
            &&& Ok::<config::EngineConfigView, Seq<char>>(s.key(key, ctrl).1->StartScan_config)
                == s.run(s.selected_catalogue->0)
        }),
{
}

/// An import starts only by Enter at the preview, with the plan that was shown there, as a
/// dry run exactly where that row is chosen; its lanes are free.
pub proof fn law_import_executes_the_plan_shown(s: AppView, key: Key, ctrl: bool)
    requires
        s.key(key, ctrl).1 is StartSync,
    ensures
        key == Key::Enter,
        s.screen == Screen::Review,
        s.plan == Some(s.key(key, ctrl).1->StartSync_plan),
        s.key(key, ctrl).1->StartSync_dry_run <==> s.review_action == 1,
        ({
            let after = s.key(key, ctrl).0;
            &&& after.screen == Screen::Sync
            &&& after.sync.running
            &&& after.plan is None
            &&& after.sync.dry_run == s.key(key, ctrl).1->StartSync_dry_run
            &&& 1 <= after.sync.lanes.len() <= MAX_VISIBLE_SLOTS
            &&& slots::shown_once(after.sync.lanes)
        }),
{
}

proof fn lemma_cancel_scan(s: AppView, key: Key, ctrl: bool)
    ensures
        s.key(key, ctrl).1 is CancelScan ==> s.screen == Screen::Scan && s.scan.running
            && !s.scan.cancelling && s.key(key, ctrl).0.scan.cancelling,
{
}

proof fn lemma_cancel_sync(s: AppView, key: Key, ctrl: bool)
    ensures
        s.key(key, ctrl).1 is CancelSync ==> s.screen == Screen::Sync && s.sync.running
            && !s.sync.cancelling && s.key(key, ctrl).0.sync.cancelling,
{
}

/// What is being cancelled is not cancelled again.
pub proof fn law_cancelled_once(s: AppView, key: Key, ctrl: bool, again: Key, with: bool)
    ensures
        s.key(key, ctrl).1 is CancelScan ==> !(s.key(key, ctrl).0.key(again, with).1 is CancelScan),
        s.key(key, ctrl).1 is CancelSync ==> !(s.key(key, ctrl).0.key(again, with).1 is CancelSync),
        s.key(key, ctrl).1 is CancelScan ==> s.scan.running && s.screen == Screen::Scan,
        s.key(key, ctrl).1 is CancelSync ==> s.sync.running && s.screen == Screen::Sync,
{
    lemma_cancel_scan(s, key, ctrl);
    lemma_cancel_sync(s, key, ctrl);
    lemma_cancel_scan(s.key(key, ctrl).0, again, with);
    lemma_cancel_sync(s.key(key, ctrl).0, again, with);
}

/// Warnings and errors of an import are all there at its end, however long the log was.
pub proof fn law_diagnostics_are_never_lost(s: AppView, e: EventView, end: SyncEndView)
    ensures
        s.sync.diagnostics.is_prefix_of(s.sync_event(e).sync.diagnostics),
        s.sync.diagnostics.is_prefix_of(s.sync_over(end).sync.diagnostics),
        e is Warning || e is Error ==> s.sync_event(e).sync.diagnostics.len()
            == s.sync.diagnostics.len() + 1,
{
}

/// A scan that was cancelled leads back to the beginning, whatever it came to, unless it
/// broke down; a scan that failed stays on its screen with the reason.
pub proof fn law_cancelled_scan_starts_over(s: AppView, end: ScanEndView)
    ensures
        !s.scan_over(end).0.scan.running,
        s.scan.cancelling && !(end is Panicked) ==> s.scan_over(end).1 is StartOver,
        !s.scan.cancelling && !(end is Done) ==> s.scan_over(end).0.screen == s.screen
            && s.scan_over(end).0.scan.error is Some && s.scan_over(end).1 is Stay,
        s.scan_over(end).0.screen == Screen::Review && s.screen != Screen::Review ==> end is Done
            && !s.scan.cancelling,
{
}

/// Every import ends at the summary, which offers to quit first.
pub proof fn law_import_ends_at_the_summary(s: AppView, end: SyncEndView)
    ensures
        s.sync_over(end).screen == Screen::Summary,
        s.sync_over(end).summary_action == 1,
        !s.sync_over(end).sync.running,
        end is Done ==> s.sync_over(end).sync.summary == Some(end->Done_0),
        !(end is Done) ==> s.sync_over(end).sync.error is Some,
{
}

/// Nothing of an import is left when the next one begins; the configuration stays.
pub proof fn law_starting_over_forgets_the_import(s: AppView, mounts: Seq<MountView>)
    ensures
        ({
            let after = s.reset(mounts);
            &&& after.screen == Screen::SourceSelect
            &&& after.chosen_source is None
            &&& after.selected_catalogue is None
            &&& after.plan is None
            &&& after.plan_source is None
            &&& after.sync.log.len() == 0
            &&& after.sync.diagnostics.len() == 0
            &&& after.sync.summary is None
            &&& after.sync.error is None
            &&& after.scan.error is None
            &&& after.cfg == s.cfg
            &&& after.mounts == mounts
        }),
{
}

} // verus!
