//! What the keys do on each screen.

use vstd::prelude::*;
use crate::config;
use crate::config::{AppConfig, AppConfigView, Entry, FiltersConfig, RawMode};
use crate::error::Result;
use crate::mount;
use crate::mount::{DetectedMount, MountView};
use crate::path::{self, NativePath};
use crate::roots::RootState;
use crate::text;
use super::form;
use super::form::{CatalogueCreateItem, CatalogueForm};
use super::labels;
use super::laws;
use super::review;
use super::state::{Action, ActionView, App, AppView, Key, Reaction, Screen};

verus! {

// ---------------------------------------------------------------------------
// Menus
// ---------------------------------------------------------------------------

/// One row up, unless that is the first.
pub open spec fn row_up(n: usize) -> usize {
    if n > 0 {
        (n - 1) as usize
    } else {
        0
    }
}

/// One row down, unless that is the last.
pub open spec fn row_down(n: usize, last: nat) -> usize {
    if n < last && n < usize::MAX {
        (n + 1) as usize
    } else if n > last {
        last as usize
    } else {
        n
    }
}

fn up(n: usize) -> (r: usize)
    ensures
        r == row_up(n),
{
    if n > 0 {
        n - 1
    } else {
        0
    }
}

/// One row down in a menu of `len` rows and `more` behind them.
fn down(n: usize, len: usize, more: usize) -> (r: usize)
    ensures
        r == row_down(n, (len + more) as nat),
{
    let beyond: bool = n > len && n - len > more;
    if beyond {
        len + more
    } else if n >= len && n - len == more {
        n
    } else if n < usize::MAX {
        n + 1
    } else {
        n
    }
}

// ---------------------------------------------------------------------------
// The model
// ---------------------------------------------------------------------------

/// The first catalogue of a name, or the first of all.
pub open spec fn entry_index(es: Seq<Entry>, name: Seq<char>) -> int {
    if exists|i: int| 0 <= i < es.len() && (#[trigger] es[i]).0 == name {
        choose|i: int| 0 <= i < es.len() && (#[trigger] es[i]).0 == name && forall|j: int|
            0 <= j < i ==> (#[trigger] es[j]).0 != name
    } else {
        0
    }
}

/// Where a name occurs, its index is that of the first catalogue with it.
pub proof fn lemma_entry_index(es: Seq<Entry>, name: Seq<char>, k: int)
    requires
        0 <= k < es.len(),
        es[k].0 == name,
    ensures
        0 <= entry_index(es, name) <= k,
        es[entry_index(es, name)].0 == name,
        forall|j: int| 0 <= j < entry_index(es, name) ==> (#[trigger] es[j]).0 != name,
    decreases k,
{
    if exists|j: int| 0 <= j < k && (#[trigger] es[j]).0 == name {
        let j = choose|j: int| 0 <= j < k && (#[trigger] es[j]).0 == name;
        lemma_entry_index(es, name, j);
    } else {
        assert(es[k].0 == name && forall|j: int| 0 <= j < k ==> (#[trigger] es[j]).0 != name);
        let i = entry_index(es, name);
        assert(0 <= i < es.len() && es[i].0 == name && forall|j: int|
            0 <= j < i ==> (#[trigger] es[j]).0 != name);
    }
}

impl AppView {
    /// The same state with a message.
    pub open spec fn told(self, message: Seq<char>) -> AppView {
        AppView { status: Some(message), ..self }
    }

    /// The end of the program.
    pub open spec fn quit(self) -> AppView {
        AppView { should_quit: true, ..self }
    }

    /// A key while a path is typed.
    pub open spec fn path_key(self, key: Key) -> Reaction {
        match key {
            Key::Esc => (AppView { manual_editing: false, ..self }, ActionView::Stay),
            Key::Enter => if text::trimmed(self.manual_path).len() == 0 {
                (self.told("path is empty"@), ActionView::Stay)
            } else {
                (self, ActionView::CheckSource { path: text::trimmed(self.manual_path) })
            },
            Key::Backspace => (
                AppView {
                    manual_path: if self.manual_path.len() > 0 {
                        self.manual_path.drop_last()
                    } else {
                        self.manual_path
                    },
                    ..self
                },
                ActionView::Stay,
            ),
            Key::Char(c) => (
                AppView { manual_path: self.manual_path.push(c), ..self },
                ActionView::Stay,
            ),
            _ => (self, ActionView::Stay),
        }
    }

    /// A key at the choice of a source. Behind the volumes the menu has a row to type a
    /// path, one to look again, and one to quit.
    pub open spec fn source_key(self, key: Key) -> Reaction {
        let n = self.mounts.len();
        let at = self.source_selection;
        match key {
            Key::Esc => (self.quit(), ActionView::Stay),
            Key::Char(c) => if c == 'q' {
                (self.quit(), ActionView::Stay)
            } else {
                (self, ActionView::Stay)
            },
            Key::Up => (AppView { source_selection: row_up(at), ..self }, ActionView::Stay),
            Key::Down => (
                AppView { source_selection: row_down(at, n + 2), ..self },
                ActionView::Stay,
            ),
            Key::Enter => if at < n {
                (self.with_source(self.mounts[at as int].path), ActionView::Stay)
            } else if at == n {
                (AppView { manual_editing: true, status: None, ..self }, ActionView::Stay)
            } else if at == n + 1 {
                (self, ActionView::RefreshMounts)
            } else {
                (self.quit(), ActionView::Stay)
            },
            _ => (self, ActionView::Stay),
        }
    }

    /// A key at the choice of a catalogue. Behind the catalogues the menu has a row to
    /// create one and one to go back.
    pub open spec fn catalogue_key(self, key: Key) -> Reaction {
        let n = self.cfg.catalogues.len();
        let at = self.catalogue_selection;
        match key {
            Key::Esc => (AppView { screen: Screen::SourceSelect, ..self }, ActionView::Stay),
            Key::Up => (AppView { catalogue_selection: row_up(at), ..self }, ActionView::Stay),
            Key::Down => (
                AppView { catalogue_selection: row_down(at, n + 1), ..self },
                ActionView::Stay,
            ),
            Key::Enter => if at < n {
                (
                    AppView {
                        selected_catalogue: Some(self.cfg.catalogues[at as int].0),
                        confirm_action: 0,
                        status: None,
                        screen: Screen::Confirm,
                        ..self
                    },
                    ActionView::Stay,
                )
            } else if at == n {
                (
                    AppView { form: form::blank_form(), screen: Screen::CatalogueCreate, ..self },
                    ActionView::Stay,
                )
            } else {
                (AppView { screen: Screen::SourceSelect, ..self }, ActionView::Stay)
            },
            _ => (self, ActionView::Stay),
        }
    }

    /// The form is left without creating anything.
    pub open spec fn form_left(self) -> AppView {
        AppView {
            form: form::blank_form(),
            status: None,
            screen: Screen::CatalogueSelect,
            ..self
        }
    }

    /// A key in the form.
    pub open spec fn form_key(self, key: Key) -> Reaction {
        let row = form::row_number(self.form.item);
        match key {
            Key::Esc => (self.form_left(), ActionView::Stay),
            Key::Down => (
                AppView { form: self.form.selected(form::row_at(row + 1)), ..self },
                ActionView::Stay,
            ),
            Key::Up => (
                AppView { form: self.form.selected(form::row_at(row - 1)), ..self },
                ActionView::Stay,
            ),
            Key::Left => (AppView { form: self.form.left(), ..self }, ActionView::Stay),
            Key::Right => (AppView { form: self.form.right(), ..self }, ActionView::Stay),
            Key::Enter => match self.form.item {
                CatalogueCreateItem::Create => (self, ActionView::CreateCatalogue),
                CatalogueCreateItem::Back => (self.form_left(), ActionView::Stay),
                _ => (self, ActionView::Stay),
            },
            Key::Backspace => (AppView { form: self.form.backspaced(), ..self }, ActionView::Stay),
            Key::Delete => (AppView { form: self.form.deleted(), ..self }, ActionView::Stay),
            Key::Char(c) => (AppView { form: self.form.typed(c), ..self }, ActionView::Stay),
            _ => (self, ActionView::Stay),
        }
    }

    /// The same state with another RAW setting.
    pub open spec fn with_raw_mode(self, mode: RawMode) -> AppView {
        AppView {
            cfg: AppConfigView {
                filters: FiltersConfig { raw_mode: mode, ..self.cfg.filters },
                ..self.cfg
            },
            ..self
        }
    }

    /// A key at the confirmation: scan, RAW setting, back.
    pub open spec fn confirm_key(self, key: Key) -> Reaction {
        let mode = self.cfg.filters.raw_mode;
        match key {
            Key::Esc => (AppView { screen: Screen::CatalogueSelect, ..self }, ActionView::Stay),
            Key::Up => (
                AppView { confirm_action: row_up(self.confirm_action), ..self },
                ActionView::Stay,
            ),
            Key::Down => (
                AppView { confirm_action: row_down(self.confirm_action, 2), ..self },
                ActionView::Stay,
            ),
            Key::Left => if self.confirm_action == 1 {
                (self.with_raw_mode(labels::mode_before(mode)), ActionView::Stay)
            } else {
                (self, ActionView::Stay)
            },
            Key::Right => if self.confirm_action == 1 {
                (self.with_raw_mode(labels::mode_after(mode)), ActionView::Stay)
            } else {
                (self, ActionView::Stay)
            },
            Key::Enter => if self.confirm_action == 0 {
                if mode != self.raw_mode_disk {
                    (
                        AppView { save_action: 0, screen: Screen::SaveConfigPrompt, ..self },
                        ActionView::Stay,
                    )
                } else {
                    self.scan_started()
                }
            } else if self.confirm_action == 2 {
                (AppView { screen: Screen::CatalogueSelect, ..self }, ActionView::Stay)
            } else {
                (self, ActionView::Stay)
            },
            _ => (self, ActionView::Stay),
        }
    }

    /// Back at the confirmation.
    pub open spec fn unconfirmed(self) -> AppView {
        AppView { confirm_action: 0, screen: Screen::Confirm, ..self }
    }

    /// The RAW setting is settled, with a message, and the scan is started.
    pub open spec fn settled(self, message: Seq<char>) -> Reaction {
        (AppView {
            status: Some(message),
            raw_mode_disk: self.cfg.filters.raw_mode,
            ..self
        }).scan_started()
    }

    /// A key at the question whether to save: save, use once, back.
    pub open spec fn save_key(self, key: Key) -> Reaction {
        match key {
            Key::Esc => (self.unconfirmed(), ActionView::Stay),
            Key::Up => (
                AppView { save_action: row_up(self.save_action), ..self },
                ActionView::Stay,
            ),
            Key::Down => (
                AppView { save_action: row_down(self.save_action, 2), ..self },
                ActionView::Stay,
            ),
            Key::Enter => if self.save_action == 0 {
                (self, ActionView::SaveConfig)
            } else if self.save_action == 1 {
                self.settled("using values for this session only"@)
            } else {
                (self.unconfirmed(), ActionView::Stay)
            },
            _ => (self, ActionView::Stay),
        }
    }

    /// A key during the scan.
    pub open spec fn scan_key(self, key: Key) -> Reaction {
        if self.scan.error is Some {
            if key == Key::Enter || key == Key::Esc {
                (self, ActionView::StartOver)
            } else {
                (self, ActionView::Stay)
            }
        } else if (key == Key::Enter || key == Key::Esc || key == Key::Char('q'))
            && !self.scan.cancelling && self.scan.running {
            (
                AppView {
                    scan: super::state::ScanView {
                        cancelling: true,
                        status: "cancelling scan…"@,
                        ..self.scan
                    },
                    ..self
                },
                ActionView::CancelScan,
            )
        } else {
            (self, ActionView::Stay)
        }
    }

    /// How many lines the preview has.
    pub open spec fn review_len(self) -> nat {
        match self.plan {
            Some(p) => review::review_lines(p).len(),
            None => 0,
        }
    }

    /// A key at the preview: import, dry run, back.
    pub open spec fn review_key(self, key: Key) -> Reaction {
        let at = match self.review_selected {
            Some(i) => i as int,
            None => 0,
        };
        match key {
            Key::Esc => (self, ActionView::StartOver),
            Key::Char(c) => if c == 'q' {
                (self, ActionView::StartOver)
            } else {
                (self, ActionView::Stay)
            },
            Key::Down => (
                AppView { review_action: row_down(self.review_action, 2), ..self },
                ActionView::Stay,
            ),
            Key::Up => (
                AppView { review_action: row_up(self.review_action), ..self },
                ActionView::Stay,
            ),
            Key::Enter => if self.review_action == 0 {
                self.sync_started(false)
            } else if self.review_action == 1 {
                self.sync_started(true)
            } else {
                (self, ActionView::StartOver)
            },
            Key::PageDown => if self.review_len() > 0 {
                let last = self.review_len() - 1;
                (
                    AppView {
                        review_selected: Some(
                            (if at + 10 <= last {
                                at + 10
                            } else {
                                last
                            }) as usize,
                        ),
                        ..self
                    },
                    ActionView::Stay,
                )
            } else {
                (self, ActionView::Stay)
            },
            Key::PageUp => if self.review_len() > 0 {
                (
                    AppView {
                        review_selected: Some(
                            (if at >= 10 {
                                at - 10
                            } else {
                                0
                            }) as usize,
                        ),
                        ..self
                    },
                    ActionView::Stay,
                )
            } else {
                (self, ActionView::Stay)
            },
            _ => (self, ActionView::Stay),
        }
    }

    /// A key during the import.
    pub open spec fn sync_key(self, key: Key) -> Reaction {
        if (key == Key::Enter || key == Key::Esc || key == Key::Char('q')) && !self.sync.cancelling
            && self.sync.running {
            (
                AppView {
                    sync: super::state::SyncView { cancelling: true, ..self.sync },
                    status: Some("cancelling sync…"@),
                    ..self
                },
                ActionView::CancelSync,
            )
        } else {
            (self, ActionView::Stay)
        }
    }

    /// A key at the summary: another import, quit.
    pub open spec fn summary_key(self, key: Key) -> Reaction {
        match key {
            Key::Up => (
                AppView { summary_action: row_up(self.summary_action), ..self },
                ActionView::Stay,
            ),
            Key::Down => (
                AppView { summary_action: row_down(self.summary_action, 1), ..self },
                ActionView::Stay,
            ),
            Key::Enter => if self.summary_action == 0 {
                (self, ActionView::StartOver)
            } else {
                (self.quit(), ActionView::Stay)
            },
            Key::Esc => (self.quit(), ActionView::Stay),
            _ => (self, ActionView::Stay),
        }
    }

    /// A key, alone or together with Ctrl.
    pub open spec fn key(self, key: Key, ctrl: bool) -> Reaction {
        if ctrl && (key == Key::Char('c') || key == Key::Char('q')) {
            (self.quit(), ActionView::Stay)
        } else {
            match self.screen {
                Screen::SourceSelect => if self.manual_editing {
                    self.path_key(key)
                } else {
                    self.source_key(key)
                },
                Screen::CatalogueSelect => self.catalogue_key(key),
                Screen::CatalogueCreate => self.form_key(key),
                Screen::SaveConfigPrompt => self.save_key(key),
                Screen::Confirm => self.confirm_key(key),
                Screen::Scan => self.scan_key(key),
                Screen::Review => self.review_key(key),
                Screen::Sync => self.sync_key(key),
                Screen::Summary => self.summary_key(key),
            }
        }
    }

    /// A path was typed that is a directory or not.
    pub open spec fn checked(self, p: Seq<char>, is_dir: bool) -> AppView {
        if is_dir {
            self.with_source(path::text_path(p))
        } else {
            self.told("not a directory: "@ + p)
        }
    }

    /// The volumes were looked for again.
    pub open spec fn refreshed(self, mounts: Seq<MountView>) -> AppView {
        AppView {
            mounts,
            source_selection: row_down(mounts.len() as usize, mounts.len() + 1),
            status: Some("rescanned mounts"@),
            ..self
        }
    }

    /// A catalogue was saved, or not.
    pub open spec fn created(
        self,
        candidate: AppConfigView,
        name: Seq<char>,
        saved: std::result::Result<(), Seq<char>>,
    ) -> AppView {
        match saved {
            Err(reason) => self.told(reason),
            Ok(_) => AppView {
                cfg: candidate,
                form: form::blank_form(),
                catalogue_selection: entry_index(candidate.catalogues, name) as usize,
                status: Some("saved catalogue \""@ + name + "\""@),
                screen: Screen::CatalogueSelect,
                ..self
            },
        }
    }

    /// The configuration was saved, or not.
    pub open spec fn stored(self, saved: std::result::Result<(), Seq<char>>) -> Reaction {
        match saved {
            Ok(_) => self.settled("saved config to "@ + self.cfg_path),
            Err(reason) => (self.told("save failed: "@ + reason), ActionView::Stay),
        }
    }
}

/// What a result says to the user.
pub open spec fn outcome(r: Result<()>) -> std::result::Result<(), Seq<char>> {
    match r {
        Ok(_) => Ok(()),
        Err(e) => Err(e@.message()),
    }
}

// ---------------------------------------------------------------------------
// Screens
// ---------------------------------------------------------------------------

impl App {
    fn tell(&mut self, message: &str)
        ensures
            final(self)@ == old(self)@.told(message@),
    {
        self.status = Some(text::copy_str(message));
    }

    fn on_key_path(&mut self, key: Key) -> (r: Action)
        ensures
            (final(self)@, r@) == old(self)@.path_key(key),
    {
        match key {
            Key::Esc => {
                self.manual_editing = false;
            },
            Key::Enter => {
                let p = text::trim(self.manual_path.as_str());
                if p.as_str().unicode_len() == 0 {
                    self.tell("path is empty");
                } else {
                    return Action::CheckSource { path: p };
                }
            },
            Key::Backspace => {
                let chars = text::to_chars(self.manual_path.as_str());
                let n: usize = chars.len();
                if n > 0 {
                    self.manual_path = text::from_chars(&chars, 0, n - 1);
                    proof {
                        assert(self.manual_path@ =~= chars@.drop_last());
                    }
                }
            },
            Key::Char(c) => {
                self.manual_path.push(c);
            },
            _ => {},
        }
        Action::Stay
    }

    fn on_key_source_select(&mut self, key: Key) -> (r: Action)
        ensures
            (final(self)@, r@) == (if old(self)@.manual_editing {
                old(self)@.path_key(key)
            } else {
                old(self)@.source_key(key)
            }),
    {
        if self.manual_editing {
            return self.on_key_path(key);
        }
        let n: usize = self.mounts.len();
        let at: usize = self.source_selection;
        match key {
            Key::Esc => {
                self.should_quit = true;
            },
            Key::Char(c) => {
                if c == 'q' {
                    self.should_quit = true;
                }
            },
            Key::Up => {
                self.source_selection = up(at);
            },
            Key::Down => {
                self.source_selection = down(at, n, 2);
            },
            Key::Enter => {
                if at < n {
                    let p = self.mounts[at].path.clone();
                    self.choose_source(p);
                } else if at == n {
                    self.manual_editing = true;
                    self.status = None;
                } else if at - n == 1 {
                    return Action::RefreshMounts;
                } else {
                    self.should_quit = true;
                }
            },
            _ => {},
        }
        Action::Stay
    }

    fn on_key_catalogue_select(&mut self, key: Key) -> (r: Action)
        ensures
            (final(self)@, r@) == old(self)@.catalogue_key(key),
    {
        let n: usize = self.cfg.catalogues.len();
        let at: usize = self.catalogue_selection;
        match key {
            Key::Esc => {
                self.screen = Screen::SourceSelect;
            },
            Key::Up => {
                self.catalogue_selection = up(at);
            },
            Key::Down => {
                self.catalogue_selection = down(at, n, 1);
            },
            Key::Enter => {
                if at < n {
                    let name = text::copy_str(self.cfg.catalogues.name_at(at));
                    self.selected_catalogue = Some(name);
                    self.confirm_action = 0;
                    self.status = None;
                    self.screen = Screen::Confirm;
                } else if at == n {
                    self.form = CatalogueForm::new();
                    self.screen = Screen::CatalogueCreate;
                } else {
                    self.screen = Screen::SourceSelect;
                }
            },
            _ => {},
        }
        Action::Stay
    }

    fn leave_form(&mut self)
        ensures
            final(self)@ == old(self)@.form_left(),
    {
        self.form = CatalogueForm::new();
        self.status = None;
        self.screen = Screen::CatalogueSelect;
    }

    fn on_key_catalogue_create(&mut self, key: Key) -> (r: Action)
        requires
            old(self)@.form.wf(),
        ensures
            (final(self)@, r@) == old(self)@.form_key(key),
    {
        match key {
            Key::Esc => {
                self.leave_form();
            },
            Key::Down => {
                let item = self.form.item.next();
                self.form.select(item);
            },
            Key::Up => {
                let item = self.form.item.prev();
                self.form.select(item);
            },
            Key::Left => {
                self.form.cursor_left();
            },
            Key::Right => {
                self.form.cursor_right();
            },
            Key::Enter => {
                match self.form.item {
                    CatalogueCreateItem::Create => {
                        return Action::CreateCatalogue;
                    },
                    CatalogueCreateItem::Back => {
                        self.leave_form();
                    },
                    _ => {},
                }
            },
            Key::Backspace => {
                self.form.backspace();
            },
            Key::Delete => {
                self.form.delete();
            },
            Key::Char(c) => {
                self.form.insert(c);
            },
            _ => {},
        }
        Action::Stay
    }

    fn on_key_confirm(&mut self, key: Key) -> (r: Action)
        ensures
            (final(self)@, r@) == old(self)@.confirm_key(key),
    {
        let mode = self.cfg.filters.raw_mode;
        match key {
            Key::Esc => {
                self.screen = Screen::CatalogueSelect;
            },
            Key::Up => {
                self.confirm_action = up(self.confirm_action);
            },
            Key::Down => {
                self.confirm_action = down(self.confirm_action, 2, 0);
            },
            Key::Left => {
                if self.confirm_action == 1 {
                    self.cfg.filters.raw_mode = labels::previous_raw_mode(mode);
                }
            },
            Key::Right => {
                if self.confirm_action == 1 {
                    self.cfg.filters.raw_mode = labels::next_raw_mode(mode);
                }
            },
            Key::Enter => {
                if self.confirm_action == 0 {
                    if mode != self.raw_mode_disk {
                        self.save_action = 0;
                        self.screen = Screen::SaveConfigPrompt;
                    } else {
                        return self.start_scan();
                    }
                } else if self.confirm_action == 2 {
                    self.screen = Screen::CatalogueSelect;
                }
            },
            _ => {},
        }
        Action::Stay
    }

    fn settle(&mut self, message: String) -> (r: Action)
        ensures
            (final(self)@, r@) == old(self)@.settled(message@),
    {
        self.status = Some(message);
        self.raw_mode_disk = self.cfg.filters.raw_mode;
        self.start_scan()
    }

    fn on_key_save_prompt(&mut self, key: Key) -> (r: Action)
        ensures
            (final(self)@, r@) == old(self)@.save_key(key),
    {
        match key {
            Key::Esc => {
                self.confirm_action = 0;
                self.screen = Screen::Confirm;
            },
            Key::Up => {
                self.save_action = up(self.save_action);
            },
            Key::Down => {
                self.save_action = down(self.save_action, 2, 0);
            },
            Key::Enter => {
                if self.save_action == 0 {
                    return Action::SaveConfig;
                } else if self.save_action == 1 {
                    return self.settle(text::copy_str("using values for this session only"));
                } else {
                    self.confirm_action = 0;
                    self.screen = Screen::Confirm;
                }
            },
            _ => {},
        }
        Action::Stay
    }

    fn on_key_scan(&mut self, key: Key) -> (r: Action)
        ensures
            (final(self)@, r@) == old(self)@.scan_key(key),
    {
        let ends: bool = key == Key::Enter || key == Key::Esc;
        if self.scan.error.is_some() {
            if ends {
                return Action::StartOver;
            }
            return Action::Stay;
        }
        if (ends || key == Key::Char('q')) && !self.scan.cancelling && self.scan.running {
            self.scan.cancelling = true;
            self.scan.status = text::copy_str("cancelling scan…");
            return Action::CancelScan;
        }
        Action::Stay
    }

    fn on_key_review(&mut self, key: Key) -> (r: Action)
        requires
            old(self)@.wf(),
        ensures
            (final(self)@, r@) == old(self)@.review_key(key),
    {
        let count: usize = match &self.plan {
            Some(p) => review::build_review_items(p).len(),
            None => 0,
        };
        let at: usize = match self.review_selected {
            Some(i) => i,
            None => 0,
        };
        match key {
            Key::Esc => {
                return Action::StartOver;
            },
            Key::Char(c) => {
                if c == 'q' {
                    return Action::StartOver;
                }
            },
            Key::Down => {
                self.review_action = down(self.review_action, 2, 0);
            },
            Key::Up => {
                self.review_action = up(self.review_action);
            },
            Key::Enter => {
                if self.review_action == 0 {
                    return self.start_sync(false);
                } else if self.review_action == 1 {
                    return self.start_sync(true);
                } else {
                    return Action::StartOver;
                }
            },
            Key::PageDown => {
                if count > 0 {
                    let last: usize = count - 1;
                    let next: usize = if at < last && last - at >= 10 {
                        at + 10
                    } else {
                        last
                    };
                    self.review_selected = Some(next);
                }
            },
            Key::PageUp => {
                if count > 0 {
                    let next: usize = if at >= 10 {
                        at - 10
                    } else {
                        0
                    };
                    self.review_selected = Some(next);
                }
            },
            _ => {},
        }
        Action::Stay
    }

    fn on_key_sync(&mut self, key: Key) -> (r: Action)
        ensures
            (final(self)@, r@) == old(self)@.sync_key(key),
    {
        if (key == Key::Enter || key == Key::Esc || key == Key::Char('q')) && !self.sync.cancelling
            && self.sync.running {
            self.sync.cancelling = true;
            self.tell("cancelling sync…");
            return Action::CancelSync;
        }
        Action::Stay
    }

    fn on_key_summary(&mut self, key: Key) -> (r: Action)
        ensures
            (final(self)@, r@) == old(self)@.summary_key(key),
    {
        match key {
            Key::Up => {
                self.summary_action = up(self.summary_action);
            },
            Key::Down => {
                self.summary_action = down(self.summary_action, 1, 0);
            },
            Key::Enter => {
                if self.summary_action == 0 {
                    return Action::StartOver;
                }
                self.should_quit = true;
            },
            Key::Esc => {
                self.should_quit = true;
            },
            _ => {},
        }
        Action::Stay
    }

    /// Acts on a key. Ctrl-C and Ctrl-Q quit on every screen.
    pub fn on_key(&mut self, key: Key, ctrl: bool) -> (r: Action)
        requires
            old(self)@.wf(),
        ensures
            (final(self)@, r@) == old(self)@.key(key, ctrl),
            final(self)@.wf(),
    {
        proof {
            laws::lemma_keys_keep_wf(self@, key, ctrl);
        }
        if ctrl && (key == Key::Char('c') || key == Key::Char('q')) {
            self.should_quit = true;
            return Action::Stay;
        }
        match self.screen {
            Screen::SourceSelect => self.on_key_source_select(key),
            Screen::CatalogueSelect => self.on_key_catalogue_select(key),
            Screen::CatalogueCreate => self.on_key_catalogue_create(key),
            Screen::SaveConfigPrompt => self.on_key_save_prompt(key),
            Screen::Confirm => self.on_key_confirm(key),
            Screen::Scan => self.on_key_scan(key),
            Screen::Review => self.on_key_review(key),
            Screen::Sync => self.on_key_sync(key),
            Screen::Summary => self.on_key_summary(key),
        }
    }

    // -----------------------------------------------------------------------
    // Answers
    // -----------------------------------------------------------------------

    /// Takes a typed path as the source, where it is a directory.
    pub fn source_checked(&mut self, p: &str, is_dir: bool)
        ensures
            final(self)@ == old(self)@.checked(p@, is_dir),
            old(self)@.wf() ==> final(self)@.wf(),
    {
        if is_dir {
            self.choose_source(NativePath::of_text(p));
        } else {
            self.status = Some(text::with(text::copy_str("not a directory: "), p));
        }
    }

    /// Takes over the volumes that are mounted now.
    pub fn mounts_refreshed(&mut self, mounts: Vec<DetectedMount>)
        ensures
            final(self)@ == old(self)@.refreshed(mount::mounts_view(mounts@)),
            old(self)@.wf() ==> final(self)@.wf(),
    {
        let n: usize = mounts.len();
        self.mounts = mounts;
        self.source_selection = down(n, n, 1);
        self.tell("rescanned mounts");
    }

    /// Puts the catalogue of the form into a copy of the configuration, which is still to
    /// be saved. `images` and `videos` tell what the file system says of its roots. Where
    /// the catalogue is refused, the reason is shown and nothing else changes.
    pub fn try_create_catalogue(&mut self, images: &RootState, videos: &RootState) -> (r: Option<
        (AppConfig, String),
    >)
        ensures
            ({
                let es = old(self)@.cfg.catalogues;
                let name = text::trimmed(old(self)@.form.name);
                let c = old(self)@.form.catalogue();
                match config::insert_fault(es, name, c, *images, *videos) {
                    Some(e) => r is None && final(self)@ == old(self)@.told(e.message()),
                    None => r matches Some((candidate, key)) && key@ == name && final(self)@
                        == old(self)@ && candidate@ == (AppConfigView {
                        catalogues: config::stored(es, name, c),
                        ..old(self)@.cfg
                    }),
                }
            }),
    {
        let mut candidate = self.cfg.clone();
        match candidate.insert_catalogue(
            self.form.name.as_str(),
            self.form.catalogue(),
            images,
            videos,
        ) {
            Ok(name) => Some((candidate, name)),
            Err(e) => {
                self.status = Some(e.to_string());
                None
            },
        }
    }

    /// Takes over a configuration with a new catalogue, where it could be saved. Where not,
    /// the reason is shown, and the form and the configuration stay.
    pub fn catalogue_saved(&mut self, candidate: AppConfig, name: String, saved: Result<()>)
        ensures
            final(self)@ == old(self)@.created(candidate@, name@, outcome(saved)),
            old(self)@.wf() ==> final(self)@.wf(),
    {
        match saved {
            Ok(_) => {},
            Err(e) => {
                self.status = Some(e.to_string());
                return;
            },
        }
        let at: usize = match index_of_name(&candidate, name.as_str()) {
            Some(i) => i,
            None => 0,
        };
        self.cfg = candidate;
        self.form = CatalogueForm::new();
        self.catalogue_selection = at;
        self.status = Some(
            text::with(text::with(text::copy_str("saved catalogue \""), name.as_str()), "\""),
        );
        self.screen = Screen::CatalogueSelect;
    }

    /// Goes on to the scan, where the configuration could be saved.
    pub fn config_saved(&mut self, saved: Result<()>) -> (r: Action)
        ensures
            (final(self)@, r@) == old(self)@.stored(outcome(saved)),
            old(self)@.wf() ==> final(self)@.wf(),
    {
        match saved {
            Ok(_) => {
                let message = text::with(
                    text::copy_str("saved config to "),
                    self.cfg_path.as_str(),
                );
                self.settle(message)
            },
            Err(e) => {
                self.status = Some(text::with(text::copy_str("save failed: "), &e.to_string()));
                Action::Stay
            },
        }
    }
}

/// The place of the catalogue with exactly this name.
pub(super) fn index_of_name(cfg: &AppConfig, name: &str) -> (r: Option<usize>)
    ensures
        match r {
            Some(i) => i < cfg@.catalogues.len() && i == entry_index(cfg@.catalogues, name@)
                && cfg@.catalogues[i as int].0 == name@,
            None => forall|i: int|
                0 <= i < cfg@.catalogues.len() ==> (#[trigger] cfg@.catalogues[i]).0 != name@,
        },
{
    let ghost es = cfg@.catalogues;
    let n: usize = cfg.catalogues.len();
    let mut i: usize = 0;
    while i < n
        invariant
            i <= n,
            n == es.len(),
            es == cfg@.catalogues,
            forall|j: int| 0 <= j < i ==> (#[trigger] es[j]).0 != name@,
        decreases n - i,
    {
        if text::same_text(cfg.catalogues.name_at(i), name) {
            proof {
                lemma_entry_index(es, name@, i as int);
            }
            return Some(i);
        }
        i += 1;
    }
    None
}

} // verus!
