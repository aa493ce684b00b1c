//! What each key does, by mode and by panel.

use vstd::prelude::*;
use crate::text::is_blank;
use crate::cli::config_path;
use crate::tui::input::{TextInput, typed, backspaced};
use crate::tui::layout::{Panel, FormFocus};
use crate::tui::app::{App, Mode, Env, Key, KeyCode, Request, Pending, selected_refreshed};
use crate::tui::forms::{
    status_shown, not_initialized_text, init_form_opened, network_form_opened, server_form_opened,
    client_form_opened, edit_form_of_selected_opened, delete_dialog_opened, init_submitted,
    network_edit_submitted, server_add_submitted, client_add_submitted, server_edit_submitted,
    client_edit_submitted, delete_confirmed,
};
use crate::manager::ops::{config_of, all_configs};
use crate::manager::errors::{ManagerError, error_text};

verus! {

/// Where Tab moves the focus in a form with `n` fields: to the next field, from the last
/// field to Submit, then Cancel, then back to the first field.
pub open spec fn focus_after_tab(f: FormFocus, n: nat) -> FormFocus {
    match f {
        FormFocus::Field(i) => if i + 1 < n {
            FormFocus::Field((i + 1) as usize)
        } else {
            FormFocus::Submit
        },
        FormFocus::Submit => FormFocus::Cancel,
        FormFocus::Cancel => FormFocus::Field(0),
    }
}

/// Where Shift+Tab moves the focus in a form with `n` fields: the reverse cycle.
pub open spec fn focus_after_backtab(f: FormFocus, n: nat) -> FormFocus {
    match f {
        FormFocus::Field(i) => if i == 0 {
            FormFocus::Cancel
        } else {
            FormFocus::Field((i - 1) as usize)
        },
        FormFocus::Submit => FormFocus::Field(if n == 0 { 0 } else { (n - 1) as usize }),
        FormFocus::Cancel => FormFocus::Submit,
    }
}

/// In a form with at least one field, Shift+Tab undoes Tab and Tab undoes Shift+Tab,
/// wherever the focus is.
pub proof fn law_form_focus_round_trip(f: FormFocus, n: nat)
    requires
        1 <= n <= usize::MAX,
        f matches FormFocus::Field(i) ==> i < n,
    ensures
        focus_after_backtab(focus_after_tab(f, n), n) == f,
        focus_after_tab(focus_after_backtab(f, n), n) == f,
{
    match f {
        FormFocus::Field(i) => {
            if i + 1 < n {
                assert(focus_after_tab(f, n) == FormFocus::Field((i + 1) as usize));
            } else {
                assert(i == n - 1);
            }
            if i > 0 {
                assert(focus_after_backtab(f, n) == FormFocus::Field((i - 1) as usize));
            }
        },
        _ => {},
    }
}

/// What an editing key does to an input's text and cursor: Control+U clears, a character
/// is inserted, Backspace and Delete remove, the arrows, Home and End move; other keys do
/// nothing.
pub open spec fn edited(v: (Seq<char>, nat), key: Key) -> (Seq<char>, nat) {
    if key.ctrl && key.code == KeyCode::Char('u') {
        (Seq::<char>::empty(), 0nat)
    } else {
        match key.code {
            KeyCode::Char(c) => typed(v, c),
            KeyCode::Backspace => backspaced(v),
            KeyCode::Delete => if v.1 < v.0.len() {
                (v.0.remove(v.1 as int), v.1)
            } else {
                v
            },
            KeyCode::Left => (v.0, if v.1 > 0 { (v.1 - 1) as nat } else { 0nat }),
            KeyCode::Right => (v.0, if v.1 < v.0.len() { v.1 + 1 } else { v.1 }),
            KeyCode::Home => (v.0, 0nat),
            KeyCode::End => (v.0, v.0.len()),
            _ => v,
        }
    }
}

/// Applies an editing key to an input.
pub fn edit_input(input: &mut TextInput, key: Key)
    ensures
        final(input)@ == edited(old(input)@, key),
{
    if key.ctrl && key.code == KeyCode::Char('u') {
        input.clear();
        return;
    }
    match key.code {
        KeyCode::Char(c) => input.insert(c),
        KeyCode::Backspace => input.delete_back(),
        KeyCode::Delete => input.delete_forward(),
        KeyCode::Left => input.move_left(),
        KeyCode::Right => input.move_right(),
        KeyCode::Home => input.move_home(),
        KeyCode::End => input.move_end(),
        _ => {},
    }
}

/// The key is a press of character `c` (with or without Control).
pub open spec fn is_char(key: Key, c: char) -> bool {
    key.code == KeyCode::Char(c)
}

/// The text shown when saving needs an export directory.
pub open spec fn empty_export_dir_text() -> Seq<char> {
    "Export directory is empty. Set it in the top-left panel."@
}

/// The help overlay: Esc, `?` or `q` closes it; other keys do nothing.
pub open spec fn help_key_handled(o: App, n: App, key: Key) -> bool {
    if key.code == KeyCode::Esc || is_char(key, '?') || is_char(key, 'q') {
        n == (App { mode: Mode::Normal, ..o })
    } else {
        n == o
    }
}

/// The configuration preview: Up/`k` and Down/`j` scroll (within `u16`), `q` quits; other
/// keys do nothing.
pub open spec fn preview_key_handled(o: App, n: App, key: Key) -> bool {
    n == if key.code == KeyCode::Up || is_char(key, 'k') {
        App { config_scroll: if o.config_scroll > 0 { (o.config_scroll - 1) as u16 } else { 0 }, ..o }
    } else if key.code == KeyCode::Down || is_char(key, 'j') {
        App { config_scroll: if o.config_scroll < u16::MAX { (o.config_scroll + 1) as u16 } else { u16::MAX }, ..o }
    } else if is_char(key, 'q') {
        App { should_quit: true, ..o }
    } else {
        o
    }
}

/// The overview panel. While the export directory is being edited: Control+U clears it,
/// Enter accepts it unless it is blank, Esc restores it, other keys edit it. Otherwise
/// Control+O starts editing (remembering the directory) and `q` quits.
pub open spec fn info_key_handled(o: App, n: App, key: Key) -> bool {
    if o.editing_export_dir {
        if key.ctrl && is_char(key, 'u') {
            n == (App { export_dir: n.export_dir, ..o }) && n.export_dir@ == (Seq::<char>::empty(), 0nat)
        } else if key.code == KeyCode::Enter {
            if crate::text::trim(o.export_dir@.0).len() == 0 {
                status_shown(o, n, "Export directory cannot be empty."@)
            } else {
                n == (App { editing_export_dir: false, ..o })
            }
        } else if key.code == KeyCode::Esc {
            &&& n.export_dir@ == (o.export_dir_backup@, o.export_dir_backup@.len())
            &&& n == (App { export_dir: n.export_dir, editing_export_dir: false, ..o })
        } else {
            &&& n.export_dir@ == edited(o.export_dir@, key)
            &&& n == (App { export_dir: n.export_dir, ..o })
        }
    } else if key.ctrl && is_char(key, 'o') {
        &&& n.export_dir_backup@ == o.export_dir@.0
        &&& n == (App { export_dir_backup: n.export_dir_backup, editing_export_dir: true, ..o })
    } else if is_char(key, 'q') {
        n == (App { should_quit: true, ..o })
    } else {
        n == o
    }
}

/// The selection moves to `idx` (when that is elsewhere), and the panels of the selected
/// device show it afresh.
pub open spec fn selection_moved(o: App, n: App, idx: usize) -> bool {
    if idx == o.device_index {
        n == o
    } else {
        n.device_index == idx && selected_refreshed(App { device_index: idx, ..o }, n)
    }
}

/// Saving the selected device's configuration: refused without an export directory;
/// with no device at the selection nothing happens; otherwise its configuration is handed
/// over to be written to `dir/name.conf` (or the error of generating it is shown).
pub open spec fn selected_saved(o: App, n: App, r: Request) -> bool {
    let dir = o.export_dir@.0;
    if dir.len() == 0 {
        r is Nothing && status_shown(o, n, empty_export_dir_text())
    } else {
        match o.device_name_at_spec(o.device_index) {
            None => r is Nothing && n == o,
            Some(name) => match o.manager.loaded() {
                None => r is Nothing && status_shown(o, n, "Error: "@ + error_text(ManagerError::NotInitialized)),
                Some(l) => match config_of(l, name) {
                    Some(content) => {
                        &&& r matches Request::SaveConfig { dir: d, name: x, content: c } && d@ == dir && x@ == name
                            && c@ == content
                        &&& n.pending matches Some(Pending::Config { name: x, content: c, path }) && x@ == name && c@
                            == content && path@ == dir + "/"@ + name + ".conf"@
                        &&& n == (App { pending: n.pending, ..o })
                    },
                    None => r is Nothing && status_shown(o, n, "Error: "@ + "Device '"@ + name + "' not found"@),
                },
            },
        }
    }
}

/// Saving every configuration: refused without an export directory; otherwise all of
/// them are handed over to be written into it (or the error is shown).
pub open spec fn all_saved(o: App, n: App, r: Request) -> bool {
    let dir = o.export_dir@.0;
    if dir.len() == 0 {
        r is Nothing && status_shown(o, n, empty_export_dir_text())
    } else {
        match o.manager.loaded() {
            None => r is Nothing && status_shown(o, n, "Error: "@ + error_text(ManagerError::NotInitialized)),
            Some(l) => {
                &&& r matches Request::SaveAll { dir: d, configs } && d@ == dir && all_configs(l, configs@)
                &&& n.pending matches Some(Pending::All { dir: d }) && d@ == dir
                &&& n == (App { pending: n.pending, ..o })
            },
        }
    }
}

/// The device list: `q` quits; Up/`k`, Down/`j`, Home and End move the selection; `a`
/// asks which kind of device to add, `e` edits and `d` deletes the selected device; `s`
/// saves its configuration, `g` saves all; Page Up and Page Down scroll the details;
/// other keys do nothing.
pub open spec fn list_key_handled(o: App, n: App, key: Key, r: Request) -> bool {
    let total = o.total_devices();
    if is_char(key, 'q') {
        r is Nothing && n == (App { should_quit: true, ..o })
    } else if key.code == KeyCode::Up || is_char(key, 'k') {
        r is Nothing && if o.device_index > 0 {
            selection_moved(o, n, (o.device_index - 1) as usize)
        } else {
            n == o
        }
    } else if key.code == KeyCode::Down || is_char(key, 'j') {
        r is Nothing && if total > 0 && o.device_index < total - 1 {
            selection_moved(o, n, (o.device_index + 1) as usize)
        } else {
            n == o
        }
    } else if key.code == KeyCode::Home {
        r is Nothing && selection_moved(o, n, 0)
    } else if key.code == KeyCode::End {
        r is Nothing && if total > 0 {
            selection_moved(o, n, (total - 1) as usize)
        } else {
            n == o
        }
    } else if is_char(key, 'a') {
        r is Nothing && n == (App { mode: Mode::ChooseDeviceType, ..o })
    } else if is_char(key, 'e') {
        r is Nothing && edit_form_of_selected_opened(o, n)
    } else if is_char(key, 'd') {
        r is Nothing && delete_dialog_opened(o, n)
    } else if is_char(key, 's') {
        selected_saved(o, n, r)
    } else if is_char(key, 'g') {
        all_saved(o, n, r)
    } else if key.code == KeyCode::PageUp {
        r is Nothing && n == (App { detail_scroll: if o.detail_scroll > 0 { (o.detail_scroll - 1) as u16 } else { 0 }, ..o })
    } else if key.code == KeyCode::PageDown {
        r is Nothing && n == (App {
            detail_scroll: if o.detail_scroll < u16::MAX { (o.detail_scroll + 1) as u16 } else { u16::MAX },
            ..o
        })
    } else {
        r is Nothing && n == o
    }
}

/// Keys on the device list keep the selection within the list: an index below the number
/// of devices (or zero when there are none) stays so, and the device lists do not change.
pub proof fn law_list_keys_keep_selection(o: App, n: App, key: Key, r: Request)
    requires
        list_key_handled(o, n, key, r),
        o.device_index < o.total_devices() || o.device_index == 0,
    ensures
        n.servers == o.servers,
        n.clients == o.clients,
        n.device_index < n.total_devices() || n.device_index == 0,
{
}

/// The movement keys on the device list: Up (or `k`) selects the row above, stopping at
/// the first; Down (or `j`) the row below, stopping at the last; Home the first row; End
/// the last. When the selection moves, the newly selected row's device becomes the one
/// shown, with both panels scrolled back to the top; the device lists do not change.
pub proof fn law_list_movement(o: App, n: App, key: Key, r: Request)
    requires
        list_key_handled(o, n, key, r),
        o.servers@.len() + o.clients@.len() <= usize::MAX,
        o.device_index < o.servers@.len() + o.clients@.len() || o.device_index == 0,
        !is_char(key, 'q'),
        key.code == KeyCode::Up || is_char(key, 'k') || key.code == KeyCode::Down || is_char(key, 'j')
            || key.code == KeyCode::Home || key.code == KeyCode::End,
    ensures
        ({
            let i = o.device_index as int;
            let t = o.servers@.len() + o.clients@.len();
            let want: int = if key.code == KeyCode::Up || is_char(key, 'k') {
                if i > 0 { i - 1 } else { i }
            } else if key.code == KeyCode::Down || is_char(key, 'j') {
                if i + 1 < t { i + 1 } else { i }
            } else if key.code == KeyCode::Home {
                0
            } else {
                if t > 0 { t - 1 } else { i }
            };
            &&& r is Nothing
            &&& n.device_index == want
            &&& n.servers == o.servers
            &&& n.clients == o.clients
            &&& want != i ==> {
                &&& n.detail_scroll == 0
                &&& n.config_scroll == 0
                &&& (n.selected_device_name matches Some(y) && Some(y@) == o.device_name_at_spec(want as usize))
            }
        }),
{
    let i = o.device_index as int;
    let t = o.servers@.len() + o.clients@.len();
    assert(o.total_devices() == t);
    let want: int = if key.code == KeyCode::Up || is_char(key, 'k') {
        if i > 0 { i - 1 } else { i }
    } else if key.code == KeyCode::Down || is_char(key, 'j') {
        if i + 1 < t { i + 1 } else { i }
    } else if key.code == KeyCode::Home {
        0
    } else {
        if t > 0 { t - 1 } else { i }
    };
    if want != i {
        let o2 = App { device_index: want as usize, ..o };
        assert(o2.device_name_at_spec(o2.device_index) == o.device_name_at_spec(want as usize));
    }
}

/// Choosing the kind of device to add: `s` opens the server form, `c` the client form
/// (each back from the chooser), Esc cancels; other keys do nothing.
pub open spec fn chooser_key_handled(o: App, n: App, key: Key) -> bool {
    if is_char(key, 's') || is_char(key, 'S') {
        server_form_opened(App { mode: Mode::Normal, ..o }, n)
    } else if is_char(key, 'c') || is_char(key, 'C') {
        client_form_opened(App { mode: Mode::Normal, ..o }, n)
    } else if key.code == KeyCode::Esc {
        n == (App { mode: Mode::Normal, ..o })
    } else {
        n == o
    }
}

/// What submitting the open form does, by form.
pub open spec fn form_submitted(o: App, n: App, env: Env, r: Request) -> bool {
    match o.mode {
        Mode::InitNetwork => init_submitted(o, n, env, r),
        Mode::AddServer => server_add_submitted(o, n, r),
        Mode::AddClient => client_add_submitted(o, n, r),
        Mode::EditServer { name } => server_edit_submitted(o, n, name@, r),
        Mode::EditClient { name } => client_edit_submitted(o, n, name@, r),
        Mode::EditNetworkConfig => network_edit_submitted(o, n, env, r),
        _ => r is Nothing && n == o,
    }
}

/// A form: Esc cancels; Tab and Shift+Tab move the focus; Enter moves to the next field,
/// submits on Submit, cancels on Cancel; other keys edit the focused field.
pub open spec fn form_key_handled(o: App, n: App, key: Key, env: Env, r: Request) -> bool {
    let len = o.form_fields@.len();
    if key.code == KeyCode::Esc {
        r is Nothing && n == (App { mode: Mode::Normal, ..o })
    } else if key.code == KeyCode::Tab {
        r is Nothing && n == (App { form_focus: focus_after_tab(o.form_focus, len), ..o })
    } else if key.code == KeyCode::BackTab {
        r is Nothing && n == (App { form_focus: focus_after_backtab(o.form_focus, len), ..o })
    } else if key.code == KeyCode::Enter {
        match o.form_focus {
            FormFocus::Field(_) => r is Nothing && n == (App { form_focus: focus_after_tab(o.form_focus, len), ..o }),
            FormFocus::Submit => form_submitted(o, n, env, r),
            FormFocus::Cancel => r is Nothing && n == (App { mode: Mode::Normal, ..o }),
        }
    } else {
        r is Nothing && match o.form_focus {
            FormFocus::Field(i) => if i < len {
                &&& n.form_fields@.len() == len
                &&& n.form_fields@[i as int]@ == edited(o.form_fields@[i as int]@, key)
                &&& forall|j: int| 0 <= j < len && j != i ==> #[trigger] n.form_fields@[j] == o.form_fields@[j]
                &&& n == (App { form_fields: n.form_fields, ..o })
            } else {
                n == o
            },
            _ => n == o,
        }
    }
}

/// A confirmation dialog: `y` deletes the device (or opens the init form, forced, to
/// reinitialize); `n` or Esc cancels; other keys do nothing.
pub open spec fn confirm_key_handled(o: App, n: App, key: Key, r: Request) -> bool {
    if is_char(key, 'y') || is_char(key, 'Y') {
        match o.mode {
            Mode::ConfirmDelete { name, device_type } => delete_confirmed(o, n, name@, device_type@, r),
            Mode::ConfirmReinit => r is Nothing && init_form_opened(App { force_init: true, ..o }, n),
            _ => r is Nothing && n == o,
        }
    } else if is_char(key, 'n') || is_char(key, 'N') || key.code == KeyCode::Esc {
        r is Nothing && n == (App { mode: Mode::Normal, ..o })
    } else {
        r is Nothing && n == o
    }
}

/// Leaving the overview's export-directory edit, if it was under way: the directory is
/// restored and editing stops.
pub open spec fn export_edit_dropped(o: App, n: App) -> bool {
    if o.editing_export_dir {
        n.export_dir@ == (o.export_dir_backup@, o.export_dir_backup@.len())
    } else {
        n.export_dir == o.export_dir
    }
}

/// Browsing: `?` opens help; Tab and Shift+Tab cycle the panels (dropping an unfinished
/// export-directory edit); Control+I opens the init form, or asks to reinitialize an
/// existing network; Control+E opens the network form, or says that there is no network;
/// other keys go to the focused panel.
pub open spec fn normal_key_handled(o: App, n: App, key: Key, env: Env, r: Request) -> bool {
    if is_char(key, '?') {
        r is Nothing && n == (App { mode: Mode::Help, ..o })
    } else if key.code == KeyCode::Tab || key.code == KeyCode::BackTab {
        &&& r is Nothing
        &&& export_edit_dropped(o, n)
        &&& n == (App {
            panel: if key.code == KeyCode::Tab { o.panel.spec_next() } else { o.panel.spec_prev() },
            export_dir: n.export_dir,
            editing_export_dir: false,
            ..o
        })
    } else if key.ctrl && is_char(key, 'i') {
        r is Nothing && if o.network_info is None {
            init_form_opened(App { force_init: false, ..o }, n)
        } else {
            n == (App { mode: Mode::ConfirmReinit, ..o })
        }
    } else if key.ctrl && is_char(key, 'e') {
        r is Nothing && if o.network_info is None {
            status_shown(o, n, not_initialized_text())
        } else {
            network_form_opened(o, n)
        }
    } else {
        match o.panel {
            Panel::OverallInfo => r is Nothing && info_key_handled(o, n, key),
            Panel::DeviceList => list_key_handled(o, n, key, r),
            Panel::ConfigPreview => r is Nothing && preview_key_handled(o, n, key),
        }
    }
}

/// What a key does: Control+C quits from anywhere; otherwise the current mode decides.
pub open spec fn key_handled(o: App, n: App, key: Key, env: Env, r: Request) -> bool {
    if key.ctrl && is_char(key, 'c') {
        r is Nothing && n == (App { should_quit: true, ..o })
    } else {
        match o.mode {
            Mode::Normal => normal_key_handled(o, n, key, env, r),
            Mode::Help => r is Nothing && help_key_handled(o, n, key),
            Mode::ChooseDeviceType => r is Nothing && chooser_key_handled(o, n, key),
            Mode::ConfirmDelete { .. } | Mode::ConfirmReinit => confirm_key_handled(o, n, key, r),
            _ => form_key_handled(o, n, key, env, r),
        }
    }
}

impl App {
    fn cancel_export_dir_edit(&mut self)
        ensures
            final(self).export_dir@ == (old(self).export_dir_backup@, old(self).export_dir_backup@.len()),
            !final(self).editing_export_dir,
            *final(self) == (App {
                export_dir: final(self).export_dir,
                editing_export_dir: false,
                ..*old(self)
            }),
    {
        self.export_dir = TextInput::with_value(self.export_dir_backup.as_str());
        self.editing_export_dir = false;
    }

    /// Handles a key: Control+C quits from anywhere; otherwise the handler of the current
    /// mode decides.
    pub fn handle_key(&mut self, key: Key, env: &Env) -> (r: Request)
        ensures
            key_handled(*old(self), *final(self), key, *env, r),
    {
        if key.ctrl && key.code == KeyCode::Char('c') {
            self.should_quit = true;
            return Request::Nothing;
        }
        match &self.mode {
            Mode::Normal => self.handle_normal_key(key, env),
            Mode::Help => {
                self.handle_help_key(key);
                Request::Nothing
            },
            Mode::InitNetwork | Mode::AddServer | Mode::AddClient | Mode::EditServer { .. } | Mode::EditClient {
                ..
            } | Mode::EditNetworkConfig => self.handle_form_key(key, env),
            Mode::ConfirmDelete { .. } | Mode::ConfirmReinit => self.handle_confirm_key(key),
            Mode::ChooseDeviceType => {
                self.handle_choose_device_type_key(key);
                Request::Nothing
            },
        }
    }

    /// Browsing: `?` opens help, Tab and Shift+Tab cycle the panels (dropping an unfinished
    /// export-directory edit), Control+I initializes (or asks to reinitialize), Control+E
    /// edits the network; other keys go to the focused panel.
    pub fn handle_normal_key(&mut self, key: Key, env: &Env) -> (r: Request)
        ensures
            normal_key_handled(*old(self), *final(self), key, *env, r),
    {
        match key.code {
            KeyCode::Char('?') => {
                self.mode = Mode::Help;
                return Request::Nothing;
            },
            KeyCode::Tab => {
                if self.editing_export_dir {
                    self.cancel_export_dir_edit();
                }
                self.panel = self.panel.next();
                return Request::Nothing;
            },
            KeyCode::BackTab => {
                if self.editing_export_dir {
                    self.cancel_export_dir_edit();
                }
                self.panel = self.panel.prev();
                return Request::Nothing;
            },
            _ => {},
        }
        if key.ctrl && key.code == KeyCode::Char('i') {
            if self.network_info.is_none() {
                self.force_init = false;
                self.open_init_form();
            } else {
                self.mode = Mode::ConfirmReinit;
            }
            return Request::Nothing;
        }
        if key.ctrl && key.code == KeyCode::Char('e') {
            if self.network_info.is_some() {
                self.open_edit_network_form();
            } else {
                self.set_status("Network not initialized. Press CTRL+I to initialize first.");
            }
            return Request::Nothing;
        }
        match self.panel {
            Panel::OverallInfo => {
                self.handle_info_panel_key(key);
                Request::Nothing
            },
            Panel::DeviceList => self.handle_device_list_key(key),
            Panel::ConfigPreview => {
                self.handle_config_preview_key(key);
                Request::Nothing
            },
        }
    }

    /// The configuration preview: Up/`k` and Down/`j` scroll, `q` quits.
    pub fn handle_config_preview_key(&mut self, key: Key)
        ensures
            preview_key_handled(*old(self), *final(self), key),
    {
        match key.code {
            KeyCode::Up | KeyCode::Char('k') => {
                self.config_scroll = self.config_scroll.saturating_sub(1);
            },
            KeyCode::Down | KeyCode::Char('j') => {
                self.config_scroll = self.config_scroll.saturating_add(1);
            },
            KeyCode::Char('q') => {
                self.should_quit = true;
            },
            _ => {},
        }
    }

    /// The overview panel. While the export directory is being edited: Control+U clears
    /// it, Enter accepts it unless it is blank, Esc restores it, other keys edit it.
    /// Otherwise Control+O starts editing and `q` quits.
    pub fn handle_info_panel_key(&mut self, key: Key)
        ensures
            info_key_handled(*old(self), *final(self), key),
    {
        if self.editing_export_dir {
            if key.ctrl && key.code == KeyCode::Char('u') {
                self.export_dir.clear();
                return;
            }
            match key.code {
                KeyCode::Enter => {
                    if is_blank(self.export_dir.value()) {
                        self.set_status("Export directory cannot be empty.");
                    } else {
                        self.editing_export_dir = false;
                    }
                },
                KeyCode::Esc => {
                    self.cancel_export_dir_edit();
                },
                _ => {
                    edit_input(&mut self.export_dir, key);
                },
            }
        } else {
            if key.ctrl && key.code == KeyCode::Char('o') {
                self.export_dir_backup = self.export_dir.value().to_owned();
                self.editing_export_dir = true;
                return;
            }
            if key.code == KeyCode::Char('q') {
                self.should_quit = true;
            }
        }
    }

    /// The device list: `q` quits; Up/`k`, Down/`j`, Home and End move the selection
    /// (refreshing the selected device when it moves); `a` adds, `e` edits, `d` deletes
    /// the selected device; `s` saves its configuration, `g` saves all; Page Up and Page Down
    /// scroll the details.
    pub fn handle_device_list_key(&mut self, key: Key) -> (r: Request)
        ensures
            list_key_handled(*old(self), *final(self), key, r),
    {
        let total = self.device_count();
        match key.code {
            KeyCode::Char('q') => {
                self.should_quit = true;
                Request::Nothing
            },
            KeyCode::Up | KeyCode::Char('k') => {
                if self.device_index > 0 {
                    self.device_index = self.device_index - 1;
                    self.update_selected_device();
                }
                Request::Nothing
            },
            KeyCode::Down | KeyCode::Char('j') => {
                if total > 0 && self.device_index < total - 1 {
                    self.device_index = self.device_index + 1;
                    self.update_selected_device();
                }
                Request::Nothing
            },
            KeyCode::Home => {
                if self.device_index != 0 {
                    self.device_index = 0;
                    self.update_selected_device();
                }
                Request::Nothing
            },
            KeyCode::End => {
                if total > 0 {
                    let last = total - 1;
                    if self.device_index != last {
                        self.device_index = last;
                        self.update_selected_device();
                    }
                }
                Request::Nothing
            },
            KeyCode::Char('a') => {
                self.mode = Mode::ChooseDeviceType;
                Request::Nothing
            },
            KeyCode::Char('e') => {
                self.open_edit_selected();
                Request::Nothing
            },
            KeyCode::Char('d') => {
                self.open_delete_selected();
                Request::Nothing
            },
            KeyCode::Char('s') => self.generate_and_save_selected(),
            KeyCode::Char('g') => self.generate_all(),
            KeyCode::PageUp => {
                self.detail_scroll = self.detail_scroll.saturating_sub(1);
                Request::Nothing
            },
            KeyCode::PageDown => {
                self.detail_scroll = self.detail_scroll.saturating_add(1);
                Request::Nothing
            },
            _ => Request::Nothing,
        }
    }

    /// Choosing the kind of device to add: `s` for a server, `c` for a client, Esc
    /// cancels.
    pub fn handle_choose_device_type_key(&mut self, key: Key)
        ensures
            chooser_key_handled(*old(self), *final(self), key),
    {
        match key.code {
            KeyCode::Char('s') | KeyCode::Char('S') => {
                self.mode = Mode::Normal;
                self.open_add_server_form();
            },
            KeyCode::Char('c') | KeyCode::Char('C') => {
                self.mode = Mode::Normal;
                self.open_add_client_form();
            },
            KeyCode::Esc => {
                self.mode = Mode::Normal;
            },
            _ => {},
        }
    }

    /// Hands the selected device's configuration to the caller for saving in the export
    /// directory.
    fn generate_and_save_selected(&mut self) -> (r: Request)
        ensures
            selected_saved(*old(self), *final(self), r),
    {
        let dir = self.export_dir.value().to_owned();
        if crate::text::chars_of(dir.as_str()).len() == 0 {
            self.set_status("Export directory is empty. Set it in the top-left panel.");
            return Request::Nothing;
        }
        let name = match self.device_name_at(self.device_index) {
            Some(n) => n.to_owned(),
            None => return Request::Nothing,
        };
        match self.manager.generate_config(name.as_str()) {
            Ok(content) => {
                let path = config_path(dir.as_str(), name.as_str());
                self.pending = Some(Pending::Config { name: name.clone(), content: content.clone(), path });
                Request::SaveConfig { dir, name, content }
            },
            Err(e) => {
                let mut text = "Error: ".to_owned();
                let m = e.message();
                crate::text::push_str(&mut text, m.as_str());
                proof {
                    if let ManagerError::DeviceNotFound { name: x } = e {
                        assert(text@ =~= "Error: "@ + "Device '"@ + name@ + "' not found"@);
                    }
                }
                self.set_status(text.as_str());
                Request::Nothing
            },
        }
    }

    /// Hands every device's configuration to the caller for saving in the export
    /// directory.
    fn generate_all(&mut self) -> (r: Request)
        ensures
            all_saved(*old(self), *final(self), r),
    {
        let dir = self.export_dir.value().to_owned();
        if crate::text::chars_of(dir.as_str()).len() == 0 {
            self.set_status("Export directory is empty. Set it in the top-left panel.");
            return Request::Nothing;
        }
        match self.manager.generate_all_configs() {
            Ok(configs) => {
                self.pending = Some(Pending::All { dir: dir.clone() });
                Request::SaveAll { dir, configs }
            },
            Err(e) => {
                let mut text = "Error: ".to_owned();
                let m = e.message();
                crate::text::push_str(&mut text, m.as_str());
                self.set_status(text.as_str());
                Request::Nothing
            },
        }
    }

    /// A form: Esc cancels; Tab and Shift+Tab move the focus; Enter moves to the next
    /// field, submits on Submit, cancels on Cancel; other keys edit the focused field.
    pub fn handle_form_key(&mut self, key: Key, env: &Env) -> (r: Request)
        ensures
            form_key_handled(*old(self), *final(self), key, *env, r),
    {
        let n = self.form_fields.len();
        match key.code {
            KeyCode::Esc => {
                self.mode = Mode::Normal;
                Request::Nothing
            },
            KeyCode::Tab => {
                self.form_focus = match self.form_focus {
                    FormFocus::Field(i) => if i < n && n - i > 1 {
                        FormFocus::Field(i + 1)
                    } else {
                        FormFocus::Submit
                    },
                    FormFocus::Submit => FormFocus::Cancel,
                    FormFocus::Cancel => FormFocus::Field(0),
                };
                Request::Nothing
            },
            KeyCode::BackTab => {
                self.form_focus = match self.form_focus {
                    FormFocus::Field(i) => if i == 0 {
                        FormFocus::Cancel
                    } else {
                        FormFocus::Field(i - 1)
                    },
                    FormFocus::Submit => FormFocus::Field(n.saturating_sub(1)),
                    FormFocus::Cancel => FormFocus::Submit,
                };
                Request::Nothing
            },
            KeyCode::Enter => match self.form_focus {
                FormFocus::Field(i) => {
                    self.form_focus = if i < n && n - i > 1 {
                        FormFocus::Field(i + 1)
                    } else {
                        FormFocus::Submit
                    };
                    Request::Nothing
                },
                FormFocus::Submit => self.submit_form(env),
                FormFocus::Cancel => {
                    self.mode = Mode::Normal;
                    Request::Nothing
                },
            },
            _ => {
                match self.form_focus {
                    FormFocus::Field(i) => {
                        if i < n {
                            let ghost before = self.form_fields@;
                            let mut field = self.form_fields.remove(i);
                            edit_input(&mut field, key);
                            self.form_fields.insert(i, field);
                            proof {
                                assert forall|j: int| 0 <= j < before.len() && j != i implies #[trigger] self.form_fields@[j]
                                    == before[j] by {
                                    if j < i {
                                    } else {
                                    }
                                }
                            }
                        }
                    },
                    _ => {},
                }
                Request::Nothing
            },
        }
    }

    /// Submits the open form.
    fn submit_form(&mut self, env: &Env) -> (r: Request)
        ensures
            form_submitted(*old(self), *final(self), *env, r),
    {
        match &self.mode {
            Mode::InitNetwork => self.submit_init(env),
            Mode::AddServer => self.submit_add_server(),
            Mode::AddClient => self.submit_add_client(),
            Mode::EditServer { name } => {
                let n = name.clone();
                self.submit_edit_server(n.as_str())
            },
            Mode::EditClient { name } => {
                let n = name.clone();
                self.submit_edit_client(n.as_str())
            },
            Mode::EditNetworkConfig => self.submit_edit_network(env),
            _ => Request::Nothing,
        }
    }

    /// A confirmation dialog: `y` deletes the device (or opens the forced init form);
    /// `n` or Esc cancels.
    pub fn handle_confirm_key(&mut self, key: Key) -> (r: Request)
        ensures
            confirm_key_handled(*old(self), *final(self), key, r),
    {
        match key.code {
            KeyCode::Char('y') | KeyCode::Char('Y') => match &self.mode {
                Mode::ConfirmDelete { name, device_type } => {
                    let n = name.clone();
                    let t = device_type.clone();
                    self.confirm_delete(n.as_str(), t.as_str())
                },
                Mode::ConfirmReinit => {
                    self.force_init = true;
                    self.open_init_form();
                    Request::Nothing
                },
                _ => Request::Nothing,
            },
            KeyCode::Char('n') | KeyCode::Char('N') | KeyCode::Esc => {
                self.mode = Mode::Normal;
                Request::Nothing
            },
            _ => Request::Nothing,
        }
    }

    /// The help overlay: Esc, `?` or `q` closes it.
    pub fn handle_help_key(&mut self, key: Key)
        ensures
            help_key_handled(*old(self), *final(self), key),
    {
        match key.code {
            KeyCode::Esc | KeyCode::Char('?') | KeyCode::Char('q') => {
                self.mode = Mode::Normal;
            },
            _ => {},
        }
    }
}

} // verus!
