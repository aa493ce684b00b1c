//! The interface's state: the manager, the panels, the open form or dialog, the cached
//! device lists and the operation log.

use vstd::prelude::*;
use crate::tui::input::TextInput;
use crate::tui::layout::{Panel, FormFocus};
use crate::manager::ops::{WireGuardManager, network_info_of, device_info_of, config_of};
use crate::manager::types::{ServerEntry, ClientEntry, NetworkInfo, DeviceInfo, OperationResult, first_success};
use crate::manager::errors::ManagerError;

verus! {

/// A key, as the interface reads it.
#[derive(Clone, Copy, Debug, PartialEq, Eq, Structural)]
pub enum KeyCode {
    Char(char),
    Tab,
    BackTab,
    Enter,
    Esc,
    Backspace,
    Delete,
    Left,
    Right,
    Up,
    Down,
    Home,
    End,
    PageUp,
    PageDown,
    Other,
}

/// A key press: the key and whether Control was held.
#[derive(Clone, Copy, Debug, PartialEq, Eq, Structural)]
pub struct Key {
    pub code: KeyCode,
    pub ctrl: bool,
}

/// The interaction mode: browsing, a form, a dialog, or the help overlay.
#[derive(Clone, Debug)]
pub enum Mode {
    Normal,
    InitNetwork,
    AddServer,
    AddClient,
    EditServer { name: String },
    EditClient { name: String },
    ConfirmDelete { name: String, device_type: String },
    ConfirmReinit,
    EditNetworkConfig,
    ChooseDeviceType,
    Help,
}

/// What the caller knows of the data file when a key is handled: whether it exists, and
/// the path a backup made now would take.
pub struct Env {
    pub data_file_exists: bool,
    pub backup_path: String,
}

/// Work that handling a key leaves to the caller, who performs it and reports back.
pub enum Request {
    /// Nothing to do.
    Nothing,
    /// The program stops here: the network's size cannot be computed (see
    /// [`WireGuardManager::show_defined`]).
    Abort,
    /// Copy the data file to `backup` (if given), then write the data; report with
    /// [`App::finish_persist`].
    Persist { backup: Option<String> },
    /// Create `dir` and write `content` to `dir/name.conf`; report with
    /// [`App::finish_save_config`].
    SaveConfig { dir: String, name: String, content: String },
    /// Create `dir` and write each configuration to `dir/name.conf`; report with
    /// [`App::finish_save_all`].
    SaveAll { dir: String, configs: Vec<(String, String)> },
}

/// How writing one configuration file went.
pub enum SaveOutcome {
    Saved,
    DirectoryFailed(String),
    WriteFailed(String),
}

/// What completes an operation once its data is written.
#[derive(Clone, Copy, Debug, PartialEq, Eq, Structural)]
pub enum AfterPersist {
    /// A form was submitted: back to browsing.
    Form,
    /// The network was (re)initialized: back to browsing, no longer forced.
    Init,
    /// A device was deleted: back to browsing, selection kept in range.
    Delete,
}

/// Work handed to the caller that is not yet reported back.
pub enum Pending {
    Operation { result: OperationResult, after: AfterPersist },
    Config { name: String, content: String, path: String },
    All { dir: String },
}

/// The whole state of the interface.
pub struct App {
    pub manager: WireGuardManager,
    pub panel: Panel,
    pub mode: Mode,
    pub should_quit: bool,
    /// Copies of the servers, in name order.
    pub servers: Vec<ServerEntry>,
    /// Copies of the clients, in name order.
    pub clients: Vec<ClientEntry>,
    pub network_info: Option<NetworkInfo>,
    /// Selected device: servers first, then clients.
    pub device_index: usize,
    pub form_fields: Vec<TextInput>,
    pub form_labels: Vec<&'static str>,
    pub form_focus: FormFocus,
    pub status: String,
    /// Whether the init form reinitializes an existing network.
    pub force_init: bool,
    pub export_dir: TextInput,
    pub editing_export_dir: bool,
    /// The export directory before editing began (restored by Esc).
    pub export_dir_backup: String,
    pub selected_device_info: Option<DeviceInfo>,
    pub selected_config: Option<String>,
    pub selected_device_name: Option<String>,
    pub detail_scroll: u16,
    pub config_scroll: u16,
    /// Operation log: (timestamp, message).
    pub logs: Vec<(String, String)>,
    pub pending: Option<Pending>,
}

/// `b` is a copy of server entry `a`.
pub open spec fn server_copy(a: ServerEntry, b: ServerEntry) -> bool {
    &&& b.name == a.name
    &&& b.ip == a.ip
    &&& b.public_ip == a.public_ip
    &&& b.listen_port == a.listen_port
    &&& b.private_key == a.private_key
    &&& b.public_key == a.public_key
    &&& b.preshared_keys@ == a.preshared_keys@
}

/// The statistics the manager reports, if it reports any.
pub open spec fn info_of(m: WireGuardManager) -> Option<NetworkInfo> {
    match m.loaded() {
        Some(l) => if l.data.servers@.len() <= u32::MAX && l.data.clients@.len() <= u32::MAX {
            Some(network_info_of(l))
        } else {
            None
        },
        None => None,
    }
}

/// The texts of the log messages.
pub open spec fn log_texts(logs: Seq<(String, String)>) -> Seq<Seq<char>> {
    logs.map_values(|e: (String, String)| e.1@)
}

/// The texts of an operation's messages.
pub open spec fn result_texts(r: OperationResult) -> Seq<Seq<char>> {
    r.messages@.map_values(|m: crate::manager::types::Message| m.text@)
}

/// The interface as it starts over `manager`, before its caches are loaded: browsing the
/// overview panel, nothing selected, no form, an empty status and log, the export
/// directory `output`.
pub open spec fn initial_app(o: App, manager: WireGuardManager) -> bool {
    &&& o.manager == manager
    &&& o.panel == Panel::OverallInfo
    &&& o.mode is Normal
    &&& !o.should_quit
    &&& o.servers@.len() == 0
    &&& o.clients@.len() == 0
    &&& o.network_info is None
    &&& o.device_index == 0
    &&& o.form_fields@.len() == 0
    &&& o.form_labels@.len() == 0
    &&& o.form_focus == FormFocus::Field(0)
    &&& o.status@.len() == 0
    &&& !o.force_init
    &&& o.export_dir@ == ("output"@, 6nat)
    &&& !o.editing_export_dir
    &&& o.export_dir_backup@ == "output"@
    &&& o.selected_device_info is None
    &&& o.selected_config is None
    &&& o.selected_device_name is None
    &&& o.detail_scroll == 0
    &&& o.config_scroll == 0
    &&& o.logs@.len() == 0
    &&& o.pending is None
}

/// The caches are reloaded from the manager: the statistics, copies of the servers and
/// clients in name order (kept as they were when nothing is loaded), then the selected
/// device's panels.
pub open spec fn data_refreshed(o: App, n: App) -> bool {
    &&& n.network_info == info_of(o.manager)
    &&& match o.manager.loaded() {
        Some(l) => {
            &&& n.servers@.len() == l.data.servers@.len()
            &&& forall|i: int| 0 <= i < l.data.servers@.len() ==> server_copy(l.data.servers@[i].1, #[trigger] n.servers@[i])
            &&& n.clients@.len() == l.data.clients@.len()
            &&& forall|i: int| 0 <= i < l.data.clients@.len() ==> #[trigger] n.clients@[i] == l.data.clients@[i].1
        },
        None => n.servers == o.servers && n.clients == o.clients,
    }
    &&& selected_refreshed(App { network_info: n.network_info, servers: n.servers, clients: n.clients, ..o }, n)
}

/// An operation's result is shown: its first success message in the status bar (the
/// status stays otherwise), all its messages appended to the log under one time stamp,
/// the earlier entries kept.
pub open spec fn result_shown(o: App, n: App, result: OperationResult) -> bool {
    &&& match first_success(result.messages@) {
        Some(i) => n.status@ == result.messages@[i].text@,
        None => n.status == o.status,
    }
    &&& log_texts(n.logs@) == log_texts(o.logs@) + result_texts(result)
    &&& n.logs@.len() == o.logs@.len() + result.messages@.len()
    &&& n.logs@.take(o.logs@.len() as int) == o.logs@
    &&& forall|i: int, j: int|
        #![trigger n.logs@[i], n.logs@[j]]
        o.logs@.len() <= i < n.logs@.len() && o.logs@.len() <= j < n.logs@.len() ==> n.logs@[i].0 == n.logs@[j].0
    &&& n == (App { status: n.status, logs: n.logs, ..o })
}

/// The panels of the selected device show it afresh: its name, details and configuration
/// (none when no device is at the selection), both scroll offsets at the top; nothing
/// else changes.
pub open spec fn selected_refreshed(o: App, n: App) -> bool {
    &&& n.detail_scroll == 0
    &&& n.config_scroll == 0
    &&& match o.device_name_at_spec(o.device_index) {
        Some(x) => {
            &&& n.selected_device_name matches Some(y) && y@ == x
            &&& n.selected_device_info == match o.manager.loaded() {
                Some(l) => device_info_of(l, x),
                None => None,
            }
            &&& match o.manager.loaded() {
                Some(l) => match config_of(l, x) {
                    Some(t) => n.selected_config matches Some(c) && c@ == t,
                    None => n.selected_config is None,
                },
                None => n.selected_config is None,
            }
        },
        None => {
            &&& n.selected_device_name is None
            &&& n.selected_device_info is None
            &&& n.selected_config is None
        },
    }
    &&& n == (App {
        detail_scroll: n.detail_scroll,
        config_scroll: n.config_scroll,
        selected_device_name: n.selected_device_name,
        selected_device_info: n.selected_device_info,
        selected_config: n.selected_config,
        ..o
    })
}

fn log_stamp() -> (r: String) {
    crate::clock::log_time()
}

impl App {
    /// The number of devices (saturated at `usize::MAX`, which two lists in memory never
    /// reach together).
    pub open spec fn total_devices(&self) -> int {
        if self.servers@.len() + self.clients@.len() > usize::MAX {
            usize::MAX as int
        } else {
            (self.servers@.len() + self.clients@.len()) as int
        }
    }

    /// The selected index kept within the device list.
    pub open spec fn clamped_index(&self) -> int {
        let total = self.total_devices();
        if total == 0 {
            0
        } else if self.device_index >= total {
            total - 1
        } else {
            self.device_index as int
        }
    }

    /// The number of devices, servers and clients together.
    pub fn device_count(&self) -> (r: usize)
        ensures
            r == self.total_devices(),
    {
        self.servers.len().saturating_add(self.clients.len())
    }

    /// The name of the device at `index`: servers first, then clients.
    pub fn device_name_at(&self, index: usize) -> (r: Option<&str>)
        ensures
            if index < self.servers@.len() {
                r matches Some(n) && n@ == self.servers@[index as int].name@
            } else if index - self.servers@.len() < self.clients@.len() {
                r matches Some(n) && n@ == self.clients@[index - self.servers@.len()].name@
            } else {
                r is None
            },
    {
        if index < self.servers.len() {
            Some(self.servers[index].name.as_str())
        } else {
            let j = index - self.servers.len();
            if j < self.clients.len() {
                Some(self.clients[j].name.as_str())
            } else {
                None
            }
        }
    }

    /// Whether the device at `index` is a server.
    pub fn is_server_at(&self, index: usize) -> (r: bool)
        ensures
            r == (index < self.servers@.len()),
    {
        index < self.servers.len()
    }

    /// Keeps the selection within the device list: the last device when it points past
    /// the end, the first when there are no devices.
    pub fn clamp_device_index(&mut self)
        ensures
            final(self).device_index == old(self).clamped_index(),
            *final(self) == (App { device_index: final(self).device_index, ..*old(self) }),
    {
        let total = self.device_count();
        if total == 0 {
            self.device_index = 0;
        } else if self.device_index >= total {
            self.device_index = total - 1;
        }
    }

    /// Shows `msg` in the status bar and appends it to the log with the current time.
    pub fn set_status(&mut self, msg: &str)
        ensures
            final(self).status@ == msg@,
            final(self).logs@.len() == old(self).logs@.len() + 1,
            log_texts(final(self).logs@) == log_texts(old(self).logs@).push(msg@),
            final(self).logs@.drop_last() == old(self).logs@,
            *final(self) == (App { status: final(self).status, logs: final(self).logs, ..*old(self) }),
    {
        let stamp = log_stamp();
        let ghost before = self.logs@;
        self.logs.push((stamp, msg.to_owned()));
        self.status = msg.to_owned();
        proof {
            assert(log_texts(self.logs@) =~= log_texts(before).push(msg@));
            assert(self.logs@.drop_last() =~= before);
        }
    }

    /// Shows the operation's success text (if any) in the status bar and logs all its
    /// messages with the current time.
    pub fn handle_operation_result(&mut self, result: &OperationResult)
        ensures
            result_shown(*old(self), *final(self), *result),
    {
        match result.success_text() {
            Some(text) => {
                self.status = text.to_owned();
            },
            None => {},
        }
        let ghost st = self.status;
        let stamp = log_stamp();
        let ghost start = log_texts(self.logs@);
        let ghost old_logs = self.logs@;
        let n = result.messages.len();
        let mut i: usize = 0;
        while i < n
            invariant
                n == result.messages@.len(),
                i <= n,
                log_texts(self.logs@) == start + result_texts(*result).take(i as int),
                old_logs == old(self).logs@,
                self.logs@.len() == old_logs.len() + i,
                self.logs@.take(old_logs.len() as int) == old_logs,
                forall|k: int| old_logs.len() <= k < self.logs@.len() ==> (#[trigger] self.logs@[k]).0 == stamp,
                self.status == st,
                *self == (App { status: self.status, logs: self.logs, ..*old(self) }),
            decreases n - i,
        {
            let ghost before = log_texts(self.logs@);
            let ghost prev = self.logs@;
            self.logs.push((stamp.clone(), result.messages[i].text.clone()));
            proof {
                assert(self.logs@.take(old_logs.len() as int) =~= prev.take(old_logs.len() as int));
                assert forall|k: int| old_logs.len() <= k < self.logs@.len() implies (#[trigger] self.logs@[k]).0 == stamp by {
                    if k < prev.len() {
                        assert(self.logs@[k] == prev[k]);
                    }
                }
                assert(log_texts(self.logs@) =~= before.push(result.messages@[i as int].text@));
                assert(result_texts(*result).take(i + 1) =~= result_texts(*result).take(i as int).push(
                    result.messages@[i as int].text@,
                ));
            }
            i = i + 1;
        }
        proof {
            assert(result_texts(*result).take(n as int) =~= result_texts(*result));
        }
    }

    /// Refreshes the panels that show the selected device: its name, details and
    /// configuration, with both scroll offsets back at the top.
    pub fn update_selected_device(&mut self)
        ensures
            selected_refreshed(*old(self), *final(self)),
    {
        self.detail_scroll = 0;
        self.config_scroll = 0;
        let name = match self.device_name_at(self.device_index) {
            Some(n) => Some(n.to_owned()),
            None => None,
        };
        match name {
            Some(n) => {
                self.selected_device_info = match self.manager.show_device(n.as_str()) {
                    Ok(info) => Some(info),
                    Err(_) => None,
                };
                self.selected_config = match self.manager.generate_config(n.as_str()) {
                    Ok(text) => Some(text),
                    Err(_) => None,
                };
                self.selected_device_name = Some(n);
            },
            None => {
                self.selected_device_name = None;
                self.selected_device_info = None;
                self.selected_config = None;
            },
        }
    }

    /// The name of the device at `index` (spec form of [`App::device_name_at`]).
    pub open spec fn device_name_at_spec(&self, index: usize) -> Option<Seq<char>> {
        if index < self.servers@.len() {
            Some(self.servers@[index as int].name@)
        } else if index - self.servers@.len() < self.clients@.len() {
            Some(self.clients@[index - self.servers@.len()].name@)
        } else {
            None
        }
    }

    /// Reloads the network statistics and the device lists from the manager, then the
    /// selected device.
    pub fn refresh_data(&mut self)
        requires
            old(self).manager.show_defined(),
        ensures
            data_refreshed(*old(self), *final(self)),
    {
        self.network_info = match self.manager.show_network_config() {
            Ok(info) => Some(info),
            Err(_) => None,
        };
        match self.manager.list_devices() {
            Ok((servers, clients)) => {
                let mut s: Vec<ServerEntry> = Vec::new();
                let n = servers.len();
                let mut i: usize = 0;
                while i < n
                    invariant
                        n == servers@.len(),
                        i <= n,
                        s@.len() == i,
                        forall|j: int| 0 <= j < i ==> server_copy(servers@[j].1, #[trigger] s@[j]),
                    decreases n - i,
                {
                    s.push(servers.value_at(i).duplicate());
                    i = i + 1;
                }
                let mut c: Vec<ClientEntry> = Vec::new();
                let m = clients.len();
                let mut j: usize = 0;
                while j < m
                    invariant
                        m == clients@.len(),
                        j <= m,
                        c@.len() == j,
                        forall|k: int| 0 <= k < j ==> #[trigger] c@[k] == clients@[k].1,
                    decreases m - j,
                {
                    c.push(clients.value_at(j).duplicate());
                    j = j + 1;
                }
                self.servers = s;
                self.clients = c;
            },
            Err(_) => {},
        }
        self.update_selected_device();
    }

    /// Creates the interface over `manager`, browsing the overview panel, with the export
    /// directory `output`, and loads the caches.
    pub fn new(manager: WireGuardManager) -> (r: App)
        requires
            manager.show_defined(),
        ensures
            r.manager == manager,
            r.panel == Panel::OverallInfo,
            r.mode is Normal,
            !r.should_quit,
            r.network_info == info_of(manager),
            r.device_index == 0,
            r.export_dir@ == ("output"@, 6nat),
            !r.editing_export_dir,
            r.export_dir_backup@ == "output"@,
            r.logs@.len() == 0,
            r.pending is None,
            exists|o: App| initial_app(o, manager) && data_refreshed(o, r),
    {
        let mut app = App {
            manager,
            panel: Panel::OverallInfo,
            mode: Mode::Normal,
            should_quit: false,
            servers: Vec::new(),
            clients: Vec::new(),
            network_info: None,
            device_index: 0,
            form_fields: Vec::new(),
            form_labels: Vec::new(),
            form_focus: FormFocus::Field(0),
            status: String::new(),
            force_init: false,
            export_dir: TextInput::with_value("output"),
            editing_export_dir: false,
            export_dir_backup: "output".to_owned(),
            selected_device_info: None,
            selected_config: None,
            selected_device_name: None,
            detail_scroll: 0,
            config_scroll: 0,
            logs: Vec::new(),
            pending: None,
        };
        proof {
            reveal_strlit("output");
        }
        let ghost before = app;
        app.refresh_data();
        proof {
            assert(initial_app(before, manager) && data_refreshed(before, app));
        }
        app
    }
}

} // verus!
