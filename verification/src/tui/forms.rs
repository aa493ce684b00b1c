//! Opening and submitting the forms and dialogs of the interface.

use vstd::prelude::*;
use crate::text::{push_str, push_decimal, decimal, parse_u16, parse_u16_text};
use crate::tui::input::TextInput;
use crate::tui::layout::FormFocus;
use crate::tui::app::{
    App, Mode, Env, Request, Pending, AfterPersist, SaveOutcome, log_texts, info_of, result_shown, data_refreshed,
    selected_refreshed,
};
use crate::manager::types::OperationResult;
use crate::manager::errors::{ManagerError, error_text};
use crate::manager::range::{parse_server_range, range_value};
use crate::ipv4::ipnet_parse;
use crate::manager::ops::{
    init_spec, update_spec, parsed_net, add_client_spec, add_server_spec, edit_server_spec, edit_client_spec, delete_server_spec,
    delete_client_spec,
};

verus! {

/// The inputs hold these texts, each with the cursor at its end.
pub open spec fn inputs_hold(fields: Seq<TextInput>, values: Seq<Seq<char>>) -> bool {
    &&& fields.len() == values.len()
    &&& forall|i: int| 0 <= i < values.len() ==> #[trigger] fields[i]@ == (values[i], values[i].len())
}

/// The labels read these texts.
pub open spec fn labels_read(labels: Seq<&'static str>, values: Seq<Seq<char>>) -> bool {
    labels.map_values(|l: &'static str| l@) == values
}

/// `n` is `o` with a form open on these fields and labels, focus on the first field.
pub open spec fn form_open(o: App, n: App, values: Seq<Seq<char>>, labels: Seq<Seq<char>>) -> bool {
    &&& inputs_hold(n.form_fields@, values)
    &&& labels_read(n.form_labels@, labels)
    &&& n.form_focus == FormFocus::Field(0)
    &&& n == (App { form_fields: n.form_fields, form_labels: n.form_labels, form_focus: n.form_focus, mode: n.mode, ..o })
}

/// `n` is `o` with `text` shown in the status bar and appended to the log.
pub open spec fn status_shown(o: App, n: App, text: Seq<char>) -> bool {
    &&& n.status@ == text
    &&& log_texts(n.logs@) == log_texts(o.logs@).push(text)
    &&& n == (App { status: n.status, logs: n.logs, ..o })
}

/// The text shown when a form needs an initialized network.
pub open spec fn not_initialized_text() -> Seq<char> {
    "Network not initialized. Press CTRL+I to initialize first."@
}

/// How the interface takes a manager operation's result: a success waits for its data to
/// be written (when there is anything to write); a failure shows the error, leaving the
/// mode as it is except after a deletion.
pub open spec fn reacted(o: App, n: App, res: Result<OperationResult, ManagerError>, after: AfterPersist, r: Request) -> bool {
    match res {
        Ok(result) => if result.save_needed {
            &&& r matches Request::Persist { backup: b } && match result.backup_path {
                Some(p) => b matches Some(x) && x@ == p@,
                None => b is None,
            }
            &&& n.pending matches Some(Pending::Operation { result: x, after: a }) && x == result && a == after
            &&& n == (App { manager: n.manager, pending: n.pending, ..o })
        } else {
            operation_completed(o, n, result, after, r)
        },
        Err(e) => {
            &&& r is Nothing
            &&& n.status@ == "Error: "@ + error_text(e)
            &&& log_texts(n.logs@) == log_texts(o.logs@).push("Error: "@ + error_text(e))
            &&& n == (App {
                manager: n.manager,
                status: n.status,
                logs: n.logs,
                mode: if after == AfterPersist::Delete { Mode::Normal } else { o.mode },
                ..o
            })
        },
    }
}

/// The message shown for a server range that does not parse.
pub open spec fn invalid_range_text(raw: Seq<char>) -> Seq<char> {
    "Invalid server range '"@ + raw + "'. Use [START,END]"@
}

/// The init form is open, pre-filled with `10.0.0.0/24` and `[1,10]`.
pub open spec fn init_form_opened(o: App, n: App) -> bool {
    &&& form_open(o, n, seq!["10.0.0.0/24"@, "[1,10]"@], seq!["Subnet"@, "Server Range"@])
    &&& n.mode is InitNetwork
}

/// The network form is open, pre-filled with the current subnet and server range (empty
/// when there is no network).
pub open spec fn network_form_opened(o: App, n: App) -> bool {
    let values = match o.network_info {
        Some(info) => seq![
            info.subnet@,
            "["@ + decimal(info.server_range_offsets.0 as nat) + ","@ + decimal(info.server_range_offsets.1 as nat)
                + "]"@,
        ],
        None => seq![Seq::<char>::empty(), Seq::<char>::empty()],
    };
    &&& form_open(o, n, values, seq!["Subnet"@, "Server Range"@])
    &&& n.mode is EditNetworkConfig
}

/// The add-server form is open (name, public address, port `51820`), or the status says
/// that the network is not initialized.
pub open spec fn server_form_opened(o: App, n: App) -> bool {
    if o.network_info is None {
        status_shown(o, n, not_initialized_text())
    } else {
        &&& form_open(
            o,
            n,
            seq![Seq::<char>::empty(), Seq::<char>::empty(), "51820"@],
            seq!["Name"@, "Public IP"@, "Port"@],
        )
        &&& n.mode is AddServer
    }
}

/// The add-client form is open, or the status says that the network is not initialized.
pub open spec fn client_form_opened(o: App, n: App) -> bool {
    if o.network_info is None {
        status_shown(o, n, not_initialized_text())
    } else {
        &&& form_open(o, n, seq![Seq::<char>::empty()], seq!["Name"@])
        &&& n.mode is AddClient
    }
}

/// The form of the selected server is open (public address, port), if the selection is a
/// server; otherwise nothing changed.
pub open spec fn server_edit_form_opened(o: App, n: App) -> bool {
    if o.device_index < o.servers@.len() {
        let s = o.servers@[o.device_index as int];
        &&& form_open(o, n, seq![s.public_ip@, decimal(s.listen_port as nat)], seq!["Public IP"@, "Port"@])
        &&& n.mode matches Mode::EditServer { name: x } && x == s.name
    } else {
        n == o
    }
}

/// The form of the selected client is open (its name), if there is a client at that
/// place after the servers; otherwise nothing changed.
pub open spec fn client_edit_form_opened(o: App, n: App) -> bool {
    let j = if o.device_index >= o.servers@.len() {
        o.device_index - o.servers@.len()
    } else {
        0
    };
    if j < o.clients@.len() {
        let c = o.clients@[j];
        &&& form_open(o, n, seq![c.name@], seq!["New Name"@])
        &&& n.mode matches Mode::EditClient { name: x } && x == c.name
    } else {
        n == o
    }
}

/// The dialog that confirms deleting the selected device is open, if any device is
/// selected; otherwise nothing changed.
pub open spec fn delete_dialog_opened(o: App, n: App) -> bool {
    let i = o.device_index;
    let ns = o.servers@.len();
    let j = if i >= ns { i - ns } else { 0 };
    if o.total_devices() == 0 {
        n == o
    } else if i < ns {
        &&& n.mode matches Mode::ConfirmDelete { name: x, device_type: t } && x == o.servers@[i as int].name
            && t@ == "server"@
        &&& n == (App { mode: n.mode, ..o })
    } else if j < o.clients@.len() {
        &&& n.mode matches Mode::ConfirmDelete { name: x, device_type: t } && x == o.clients@[j].name
            && t@ == "client"@
        &&& n == (App { mode: n.mode, ..o })
    } else {
        n == o
    }
}

/// The edit form of the selected device is open: that of the server when the selection
/// is among the servers, else that of the client; nothing changed when there are no
/// devices.
pub open spec fn edit_form_of_selected_opened(o: App, n: App) -> bool {
    if o.total_devices() == 0 {
        n == o
    } else if o.device_index < o.servers@.len() {
        server_edit_form_opened(o, n)
    } else {
        client_edit_form_opened(o, n)
    }
}

/// The caches are reloaded after an operation; after a deletion the selection is then kept
/// within the list and the selected device shown afresh.
pub open spec fn caches_reloaded(b: App, n: App, after: AfterPersist) -> bool {
    if after == AfterPersist::Delete {
        exists|f: App| data_refreshed(b, f) && selected_refreshed(App { device_index: f.clamped_index() as usize, ..f }, n)
    } else {
        data_refreshed(b, n)
    }
}

/// An operation whose data is written completes: its result is shown, the interface is
/// back to browsing (no longer forcing a reinit after an init) and its caches are reloaded;
/// the program stops (`Abort`) instead where the statistics cannot be computed.
pub open spec fn operation_completed(o: App, n: App, result: OperationResult, after: AfterPersist, r: Request) -> bool {
    exists|s: App| #[trigger] result_shown(o, s, result) && {
        let b = App {
            mode: Mode::Normal,
            force_init: if after == AfterPersist::Init { false } else { o.force_init },
            ..s
        };
        if !o.manager.show_defined() {
            r is Abort && n == b
        } else {
            r is Nothing && caches_reloaded(b, n, after)
        }
    }
}

/// What submitting the init form does: with its two fields, a range that does not parse is
/// reported; otherwise the network is (re)initialized as [`init_spec`] says and the
/// interface takes the result. The program stops (`Abort`) where the network's size
/// cannot be computed, changing nothing.
pub open spec fn init_submitted(o: App, n: App, env: Env, r: Request) -> bool {
    if o.form_fields@.len() < 2 {
        n == o && r is Nothing
    } else {
        let subnet = o.form_fields@[0]@.0;
        let raw = o.form_fields@[1]@.0;
        match range_value(raw) {
            None => status_shown(o, n, invalid_range_text(raw)) && r is Nothing,
            Some(v) => if !(env.data_file_exists && !o.force_init) && (ipnet_parse(subnet) matches Some(x) && x.1 == 0) {
                r is Abort && n == o
            } else {
                exists|res: Result<OperationResult, ManagerError>| {
                    &&& init_spec(
                        o.manager,
                        n.manager,
                        subnet,
                        parsed_net(ipnet_parse(subnet)),
                        v.0,
                        v.1,
                        o.force_init,
                        env.data_file_exists,
                        env.backup_path@,
                        res,
                    )
                    &&& reacted(App { manager: n.manager, ..o }, n, res, AfterPersist::Init, r)
                }
            },
        }
    }
}

/// What submitting the network form does: with its two fields, a range that does not parse
/// is reported; otherwise subnet and range are updated as [`update_spec`] says and the
/// interface takes the result. The program stops (`Abort`) where the update is not
/// defined, changing nothing.
pub open spec fn network_edit_submitted(o: App, n: App, env: Env, r: Request) -> bool {
    if o.form_fields@.len() < 2 {
        n == o && r is Nothing
    } else {
        let subnet = o.form_fields@[0]@.0;
        let raw = o.form_fields@[1]@.0;
        match range_value(raw) {
            None => status_shown(o, n, invalid_range_text(raw)) && r is Nothing,
            Some(v) => {
                let parsed = parsed_net(ipnet_parse(subnet));
                if !o.manager.update_defined(true, parsed, Some(v.0), Some(v.1)) {
                    r is Abort && n == o
                } else {
                    exists|res: Result<OperationResult, ManagerError>| {
                        &&& update_spec(o.manager, n.manager, Some(subnet), parsed, Some(v.0), Some(v.1), env.backup_path@, res)
                        &&& reacted(App { manager: n.manager, ..o }, n, res, AfterPersist::Form, r)
                    }
                }
            },
        }
    }
}

/// What submitting the add-server form does: with its three fields, a port that does not
/// parse as a 16-bit number is reported; otherwise the server is added as
/// [`add_server_spec`] says and the interface takes the result. The program stops
/// (`Abort`) where adding is not defined, changing nothing.
pub open spec fn server_add_submitted(o: App, n: App, r: Request) -> bool {
    if o.form_fields@.len() < 3 {
        n == o && r is Nothing
    } else {
        let name = o.form_fields@[0]@.0;
        let ip = o.form_fields@[1]@.0;
        let port = o.form_fields@[2]@.0;
        match parse_u16(port) {
            None => status_shown(o, n, "Invalid port: "@ + port) && r is Nothing,
            Some(p) => if !o.manager.add_server_defined(name) {
                r is Abort && n == o
            } else {
                exists|res: Result<OperationResult, ManagerError>| {
                    &&& add_server_spec(o.manager, n.manager, name, ip, p, res)
                    &&& reacted(App { manager: n.manager, ..o }, n, res, AfterPersist::Form, r)
                }
            },
        }
    }
}

/// What submitting the add-client form does: the client is added as [`add_client_spec`]
/// says and the interface takes the result. The program stops (`Abort`) where adding is
/// not defined, changing nothing.
pub open spec fn client_add_submitted(o: App, n: App, r: Request) -> bool {
    if o.form_fields@.len() < 1 {
        n == o && r is Nothing
    } else {
        let name = o.form_fields@[0]@.0;
        if !o.manager.add_client_defined(name) {
            r is Abort && n == o
        } else {
            exists|res: Result<OperationResult, ManagerError>| {
                &&& add_client_spec(o.manager, n.manager, name, res)
                &&& reacted(App { manager: n.manager, ..o }, n, res, AfterPersist::Form, r)
            }
        }
    }
}

/// What submitting the form of server `name` does: with its two fields, a port that does
/// not parse is reported; otherwise the endpoint changes as [`edit_server_spec`] says and
/// the interface takes the result.
pub open spec fn server_edit_submitted(o: App, n: App, name: Seq<char>, r: Request) -> bool {
    if o.form_fields@.len() < 2 {
        n == o && r is Nothing
    } else {
        let ip = o.form_fields@[0]@.0;
        let port = o.form_fields@[1]@.0;
        match parse_u16(port) {
            None => status_shown(o, n, "Invalid port: "@ + port) && r is Nothing,
            Some(p) => exists|res: Result<OperationResult, ManagerError>| {
                &&& edit_server_spec(o.manager, n.manager, name, Some(ip), Some(p), res)
                &&& reacted(App { manager: n.manager, ..o }, n, res, AfterPersist::Form, r)
            },
        }
    }
}

/// What submitting the form of client `name` does: it is renamed as [`edit_client_spec`]
/// says and the interface takes the result.
pub open spec fn client_edit_submitted(o: App, n: App, name: Seq<char>, r: Request) -> bool {
    if o.form_fields@.len() < 1 {
        n == o && r is Nothing
    } else {
        exists|res: Result<OperationResult, ManagerError>| {
            &&& edit_client_spec(o.manager, n.manager, name, Some(o.form_fields@[0]@.0), res)
            &&& reacted(App { manager: n.manager, ..o }, n, res, AfterPersist::Form, r)
        }
    }
}

/// What confirming the deletion of device `name` of type `device_type` does: the server
/// (for type `server`) or else the client is deleted and the interface takes the result.
pub open spec fn delete_confirmed(o: App, n: App, name: Seq<char>, device_type: Seq<char>, r: Request) -> bool {
    exists|res: Result<OperationResult, ManagerError>| {
        &&& if device_type == "server"@ {
            delete_server_spec(o.manager, n.manager, name, res)
        } else {
            delete_client_spec(o.manager, n.manager, name, res)
        }
        &&& reacted(App { manager: n.manager, ..o }, n, res, AfterPersist::Delete, r)
    }
}

fn error_status(e: &ManagerError) -> (r: String)
    ensures
        r@ == "Error: "@ + error_text(*e),
{
    let mut s = "Error: ".to_owned();
    let m = e.message();
    push_str(&mut s, m.as_str());
    s
}

fn prefixed(prefix: &str, value: &str) -> (r: String)
    ensures
        r@ == prefix@ + value@,
{
    let mut s = prefix.to_owned();
    push_str(&mut s, value);
    s
}

fn quoted_text(prefix: &str, value: &str, suffix: &str) -> (r: String)
    ensures
        r@ == prefix@ + value@ + suffix@,
{
    let mut s = prefix.to_owned();
    push_str(&mut s, value);
    push_str(&mut s, suffix);
    s
}

impl App {
    /// Opens the init form, pre-filled with `10.0.0.0/24` and `[1,10]`.
    pub fn open_init_form(&mut self)
        ensures
            init_form_opened(*old(self), *final(self)),
    {
        let mut fields: Vec<TextInput> = Vec::new();
        fields.push(TextInput::with_value("10.0.0.0/24"));
        fields.push(TextInput::with_value("[1,10]"));
        self.form_fields = fields;
        self.form_labels = vec!["Subnet", "Server Range"];
        self.form_focus = FormFocus::Field(0);
        self.mode = Mode::InitNetwork;
        proof {
            assert(self.form_labels@.map_values(|l: &'static str| l@) =~= seq!["Subnet"@, "Server Range"@]);
        }
    }

    /// Opens the form that edits the network, pre-filled with the current subnet and
    /// server range (empty when there is no network).
    pub fn open_edit_network_form(&mut self)
        ensures
            network_form_opened(*old(self), *final(self)),
    {
        let (subnet, range) = match &self.network_info {
            Some(info) => {
                let mut range = "[".to_owned();
                push_decimal(&mut range, info.server_range_offsets.0 as u64);
                push_str(&mut range, ",");
                push_decimal(&mut range, info.server_range_offsets.1 as u64);
                push_str(&mut range, "]");
                (info.subnet.clone(), range)
            },
            None => (String::new(), String::new()),
        };
        let mut fields: Vec<TextInput> = Vec::new();
        fields.push(TextInput::with_value(subnet.as_str()));
        fields.push(TextInput::with_value(range.as_str()));
        self.form_fields = fields;
        self.form_labels = vec!["Subnet", "Server Range"];
        self.form_focus = FormFocus::Field(0);
        self.mode = Mode::EditNetworkConfig;
        proof {
            assert(self.form_labels@.map_values(|l: &'static str| l@) =~= seq!["Subnet"@, "Server Range"@]);
        }
    }

    /// Opens the add-server form (name, public address, port `51820`), or says that the
    /// network is not initialized.
    pub fn open_add_server_form(&mut self)
        ensures
            server_form_opened(*old(self), *final(self)),
    {
        if self.network_info.is_none() {
            self.set_status("Network not initialized. Press CTRL+I to initialize first.");
            return;
        }
        let mut fields: Vec<TextInput> = Vec::new();
        fields.push(TextInput::new());
        fields.push(TextInput::new());
        fields.push(TextInput::with_value("51820"));
        self.form_fields = fields;
        self.form_labels = vec!["Name", "Public IP", "Port"];
        self.form_focus = FormFocus::Field(0);
        self.mode = Mode::AddServer;
        proof {
            assert(self.form_labels@.map_values(|l: &'static str| l@) =~= seq!["Name"@, "Public IP"@, "Port"@]);
        }
    }

    /// Opens the add-client form (name), or says that the network is not initialized.
    pub fn open_add_client_form(&mut self)
        ensures
            client_form_opened(*old(self), *final(self)),
    {
        if self.network_info.is_none() {
            self.set_status("Network not initialized. Press CTRL+I to initialize first.");
            return;
        }
        let mut fields: Vec<TextInput> = Vec::new();
        fields.push(TextInput::new());
        self.form_fields = fields;
        self.form_labels = vec!["Name"];
        self.form_focus = FormFocus::Field(0);
        self.mode = Mode::AddClient;
        proof {
            assert(self.form_labels@.map_values(|l: &'static str| l@) =~= seq!["Name"@]);
        }
    }

    /// Opens the form that edits the selected server (public address, port), if the
    /// selection is a server.
    pub fn open_edit_server_form(&mut self)
        ensures
            server_edit_form_opened(*old(self), *final(self)),
    {
        if self.device_index < self.servers.len() {
            let server = &self.servers[self.device_index];
            let name = server.name.clone();
            let mut port = String::new();
            push_decimal(&mut port, server.listen_port as u64);
            let mut fields: Vec<TextInput> = Vec::new();
            fields.push(TextInput::with_value(server.public_ip.as_str()));
            fields.push(TextInput::with_value(port.as_str()));
            self.form_fields = fields;
            self.form_labels = vec!["Public IP", "Port"];
            self.form_focus = FormFocus::Field(0);
            self.mode = Mode::EditServer { name };
            proof {
                assert(self.form_labels@.map_values(|l: &'static str| l@) =~= seq!["Public IP"@, "Port"@]);
            }
        }
    }

    /// Opens the form that renames the selected client (counting clients after the
    /// servers), if there is one there.
    pub fn open_edit_client_form(&mut self)
        ensures
            client_edit_form_opened(*old(self), *final(self)),
    {
        let j = self.device_index.saturating_sub(self.servers.len());
        if j < self.clients.len() {
            let client = &self.clients[j];
            let name = client.name.clone();
            let mut fields: Vec<TextInput> = Vec::new();
            fields.push(TextInput::with_value(client.name.as_str()));
            self.form_fields = fields;
            self.form_labels = vec!["New Name"];
            self.form_focus = FormFocus::Field(0);
            self.mode = Mode::EditClient { name };
            proof {
                assert(self.form_labels@.map_values(|l: &'static str| l@) =~= seq!["New Name"@]);
            }
        }
    }

    /// Asks to confirm deleting the selected device (a server if the selection is among the
    /// servers, else the client at that place after them).
    pub fn open_delete_selected(&mut self)
        ensures
            delete_dialog_opened(*old(self), *final(self)),
    {
        if self.device_count() == 0 {
            return;
        }
        if self.is_server_at(self.device_index) {
            let name = self.servers[self.device_index].name.clone();
            self.mode = Mode::ConfirmDelete { name, device_type: "server".to_owned() };
        } else {
            let j = self.device_index.saturating_sub(self.servers.len());
            if j < self.clients.len() {
                let name = self.clients[j].name.clone();
                self.mode = Mode::ConfirmDelete { name, device_type: "client".to_owned() };
            }
        }
    }

    /// Opens the edit form of the selected device, if there is any device.
    pub fn open_edit_selected(&mut self)
        ensures
            edit_form_of_selected_opened(*old(self), *final(self)),
    {
        if self.device_count() == 0 {
            return;
        }
        if self.is_server_at(self.device_index) {
            self.open_edit_server_form();
        } else {
            self.open_edit_client_form();
        }
    }

    /// Takes a manager operation's result: a success that needs its data written waits for
    /// it; one that does not is completed at once; a failure is shown.
    fn react(&mut self, res: Result<OperationResult, ManagerError>, after: AfterPersist) -> (r: Request)
        ensures
            reacted(
                App { manager: final(self).manager, ..*old(self) },
                *final(self),
                res,
                after,
                r,
            ),
            final(self).manager == old(self).manager,
    {
        match res {
            Ok(result) => {
                if result.save_needed {
                    let backup = match &result.backup_path {
                        Some(p) => Some(p.clone()),
                        None => None,
                    };
                    self.pending = Some(Pending::Operation { result, after });
                    Request::Persist { backup }
                } else {
                    self.complete_operation(&result, after)
                }
            },
            Err(e) => {
                let text = error_status(&e);
                self.set_status(text.as_str());
                if after == AfterPersist::Delete {
                    self.mode = Mode::Normal;
                }
                Request::Nothing
            },
        }
    }

    /// Completes an operation whose data is written: shows its result, returns to
    /// browsing (no longer forcing a reinit after an init), reloads the caches (keeping
    /// the selection in range after a deletion).
    pub fn complete_operation(&mut self, result: &OperationResult, after: AfterPersist) -> (r: Request)
        ensures
            final(self).manager == old(self).manager,
            final(self).pending == old(self).pending,
            !old(self).manager.show_defined() ==> r is Abort,
            old(self).manager.show_defined() ==> {
                &&& r is Nothing
                &&& final(self).mode is Normal
                &&& final(self).network_info == info_of(old(self).manager)
                &&& after == AfterPersist::Init ==> !final(self).force_init
            },
            operation_completed(*old(self), *final(self), *result, after, r),
    {
        self.handle_operation_result(result);
        let ghost shown = *self;
        self.mode = Mode::Normal;
        if after == AfterPersist::Init {
            self.force_init = false;
        }
        if !self.manager.can_show_network_config() {
            proof {
                assert(result_shown(*old(self), shown, *result));
            }
            return Request::Abort;
        }
        let ghost b = *self;
        self.refresh_data();
        if after == AfterPersist::Delete {
            let ghost f = *self;
            self.clamp_device_index();
            self.update_selected_device();
            proof {
                assert(data_refreshed(b, f) && selected_refreshed(App { device_index: f.clamped_index() as usize, ..f }, *self));
            }
        }
        proof {
            assert(result_shown(*old(self), shown, *result));
        }
        Request::Nothing
    }

    /// Reports how writing the data went: on success the waiting operation completes; on
    /// failure the error is shown (and a deletion returns to browsing).
    pub fn finish_persist(&mut self, outcome: Result<(), String>) -> (r: Request)
        ensures
            final(self).manager == old(self).manager,
            final(self).pending is None,
            match old(self).pending {
                Some(Pending::Operation { result, after }) => match outcome {
                    Ok(_) => {
                        &&& !old(self).manager.show_defined() ==> r is Abort
                        &&& old(self).manager.show_defined() ==> r is Nothing && final(self).mode is Normal
                        &&& operation_completed(App { pending: None, ..*old(self) }, *final(self), result, after, r)
                    },
                    Err(e) => {
                        &&& r is Nothing
                        &&& final(self).status@ == "Error: "@ + e@
                        &&& after == AfterPersist::Delete ==> final(self).mode is Normal
                        &&& status_shown(
                            App {
                                pending: None,
                                mode: if after == AfterPersist::Delete { Mode::Normal } else { old(self).mode },
                                ..*old(self)
                            },
                            *final(self),
                            "Error: "@ + e@,
                        )
                    },
                },
                _ => r is Nothing && *final(self) == (App { pending: None, ..*old(self) }),
            },
    {
        let mut pending: Option<Pending> = None;
        std::mem::swap(&mut pending, &mut self.pending);
        match pending {
            Some(Pending::Operation { result, after }) => match outcome {
                Ok(_) => self.complete_operation(&result, after),
                Err(e) => {
                    let text = prefixed("Error: ", e.as_str());
                    self.set_status(text.as_str());
                    if after == AfterPersist::Delete {
                        self.mode = Mode::Normal;
                    }
                    Request::Nothing
                },
            },
            _ => Request::Nothing,
        }
    }

    /// Reports how writing the selected device's configuration went: the status says so,
    /// and (unless the directory could not be made) the preview shows the configuration.
    pub fn finish_save_config(&mut self, outcome: SaveOutcome)
        ensures
            final(self).manager == old(self).manager,
            final(self).pending is None,
            match old(self).pending {
                Some(Pending::Config { name, content, path }) => match outcome {
                    SaveOutcome::DirectoryFailed(e) => status_shown(
                        App { pending: None, ..*old(self) },
                        *final(self),
                        "Error creating output dir: "@ + e@,
                    ),
                    SaveOutcome::Saved => status_shown(
                        App {
                            pending: None,
                            selected_config: Some(content),
                            selected_device_name: Some(name),
                            config_scroll: 0,
                            ..*old(self)
                        },
                        *final(self),
                        "Config saved to: "@ + path@,
                    ),
                    SaveOutcome::WriteFailed(e) => status_shown(
                        App {
                            pending: None,
                            selected_config: Some(content),
                            selected_device_name: Some(name),
                            config_scroll: 0,
                            ..*old(self)
                        },
                        *final(self),
                        "Error saving: "@ + e@,
                    ),
                },
                _ => *final(self) == (App { pending: None, ..*old(self) }),
            },
    {
        let mut pending: Option<Pending> = None;
        std::mem::swap(&mut pending, &mut self.pending);
        match pending {
            Some(Pending::Config { name, content, path }) => match outcome {
                SaveOutcome::DirectoryFailed(e) => {
                    let text = prefixed("Error creating output dir: ", e.as_str());
                    self.set_status(text.as_str());
                },
                SaveOutcome::Saved => {
                    let text = prefixed("Config saved to: ", path.as_str());
                    self.set_status(text.as_str());
                    self.selected_config = Some(content);
                    self.selected_device_name = Some(name);
                    self.config_scroll = 0;
                },
                SaveOutcome::WriteFailed(e) => {
                    let text = prefixed("Error saving: ", e.as_str());
                    self.set_status(text.as_str());
                    self.selected_config = Some(content);
                    self.selected_device_name = Some(name);
                    self.config_scroll = 0;
                },
            },
            _ => {},
        }
    }

    /// Reports how writing every configuration went.
    pub fn finish_save_all(&mut self, outcome: Result<u32, String>)
        ensures
            final(self).manager == old(self).manager,
            final(self).pending is None,
            match old(self).pending {
                Some(Pending::All { dir }) => match outcome {
                    Ok(count) => status_shown(
                        App { pending: None, ..*old(self) },
                        *final(self),
                        "Generated "@ + decimal(count as nat) + " config files to: "@ + dir@ + "/"@,
                    ),
                    Err(e) => status_shown(App { pending: None, ..*old(self) }, *final(self), "Error: "@ + e@),
                },
                _ => *final(self) == (App { pending: None, ..*old(self) }),
            },
    {
        let mut pending: Option<Pending> = None;
        std::mem::swap(&mut pending, &mut self.pending);
        match pending {
            Some(Pending::All { dir }) => match outcome {
                Ok(count) => {
                    let mut text = "Generated ".to_owned();
                    push_decimal(&mut text, count as u64);
                    push_str(&mut text, " config files to: ");
                    push_str(&mut text, dir.as_str());
                    push_str(&mut text, "/");
                    self.set_status(text.as_str());
                },
                Err(e) => {
                    let text = prefixed("Error: ", e.as_str());
                    self.set_status(text.as_str());
                },
            },
            _ => {},
        }
    }

    /// Submits the init form: parses the range and (re)initializes the network.
    pub fn submit_init(&mut self, env: &Env) -> (r: Request)
        ensures
            init_submitted(*old(self), *final(self), *env, r),
    {
        if self.form_fields.len() < 2 {
            return Request::Nothing;
        }
        let subnet = self.form_fields[0].value().to_owned();
        let range_raw = self.form_fields[1].value().to_owned();
        let (start, end) = match parse_server_range(range_raw.as_str()) {
            Ok(v) => v,
            Err(_) => {
                let text = quoted_text("Invalid server range '", range_raw.as_str(), "'. Use [START,END]");
                self.set_status(text.as_str());
                return Request::Nothing;
            },
        };
        match self.manager.init_network(
            subnet.as_str(),
            start,
            end,
            self.force_init,
            env.data_file_exists,
            env.backup_path.as_str(),
        ) {
            None => Request::Abort,
            Some(res) => self.react(res, AfterPersist::Init),
        }
    }

    /// Submits the network form: parses the range and updates subnet and range.
    pub fn submit_edit_network(&mut self, env: &Env) -> (r: Request)
        ensures
            network_edit_submitted(*old(self), *final(self), *env, r),
    {
        if self.form_fields.len() < 2 {
            return Request::Nothing;
        }
        let subnet = self.form_fields[0].value().to_owned();
        let range_raw = self.form_fields[1].value().to_owned();
        let (start, end) = match parse_server_range(range_raw.as_str()) {
            Ok(v) => v,
            Err(_) => {
                let text = quoted_text("Invalid server range '", range_raw.as_str(), "'. Use [START,END]");
                self.set_status(text.as_str());
                return Request::Nothing;
            },
        };
        match self.manager.update_network_config(Some(subnet.as_str()), Some(start), Some(end), env.backup_path.as_str()) {
            None => Request::Abort,
            Some(res) => self.react(res, AfterPersist::Form),
        }
    }

    /// Submits the add-server form: the port must parse as a 16-bit number.
    pub fn submit_add_server(&mut self) -> (r: Request)
        ensures
            server_add_submitted(*old(self), *final(self), r),
    {
        if self.form_fields.len() < 3 {
            return Request::Nothing;
        }
        let name = self.form_fields[0].value().to_owned();
        let public_ip = self.form_fields[1].value().to_owned();
        let port_str = self.form_fields[2].value().to_owned();
        let port = match parse_u16_text(port_str.as_str()) {
            Some(p) => p,
            None => {
                let text = prefixed("Invalid port: ", port_str.as_str());
                self.set_status(text.as_str());
                return Request::Nothing;
            },
        };
        if !self.manager.can_add_server(name.as_str()) {
            return Request::Abort;
        }
        let res = self.manager.add_server(name.as_str(), public_ip.as_str(), port);
        self.react(res, AfterPersist::Form)
    }

    /// Submits the add-client form.
    pub fn submit_add_client(&mut self) -> (r: Request)
        ensures
            client_add_submitted(*old(self), *final(self), r),
    {
        if self.form_fields.len() < 1 {
            return Request::Nothing;
        }
        let name = self.form_fields[0].value().to_owned();
        if !self.manager.can_add_client(name.as_str()) {
            return Request::Abort;
        }
        let res = self.manager.add_client(name.as_str());
        self.react(res, AfterPersist::Form)
    }

    /// Submits the server form: sets the server's public address and port.
    pub fn submit_edit_server(&mut self, original_name: &str) -> (r: Request)
        ensures
            server_edit_submitted(*old(self), *final(self), original_name@, r),
    {
        if self.form_fields.len() < 2 {
            return Request::Nothing;
        }
        let public_ip = self.form_fields[0].value().to_owned();
        let port_str = self.form_fields[1].value().to_owned();
        let port = match parse_u16_text(port_str.as_str()) {
            Some(p) => p,
            None => {
                let text = prefixed("Invalid port: ", port_str.as_str());
                self.set_status(text.as_str());
                return Request::Nothing;
            },
        };
        let res = self.manager.edit_server(original_name, Some(public_ip.as_str()), Some(port));
        self.react(res, AfterPersist::Form)
    }

    /// Submits the client form: renames the client.
    pub fn submit_edit_client(&mut self, original_name: &str) -> (r: Request)
        ensures
            client_edit_submitted(*old(self), *final(self), original_name@, r),
    {
        if self.form_fields.len() < 1 {
            return Request::Nothing;
        }
        let new_name = self.form_fields[0].value().to_owned();
        let res = self.manager.edit_client(original_name, Some(new_name.as_str()));
        self.react(res, AfterPersist::Form)
    }

    /// Deletes the device that the dialog asked about.
    pub fn confirm_delete(&mut self, name: &str, device_type: &str) -> (r: Request)
        ensures
            delete_confirmed(*old(self), *final(self), name@, device_type@, r),
    {
        let res = if crate::text::str_eq(device_type, "server") {
            self.manager.delete_server(name)
        } else {
            self.manager.delete_client(name)
        };
        self.react(res, AfterPersist::Delete)
    }
}

/// Opening the delete dialog names the device shown at the selected row of the device
/// list (servers first, then clients): the server at that row when the row is among the
/// servers, else the client `i - servers` places after them; nothing else changes.
pub proof fn law_delete_dialog_names_selected(o: App, n: App)
    requires
        delete_dialog_opened(o, n),
        o.device_index < o.servers@.len() + o.clients@.len(),
    ensures
        ({
            let i = o.device_index as int;
            let ns = o.servers@.len() as int;
            &&& n.mode matches Mode::ConfirmDelete { name, device_type } && {
                &&& i < ns ==> name@ == o.servers@[i].name@ && device_type@ == "server"@
                &&& i >= ns ==> name@ == o.clients@[i - ns].name@ && device_type@ == "client"@
                &&& Some(name@) == o.device_name_at_spec(o.device_index)
            }
            &&& n == (App { mode: n.mode, ..o })
        }),
{
}

/// Opening the edit form of the selection edits the device shown at the selected row:
/// the server at that row when the row is among the servers, else the client `i - servers`
/// places after them.
pub proof fn law_edit_form_names_selected(o: App, n: App)
    requires
        edit_form_of_selected_opened(o, n),
        o.device_index < o.servers@.len() + o.clients@.len(),
    ensures
        ({
            let i = o.device_index as int;
            let ns = o.servers@.len() as int;
            &&& i < ns ==> (n.mode matches Mode::EditServer { name } && name@ == o.servers@[i].name@)
            &&& i >= ns ==> (n.mode matches Mode::EditClient { name } && name@ == o.clients@[i - ns].name@)
        }),
{
}

} // verus!
