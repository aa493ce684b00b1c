//! The command line: its commands as data, and the text that each command prints.

use vstd::prelude::*;
use crate::text::{push_str, push_decimal, decimal};
use crate::ipv4::{format_ipv4, ipv4_text};
use crate::names::NameMap;
use crate::manager::types::{Message, MessageKind, NetworkInfo, DeviceInfo, ServerEntry, ClientEntry, Loaded};
use crate::manager::ops::device_info_of;

verus! {

/// Parsed command line: a subcommand, or none to start the terminal interface.
pub struct Cli {
    pub command: Option<Commands>,
}

/// The subcommands.
pub enum Commands {
    /// Initialize network configuration.
    Init { subnet: String, server_range: String, force: bool },
    /// View or modify network configuration.
    Config { action: ConfigAction },
    /// Add a device.
    Add { device_type: AddDevice },
    /// Edit a device.
    Edit { device_type: EditDevice },
    /// Delete a device.
    Del { device_type: DelDevice },
    /// Generate the configuration of a device, or of all devices (`all`).
    Gen { name: String, output_dir: Option<String> },
    /// List all devices.
    List,
    /// Show a device's details.
    Show { name: String },
}

/// What `config` does.
pub enum ConfigAction {
    /// Show the network configuration.
    Show,
    /// Change the subnet and/or the server range.
    Modify { subnet: Option<String>, server_range: Option<String> },
}

/// The device that `add` adds.
pub enum AddDevice {
    Server { name: String, public_ip: String, port: u16 },
    Client { name: String },
}

/// The device that `edit` changes.
pub enum EditDevice {
    Server { name: String, public_ip: Option<String>, port: Option<u16> },
    Client { name: String, new_name: Option<String> },
}

/// The device that `del` deletes.
pub enum DelDevice {
    Server { name: String },
    Client { name: String },
}

/// How a message is printed: successes and warnings as they are, information indented,
/// errors prefixed (`true` for the error stream).
pub open spec fn message_output(kind: MessageKind, text: Seq<char>) -> (bool, Seq<char>) {
    match kind {
        MessageKind::Success | MessageKind::Warning => (false, text),
        MessageKind::Info => (false, "  "@ + text),
        MessageKind::Error => (true, "Error: "@ + text),
    }
}

fn concat(a: &str, b: &str) -> (r: String)
    ensures
        r@ == a@ + b@,
{
    let mut s = a.to_owned();
    push_str(&mut s, b);
    s
}

/// The line printed for a message, and whether it goes to the error stream.
pub fn message_line(m: &Message) -> (r: (bool, String))
    ensures
        (r.0, r.1@) == message_output(m.kind, m.text@),
{
    match m.kind {
        MessageKind::Success | MessageKind::Warning => (false, m.text.clone()),
        MessageKind::Info => (false, concat("  ", m.text.as_str())),
        MessageKind::Error => (true, concat("Error: ", m.text.as_str())),
    }
}

/// The error printed for a server range that does not parse; `example` is the sample
/// range shown.
pub fn range_error(raw: &str, example: &str) -> (r: String)
    ensures
        r@ == "Invalid server range '"@ + raw@ + "'. Expected format: [START,END] (e.g., "@ + example@ + ")"@,
{
    let mut s = concat("Invalid server range '", raw);
    push_str(&mut s, "'. Expected format: [START,END] (e.g., ");
    push_str(&mut s, example);
    push_str(&mut s, ")");
    s
}

/// `a - b`, or zero when `b` is larger.
pub open spec fn available(a: u32, b: u32) -> nat {
    if a >= b { (a - b) as nat } else { 0 }
}

/// The lines that `config show` prints.
pub open spec fn network_lines(info: NetworkInfo) -> Seq<Seq<char>> {
    seq![
        "\n=== Network Configuration ==="@,
        "  Subnet: "@ + info.subnet@,
        "  Server IP range: "@ + ipv4_text(info.server_start_ip) + " - "@ + ipv4_text(info.server_end_ip)
            + " (offset "@ + decimal(info.server_range_offsets.0 as nat) + "-"@
            + decimal(info.server_range_offsets.1 as nat) + ")"@,
        "  Client IP range: "@ + ipv4_text(info.client_start_ip) + " - "@ + ipv4_text(info.client_end_ip)
            + " (offset "@ + decimal(info.client_start_offset as nat) + "-"@ + decimal(info.max_host_offset as nat)
            + ")"@,
        "\n=== Usage Statistics ==="@,
        "  Servers: "@ + decimal(info.server_count as nat) + "/"@ + decimal(info.server_capacity as nat) + " ("@
            + decimal(available(info.server_capacity, info.server_count)) + " available)"@,
        "  Clients: "@ + decimal(info.client_count as nat) + "/"@ + decimal(info.client_capacity as nat) + " ("@
            + decimal(available(info.client_capacity, info.client_count)) + " available)"@,
        Seq::<char>::empty(),
    ]
}

fn push_count_line(label: &str, count: u32, capacity: u32) -> (r: String)
    ensures
        r@ == label@ + decimal(count as nat) + "/"@ + decimal(capacity as nat) + " ("@ + decimal(
            available(capacity, count),
        ) + " available)"@,
{
    let mut s = label.to_owned();
    push_decimal(&mut s, count as u64);
    push_str(&mut s, "/");
    push_decimal(&mut s, capacity as u64);
    push_str(&mut s, " (");
    push_decimal(&mut s, capacity.saturating_sub(count) as u64);
    push_str(&mut s, " available)");
    s
}

fn push_range_line(label: &str, a: u32, b: u32, x: u32, y: u32) -> (r: String)
    ensures
        r@ == label@ + ipv4_text(a) + " - "@ + ipv4_text(b) + " (offset "@ + decimal(x as nat) + "-"@ + decimal(
            y as nat,
        ) + ")"@,
{
    let mut s = label.to_owned();
    let t = format_ipv4(a);
    push_str(&mut s, t.as_str());
    push_str(&mut s, " - ");
    let u = format_ipv4(b);
    push_str(&mut s, u.as_str());
    push_str(&mut s, " (offset ");
    push_decimal(&mut s, x as u64);
    push_str(&mut s, "-");
    push_decimal(&mut s, y as u64);
    push_str(&mut s, ")");
    s
}

/// The lines that `config show` prints for the network statistics.
pub fn network_report(info: &NetworkInfo) -> (r: Vec<String>)
    ensures
        r@.map_values(|x: String| x@) == network_lines(*info),
{
    let mut r: Vec<String> = Vec::new();
    r.push("\n=== Network Configuration ===".to_owned());
    r.push(concat("  Subnet: ", info.subnet.as_str()));
    r.push(push_range_line(
        "  Server IP range: ",
        info.server_start_ip,
        info.server_end_ip,
        info.server_range_offsets.0,
        info.server_range_offsets.1,
    ));
    r.push(push_range_line(
        "  Client IP range: ",
        info.client_start_ip,
        info.client_end_ip,
        info.client_start_offset,
        info.max_host_offset,
    ));
    r.push("\n=== Usage Statistics ===".to_owned());
    r.push(push_count_line("  Servers: ", info.server_count, info.server_capacity));
    r.push(push_count_line("  Clients: ", info.client_count, info.client_capacity));
    r.push(String::new());
    proof {
        assert(r@.map_values(|x: String| x@) =~= network_lines(*info));
    }
    r
}

/// The line that `list` prints for a server.
pub open spec fn server_line(s: ServerEntry) -> Seq<char> {
    "  "@ + s.name@ + ": "@ + s.ip@ + " (Public: "@ + s.public_ip@ + ":"@ + decimal(s.listen_port as nat) + ")"@
}

/// The line that `list` prints for a client.
pub open spec fn client_line(c: ClientEntry) -> Seq<char> {
    "  "@ + c.name@ + ": "@ + c.ip@
}

/// The `list` lines of the servers, in order.
pub open spec fn server_lines(s: Seq<(String, ServerEntry)>) -> Seq<Seq<char>> {
    s.map_values(|e: (String, ServerEntry)| server_line(e.1))
}

/// The `list` lines of the clients, in order.
pub open spec fn client_lines(c: Seq<(String, ClientEntry)>) -> Seq<Seq<char>> {
    c.map_values(|e: (String, ClientEntry)| client_line(e.1))
}

/// The lines that `list` prints: the servers, then the clients, in name order, with
/// `(none)` for an empty list.
pub open spec fn list_lines(servers: Seq<(String, ServerEntry)>, clients: Seq<(String, ClientEntry)>) -> Seq<Seq<char>> {
    seq!["\n=== Servers ==="@] + (if servers.len() == 0 {
        seq!["  (none)"@]
    } else {
        server_lines(servers)
    }) + seq!["\n=== Clients ==="@] + (if clients.len() == 0 {
        seq!["  (none)"@]
    } else {
        client_lines(clients)
    }) + seq![Seq::<char>::empty()]
}

/// The lines that `list` prints for the given devices.
pub fn device_list_report(servers: &NameMap<ServerEntry>, clients: &NameMap<ClientEntry>) -> (r: Vec<String>)
    ensures
        r@.map_values(|x: String| x@) == list_lines(servers@, clients@),
{
    let mut r: Vec<String> = Vec::new();
    r.push("\n=== Servers ===".to_owned());
    let ghost head = r@.map_values(|x: String| x@);
    let n = servers.len();
    let ghost part1 = if servers@.len() == 0 {
        seq!["  (none)"@]
    } else {
        server_lines(servers@)
    };
    if n == 0 {
        r.push("  (none)".to_owned());
        proof {
            assert(r@.map_values(|x: String| x@) =~= head + part1);
        }
    } else {
        let mut i: usize = 0;
        while i < n
            invariant
                n == servers@.len(),
                i <= n,
                r@.map_values(|x: String| x@) == head + server_lines(servers@.take(i as int)),
            decreases n - i,
        {
            let s = servers.value_at(i);
            let mut line = concat("  ", s.name.as_str());
            push_str(&mut line, ": ");
            push_str(&mut line, s.ip.as_str());
            push_str(&mut line, " (Public: ");
            push_str(&mut line, s.public_ip.as_str());
            push_str(&mut line, ":");
            push_decimal(&mut line, s.listen_port as u64);
            push_str(&mut line, ")");
            let ghost before = r@.map_values(|x: String| x@);
            r.push(line);
            proof {
                assert(r@.map_values(|x: String| x@) =~= before.push(line@));
                assert(server_lines(servers@.take(i + 1)) =~= server_lines(servers@.take(i as int)).push(
                    server_line(servers@[i as int].1),
                ));
            }
            i = i + 1;
        }
        proof {
            assert(servers@.take(n as int) =~= servers@);
            assert(r@.map_values(|x: String| x@) =~= head + part1);
        }
    }
    let ghost after_servers = r@.map_values(|x: String| x@);
    r.push("\n=== Clients ===".to_owned());
    let ghost mid = r@.map_values(|x: String| x@);
    let m = clients.len();
    let ghost part2 = if clients@.len() == 0 {
        seq!["  (none)"@]
    } else {
        client_lines(clients@)
    };
    proof {
        assert(mid =~= after_servers + seq!["\n=== Clients ==="@]);
    }
    if m == 0 {
        r.push("  (none)".to_owned());
        proof {
            assert(r@.map_values(|x: String| x@) =~= mid + part2);
        }
    } else {
        let mut j: usize = 0;
        while j < m
            invariant
                m == clients@.len(),
                j <= m,
                r@.map_values(|x: String| x@) == mid + client_lines(clients@.take(j as int)),
            decreases m - j,
        {
            let c = clients.value_at(j);
            let mut line = concat("  ", c.name.as_str());
            push_str(&mut line, ": ");
            push_str(&mut line, c.ip.as_str());
            let ghost before = r@.map_values(|x: String| x@);
            r.push(line);
            proof {
                assert(r@.map_values(|x: String| x@) =~= before.push(line@));
                assert(client_lines(clients@.take(j + 1)) =~= client_lines(clients@.take(j as int)).push(
                    client_line(clients@[j as int].1),
                ));
            }
            j = j + 1;
        }
        proof {
            assert(clients@.take(m as int) =~= clients@);
            assert(r@.map_values(|x: String| x@) =~= mid + part2);
        }
    }
    let ghost before_last = r@.map_values(|x: String| x@);
    r.push(String::new());
    proof {
        assert(before_last == mid + part2);
        assert(r@.map_values(|x: String| x@) =~= before_last.push(Seq::<char>::empty()));
        assert(head == seq!["\n=== Servers ==="@]);
        assert(after_servers == head + part1);
        assert(r@.map_values(|x: String| x@) =~= list_lines(servers@, clients@));
    }
    r
}

/// The lines that `show` prints for a device.
pub open spec fn device_lines(info: DeviceInfo) -> Seq<Seq<char>> {
    match info {
        DeviceInfo::Server { name, ip, public_ip, listen_port, private_key, public_key, preshared_keys_count } => seq![
            "\n=== Server: "@ + name@ + " ==="@,
            "  Internal IP: "@ + ip@,
            "  Public IP: "@ + public_ip@,
            "  Port: "@ + decimal(listen_port as nat),
            "  Private Key: "@ + private_key@,
            "  Public Key: "@ + public_key@,
            "  Preshared Keys Count: "@ + decimal(preshared_keys_count as nat),
            Seq::<char>::empty(),
        ],
        DeviceInfo::Client { name, ip, private_key, public_key } => seq![
            "\n=== Client: "@ + name@ + " ==="@,
            "  Internal IP: "@ + ip@,
            "  Private Key: "@ + private_key@,
            "  Public Key: "@ + public_key@,
            Seq::<char>::empty(),
        ],
    }
}

/// The lines that `show` prints for the given device.
pub fn device_report(info: &DeviceInfo) -> (r: Vec<String>)
    ensures
        r@.map_values(|x: String| x@) == device_lines(*info),
{
    let mut r: Vec<String> = Vec::new();
    match info {
        DeviceInfo::Server { name, ip, public_ip, listen_port, private_key, public_key, preshared_keys_count } => {
            let mut title = concat("\n=== Server: ", name.as_str());
            push_str(&mut title, " ===");
            r.push(title);
            r.push(concat("  Internal IP: ", ip.as_str()));
            r.push(concat("  Public IP: ", public_ip.as_str()));
            let mut port = "  Port: ".to_owned();
            push_decimal(&mut port, *listen_port as u64);
            r.push(port);
            r.push(concat("  Private Key: ", private_key.as_str()));
            r.push(concat("  Public Key: ", public_key.as_str()));
            let mut count = "  Preshared Keys Count: ".to_owned();
            push_decimal(&mut count, *preshared_keys_count as u64);
            r.push(count);
            r.push(String::new());
        },
        DeviceInfo::Client { name, ip, private_key, public_key } => {
            let mut title = concat("\n=== Client: ", name.as_str());
            push_str(&mut title, " ===");
            r.push(title);
            r.push(concat("  Internal IP: ", ip.as_str()));
            r.push(concat("  Private Key: ", private_key.as_str()));
            r.push(concat("  Public Key: ", public_key.as_str()));
            r.push(String::new());
        },
    }
    proof {
        assert(r@.map_values(|x: String| x@) =~= device_lines(*info));
    }
    r
}

/// The lines that `gen` prints for one device's configuration.
pub fn config_report(name: &str, config: &str) -> (r: Vec<String>)
    ensures
        r@.map_values(|x: String| x@) == seq!["\n=== "@ + name@ + " Config ==="@, config@, Seq::<char>::empty()],
{
    let mut r: Vec<String> = Vec::new();
    let mut title = concat("\n=== ", name);
    push_str(&mut title, " Config ===");
    r.push(title);
    r.push(config.to_owned());
    r.push(String::new());
    proof {
        assert(r@.map_values(|x: String| x@) =~= seq!["\n=== "@ + name@ + " Config ==="@, config@, Seq::<char>::empty()]);
    }
    r
}

/// The line that `gen all` prints after writing `count` files to `dir`.
pub fn generated_line(count: u32, dir: &str) -> (r: String)
    ensures
        r@ == "Generated "@ + decimal(count as nat) + " config files to: "@ + dir@,
{
    let mut s = "Generated ".to_owned();
    push_decimal(&mut s, count as u64);
    push_str(&mut s, " config files to: ");
    push_str(&mut s, dir);
    s
}

/// The path of a device's configuration file in `dir`: `dir/name.conf`.
pub fn config_path(dir: &str, name: &str) -> (r: String)
    ensures
        r@ == dir@ + "/"@ + name@ + ".conf"@,
{
    let mut s = dir.to_owned();
    push_str(&mut s, "/");
    push_str(&mut s, name);
    push_str(&mut s, ".conf");
    s
}

/// What `show` prints for a stored server: its stored private key on the `Private Key`
/// line and its stored public key on the `Public Key` line, after its addresses and port.
pub proof fn law_show_prints_stored_server(l: Loaded, name: Seq<char>)
    requires
        l.data.servers.as_map().dom().contains(name),
    ensures
        ({
            let s = l.data.servers.as_map()[name];
            &&& device_info_of(l, name) is Some
            &&& device_lines(device_info_of(l, name)->0) =~= seq![
                "\n=== Server: "@ + s.name@ + " ==="@,
                "  Internal IP: "@ + s.ip@,
                "  Public IP: "@ + s.public_ip@,
                "  Port: "@ + decimal(s.listen_port as nat),
                "  Private Key: "@ + s.private_key@,
                "  Public Key: "@ + s.public_key@,
                "  Preshared Keys Count: "@ + decimal((s.preshared_keys@.len() as usize) as nat),
                Seq::<char>::empty(),
            ]
        }),
{
}

/// What `show` prints for a stored client (whose name no server has): its stored private
/// key on the `Private Key` line and its stored public key on the `Public Key` line.
pub proof fn law_show_prints_stored_client(l: Loaded, name: Seq<char>)
    requires
        !l.data.servers.as_map().dom().contains(name),
        l.data.clients.as_map().dom().contains(name),
    ensures
        ({
            let c = l.data.clients.as_map()[name];
            &&& device_info_of(l, name) is Some
            &&& device_lines(device_info_of(l, name)->0) =~= seq![
                "\n=== Client: "@ + c.name@ + " ==="@,
                "  Internal IP: "@ + c.ip@,
                "  Private Key: "@ + c.private_key@,
                "  Public Key: "@ + c.public_key@,
                Seq::<char>::empty(),
            ]
        }),
{
}

} // verus!
