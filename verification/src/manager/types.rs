//! The data model of a WireGuard network and the values that operations hand back.

use vstd::prelude::*;
use crate::names::NameMap;
use crate::ipv4::Ipv4Net;

verus! {

/// Persisted network configuration: subnet and IP allocation ranges.
#[derive(Debug)]
pub struct NetworkConfig {
    pub subnet: String,
    /// Server IP offset range within the subnet `[start, end]`.
    pub server_ip_range: [u32; 2],
    /// Host offset at which client IP allocation begins.
    pub client_ip_start: u32,
}

/// A server device with its keys, endpoint info, and per-peer pre-shared keys.
#[derive(Debug)]
pub struct ServerEntry {
    pub name: String,
    pub ip: String,
    pub public_ip: String,
    pub listen_port: u16,
    pub private_key: String,
    pub public_key: String,
    /// Pre-shared keys indexed by peer device name.
    pub preshared_keys: NameMap<String>,
}

/// A client device with its keys and assigned IP.
#[derive(Debug)]
pub struct ClientEntry {
    pub name: String,
    pub ip: String,
    pub private_key: String,
    pub public_key: String,
}

/// Top-level data persisted to the data file.
#[derive(Debug)]
pub struct DataFile {
    pub network: NetworkConfig,
    pub servers: NameMap<ServerEntry>,
    pub clients: NameMap<ClientEntry>,
}

/// Computed network statistics for display. Addresses are 32-bit numbers
/// (most significant octet first).
#[derive(Debug)]
pub struct NetworkInfo {
    pub subnet: String,
    pub server_start_ip: u32,
    pub server_end_ip: u32,
    pub client_start_ip: u32,
    pub client_end_ip: u32,
    pub server_range_offsets: (u32, u32),
    pub client_start_offset: u32,
    pub max_host_offset: u32,
    pub server_count: u32,
    pub server_capacity: u32,
    pub client_count: u32,
    pub client_capacity: u32,
}

/// Severity level for operation feedback messages.
#[derive(Debug, Clone, Copy, PartialEq, Eq, Structural)]
pub enum MessageKind {
    Success,
    Info,
    Warning,
    Error,
}

/// A single operation feedback message with a severity level.
#[derive(Debug)]
pub struct Message {
    pub kind: MessageKind,
    pub text: String,
}

impl Message {
    /// A success message.
    pub fn success(text: &str) -> (r: Message)
        ensures
            r.kind == MessageKind::Success,
            r.text@ == text@,
    {
        Message { kind: MessageKind::Success, text: text.to_owned() }
    }

    /// An informational message.
    pub fn info(text: &str) -> (r: Message)
        ensures
            r.kind == MessageKind::Info,
            r.text@ == text@,
    {
        Message { kind: MessageKind::Info, text: text.to_owned() }
    }

    /// A warning message.
    pub fn warning(text: &str) -> (r: Message)
        ensures
            r.kind == MessageKind::Warning,
            r.text@ == text@,
    {
        Message { kind: MessageKind::Warning, text: text.to_owned() }
    }
}

/// Kind and text of each message.
pub open spec fn message_view(m: Seq<Message>) -> Seq<(MessageKind, Seq<char>)> {
    m.map_values(|x: Message| (x.kind, x.text@))
}

/// Result of a manager operation: feedback messages, the backup file if one was made,
/// and whether the stored configuration changed and must be written back.
#[derive(Debug)]
pub struct OperationResult {
    pub messages: Vec<Message>,
    pub backup_path: Option<String>,
    pub save_needed: bool,
}

/// Index of the first success message, if any.
pub open spec fn first_success(m: Seq<Message>) -> Option<int>
    decreases m.len(),
{
    if m.len() == 0 {
        None
    } else {
        match first_success(m.drop_last()) {
            Some(i) => Some(i),
            None => if m.last().kind == MessageKind::Success {
                Some((m.len() - 1) as int)
            } else {
                None
            },
        }
    }
}

proof fn lemma_first_success_prefix(m: Seq<Message>, i: int)
    requires
        0 <= i <= m.len(),
        forall|j: int| 0 <= j < i ==> (#[trigger] m[j]).kind != MessageKind::Success,
        i == m.len() || m[i].kind == MessageKind::Success,
    ensures
        first_success(m) == (if i == m.len() { None::<int> } else { Some(i) }),
    decreases m.len(),
{
    if m.len() > 0 {
        if i == m.len() {
            lemma_first_success_prefix(m.drop_last(), i - 1);
        } else {
            lemma_first_success_prefix(m.drop_last(), i);
        }
    }
}

impl OperationResult {
    /// A result with a single success message and no backup.
    pub fn success(text: &str) -> (r: OperationResult)
        ensures
            message_view(r.messages@) == seq![(MessageKind::Success, text@)],
            r.backup_path is None,
            r.save_needed,
    {
        let mut messages: Vec<Message> = Vec::new();
        messages.push(Message::success(text));
        let r = OperationResult { messages, backup_path: None, save_needed: true };
        proof {
            assert(message_view(r.messages@) =~= seq![(MessageKind::Success, text@)]);
        }
        r
    }

    /// Text of the first success message, if any.
    pub fn success_text(&self) -> (r: Option<&str>)
        ensures
            match first_success(self.messages@) {
                Some(i) => r matches Some(t) && t@ == self.messages@[i].text@,
                None => r is None,
            },
    {
        let n = self.messages.len();
        let mut i: usize = 0;
        while i < n
            invariant
                n == self.messages@.len(),
                i <= n,
                forall|j: int| 0 <= j < i ==> (#[trigger] self.messages@[j]).kind != MessageKind::Success,
            decreases n - i,
        {
            if self.messages[i].kind == MessageKind::Success {
                proof {
                    lemma_first_success_prefix(self.messages@, i as int);
                }
                return Some(self.messages[i].text.as_str());
            }
            i = i + 1;
        }
        proof {
            lemma_first_success_prefix(self.messages@, n as int);
        }
        None
    }
}

/// Device details returned by `show_device`.
#[derive(Debug)]
pub enum DeviceInfo {
    Server {
        name: String,
        ip: String,
        public_ip: String,
        listen_port: u16,
        private_key: String,
        public_key: String,
        preshared_keys_count: usize,
    },
    Client {
        name: String,
        ip: String,
        private_key: String,
        public_key: String,
    },
}

/// The state that a loaded data file gives the manager: the parsed network and the data
/// itself (which also holds the server offset range and the first client offset).
#[derive(Debug)]
pub struct Loaded {
    pub network: Ipv4Net,
    pub data: DataFile,
}

impl Loaded {
    /// The network's prefix length is valid.
    pub open spec fn wf(&self) -> bool {
        self.network.wf()
    }
}

impl ServerEntry {
    /// A copy of the entry.
    pub fn duplicate(&self) -> (r: Self)
        ensures
            r.name == self.name,
            r.ip == self.ip,
            r.public_ip == self.public_ip,
            r.listen_port == self.listen_port,
            r.private_key == self.private_key,
            r.public_key == self.public_key,
            r.preshared_keys@ == self.preshared_keys@,
    {
        ServerEntry {
            name: self.name.clone(),
            ip: self.ip.clone(),
            public_ip: self.public_ip.clone(),
            listen_port: self.listen_port,
            private_key: self.private_key.clone(),
            public_key: self.public_key.clone(),
            preshared_keys: self.preshared_keys.duplicate(),
        }
    }
}

impl ClientEntry {
    /// A copy of the entry.
    pub fn duplicate(&self) -> (r: Self)
        ensures
            r == *self,
    {
        ClientEntry {
            name: self.name.clone(),
            ip: self.ip.clone(),
            private_key: self.private_key.clone(),
            public_key: self.public_key.clone(),
        }
    }
}

} // verus!
