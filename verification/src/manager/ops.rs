//! The manager: the loaded configuration and every operation on it.

use vstd::prelude::*;
use crate::ipv4::{
    Ipv4Net, parse_ipv4_net, ipnet_parse, network_of, block_size, block_of, ipv4_text, format_ipv4,
    lemma_network_fits, lemma_block_host_range, lemma_block_bounds, net_text, parse_ipv4, parse_ipv4_text,
};
use crate::names::{NameMap, map_of, key_index, keys_sorted, lemma_same_keys, lemma_sorted_distinct, lemma_take_keys};
use crate::keys::{KeyPair, generate_keypair, generate_preshared_key, generated_pair, generated_key};
use crate::text::{push_str, push_decimal, str_eq, decimal, views};
use crate::manager::types::{
    DataFile, ServerEntry, ClientEntry, DeviceInfo, Loaded, OperationResult, MessageKind, Message,
    message_view, NetworkInfo,
};
use crate::manager::errors::ManagerError;
use crate::manager::render::{server_config, client_config, render_server_config, render_client_config};

verus! {

/// The manager of one data file: its path and, once a configuration is loaded or
/// initialized, the parsed network together with the stored data.
#[derive(Debug)]
pub struct WireGuardManager {
    data_file: String,
    state: Option<Loaded>,
}

/// Servers and clients, in name order.
pub type DeviceList<'a> = (&'a NameMap<ServerEntry>, &'a NameMap<ClientEntry>);

/// The network address of the loaded network.
pub open spec fn net_addr(l: Loaded) -> nat {
    network_of(l.network.addr, l.network.prefix_len as nat)
}

/// The highest host offset of the loaded network: the block size minus two.
pub open spec fn max_offset(l: Loaded) -> int {
    block_size(l.network.prefix_len as nat) - 2
}

/// The highest host offset is defined (the block size is computed by a shift that needs a
/// prefix length of at least 1, and at least two addresses must be in the block).
pub open spec fn host_range_defined(l: Loaded) -> bool {
    1 <= l.network.prefix_len <= 31
}

/// Whether `name` is the name of a server or of a client.
pub open spec fn name_taken(d: DataFile, name: Seq<char>) -> bool {
    d.servers.as_map().dom().contains(name) || d.clients.as_map().dom().contains(name)
}

/// The statistics that `show_network_config` reports for `l`.
pub open spec fn network_info_of(l: Loaded) -> NetworkInfo {
    let net = net_addr(l);
    let r0 = l.data.network.server_ip_range[0];
    let r1 = l.data.network.server_ip_range[1];
    let cs = l.data.network.client_ip_start;
    let max = max_offset(l);
    NetworkInfo {
        subnet: l.data.network.subnet,
        server_start_ip: (net + r0) as u32,
        server_end_ip: (net + r1) as u32,
        client_start_ip: (net + cs) as u32,
        client_end_ip: (net + max) as u32,
        server_range_offsets: (r0, r1),
        client_start_offset: cs,
        max_host_offset: max as u32,
        server_count: l.data.servers@.len() as u32,
        server_capacity: (r1 - r0 + 1) as u32,
        client_count: l.data.clients@.len() as u32,
        client_capacity: (max - cs + 1) as u32,
    }
}

/// The details that `show_device` reports for `name`: the server of that name if there
/// is one, else the client, else nothing.
pub open spec fn device_info_of(l: Loaded, name: Seq<char>) -> Option<DeviceInfo> {
    if l.data.servers.as_map().dom().contains(name) {
        let s = l.data.servers.as_map()[name];
        Some(
            DeviceInfo::Server {
                name: s.name,
                ip: s.ip,
                public_ip: s.public_ip,
                listen_port: s.listen_port,
                private_key: s.private_key,
                public_key: s.public_key,
                preshared_keys_count: s.preshared_keys@.len() as usize,
            },
        )
    } else if l.data.clients.as_map().dom().contains(name) {
        let c = l.data.clients.as_map()[name];
        Some(DeviceInfo::Client { name: c.name, ip: c.ip, private_key: c.private_key, public_key: c.public_key })
    } else {
        None
    }
}

/// The configuration text that `generate_config` gives for `name`: the server's if
/// there is a server of that name, else the client's, else nothing.
pub open spec fn config_of(l: Loaded, name: Seq<char>) -> Option<Seq<char>> {
    if l.data.servers.as_map().dom().contains(name) {
        Some(server_config(l.data, name, l.data.servers.as_map()[name], l.network.prefix_len))
    } else if l.data.clients.as_map().dom().contains(name) {
        Some(client_config(l.data, name, l.data.clients.as_map()[name], l.network.prefix_len))
    } else {
        None
    }
}

/// `v` holds the configuration of every device as (name, text) pairs: servers first, then
/// clients, each in name order.
pub open spec fn all_configs(l: Loaded, v: Seq<(String, String)>) -> bool {
    let s = l.data.servers@;
    let c = l.data.clients@;
    &&& v.len() == s.len() + c.len()
    &&& forall|i: int| 0 <= i < s.len() ==> (#[trigger] v[i]).0@ == s[i].0@
        && v[i].1@ == server_config(l.data, s[i].0@, s[i].1, l.network.prefix_len)
    &&& forall|i: int| 0 <= i < c.len() ==> (#[trigger] v[s.len() + i]).0@ == c[i].0@
        && v[s.len() + i].1@ == client_config(l.data, c[i].0@, c[i].1, l.network.prefix_len)
}

impl WireGuardManager {
    #[verifier::type_invariant]
    spec fn state_valid(self) -> bool {
        self.state matches Some(l) ==> l.wf()
    }

    /// The path of the data file.
    pub closed spec fn path(self) -> Seq<char> {
        self.data_file@
    }

    /// The loaded configuration, if any.
    pub closed spec fn loaded(self) -> Option<Loaded> {
        self.state
    }

    /// Creates a manager for `data_file`, given the data that the file held (`None` when it
    /// does not exist or could not be read). Data whose subnet does not parse is not loaded.
    pub fn new(data_file: &str, data: Option<DataFile>) -> (r: Self)
        ensures
            r.path() == data_file@,
            match data {
                None => r.loaded() is None,
                Some(d) => match ipnet_parse(d.network.subnet@) {
                    None => r.loaded() is None,
                    Some(v) => r.loaded() == Some(Loaded {
                        network: Ipv4Net { addr: v.0, prefix_len: v.1 },
                        data: d,
                    }),
                },
            },
    {
        let state = match data {
            None => None,
            Some(d) => match parse_ipv4_net(d.network.subnet.as_str()) {
                None => None,
                Some(network) => Some(Loaded { network, data: d }),
            },
        };
        WireGuardManager { data_file: data_file.to_owned(), state }
    }

    /// The path of the data file.
    pub fn data_file(&self) -> (r: &str)
        ensures
            r@ == self.path(),
    {
        self.data_file.as_str()
    }

    /// The loaded configuration, or the error for a manager that has none.
    pub fn state(&self) -> (r: Result<&Loaded, ManagerError>)
        ensures
            match self.loaded() {
                None => r matches Err(ManagerError::NotInitialized),
                Some(l) => r == Ok::<&Loaded, ManagerError>(&l) && l.wf(),
            },
    {
        proof {
            use_type_invariant(self);
        }
        match &self.state {
            None => Err(ManagerError::NotInitialized),
            Some(l) => Ok(l),
        }
    }

    /// References to the server and client maps.
    pub fn list_devices(&self) -> (r: Result<DeviceList<'_>, ManagerError>)
        ensures
            match self.loaded() {
                None => r matches Err(ManagerError::NotInitialized),
                Some(l) => r matches Ok(v) && *v.0 == l.data.servers && *v.1 == l.data.clients,
            },
    {
        let l = self.state()?;
        Ok((&l.data.servers, &l.data.clients))
    }

    /// Looks up a device by name (servers first) and returns its details.
    pub fn show_device(&self, name: &str) -> (r: Result<DeviceInfo, ManagerError>)
        ensures
            match self.loaded() {
                None => r matches Err(ManagerError::NotInitialized),
                Some(l) => match device_info_of(l, name@) {
                    Some(info) => r == Ok::<DeviceInfo, ManagerError>(info),
                    None => r matches Err(ManagerError::DeviceNotFound { name: n }) && n@ == name@,
                },
            },
    {
        let l = self.state()?;
        match l.data.servers.get(name) {
            Some(s) => {
                return Ok(DeviceInfo::Server {
                    name: s.name.clone(),
                    ip: s.ip.clone(),
                    public_ip: s.public_ip.clone(),
                    listen_port: s.listen_port,
                    private_key: s.private_key.clone(),
                    public_key: s.public_key.clone(),
                    preshared_keys_count: s.preshared_keys.len(),
                });
            },
            None => {},
        }
        match l.data.clients.get(name) {
            Some(c) => Ok(DeviceInfo::Client {
                name: c.name.clone(),
                ip: c.ip.clone(),
                private_key: c.private_key.clone(),
                public_key: c.public_key.clone(),
            }),
            None => Err(ManagerError::DeviceNotFound { name: name.to_owned() }),
        }
    }

    /// The WireGuard configuration of the named server.
    pub fn generate_server_config(&self, name: &str) -> (r: Result<String, ManagerError>)
        ensures
            match self.loaded() {
                None => r matches Err(ManagerError::NotInitialized),
                Some(l) => if l.data.servers.as_map().dom().contains(name@) {
                    r matches Ok(t) && t@ == server_config(
                        l.data,
                        name@,
                        l.data.servers.as_map()[name@],
                        l.network.prefix_len,
                    )
                } else {
                    r matches Err(ManagerError::ServerNotFound { name: n }) && n@ == name@
                },
            },
    {
        let l = self.state()?;
        match l.data.servers.get(name) {
            Some(s) => Ok(render_server_config(&l.data, name, s, l.network.prefix_len)),
            None => Err(ManagerError::ServerNotFound { name: name.to_owned() }),
        }
    }

    /// The WireGuard configuration of the named client.
    pub fn generate_client_config(&self, name: &str) -> (r: Result<String, ManagerError>)
        ensures
            match self.loaded() {
                None => r matches Err(ManagerError::NotInitialized),
                Some(l) => if l.data.clients.as_map().dom().contains(name@) {
                    r matches Ok(t) && t@ == client_config(
                        l.data,
                        name@,
                        l.data.clients.as_map()[name@],
                        l.network.prefix_len,
                    )
                } else {
                    r matches Err(ManagerError::ClientNotFound { name: n }) && n@ == name@
                },
            },
    {
        let l = self.state()?;
        match l.data.clients.get(name) {
            Some(c) => Ok(render_client_config(&l.data, name, c, l.network.prefix_len)),
            None => Err(ManagerError::ClientNotFound { name: name.to_owned() }),
        }
    }

    /// The configuration of any device: of the server of that name if there is one, else of
    /// the client.
    pub fn generate_config(&self, name: &str) -> (r: Result<String, ManagerError>)
        ensures
            match self.loaded() {
                None => r matches Err(ManagerError::NotInitialized),
                Some(l) => match config_of(l, name@) {
                    Some(t) => r matches Ok(x) && x@ == t,
                    None => r matches Err(ManagerError::DeviceNotFound { name: n }) && n@ == name@,
                },
            },
    {
        let l = self.state()?;
        if l.data.servers.contains_key(name) {
            self.generate_server_config(name)
        } else if l.data.clients.contains_key(name) {
            self.generate_client_config(name)
        } else {
            Err(ManagerError::DeviceNotFound { name: name.to_owned() })
        }
    }

    /// The configuration of every device, as (name, text) pairs: servers first, then
    /// clients, each in name order.
    pub fn generate_all_configs(&self) -> (r: Result<Vec<(String, String)>, ManagerError>)
        ensures
            match self.loaded() {
                None => r matches Err(ManagerError::NotInitialized),
                Some(l) => r matches Ok(v) && all_configs(l, v@),
            },
    {
        let l = self.state()?;
        let mut out: Vec<(String, String)> = Vec::new();
        let ghost s = l.data.servers@;
        let ghost c = l.data.clients@;
        let n = l.data.servers.len();
        let mut i: usize = 0;
        while i < n
            invariant
                n == s.len(),
                s == l.data.servers@,
                i <= n,
                out@.len() == i,
                forall|k: int| 0 <= k < i ==> (#[trigger] out@[k]).0@ == s[k].0@
                    && out@[k].1@ == server_config(l.data, s[k].0@, s[k].1, l.network.prefix_len),
            decreases n - i,
        {
            let name = l.data.servers.key_at(i);
            let entry = l.data.servers.value_at(i);
            let text = render_server_config(&l.data, name.as_str(), entry, l.network.prefix_len);
            out.push((name.clone(), text));
            i = i + 1;
        }
        let m = l.data.clients.len();
        let mut j: usize = 0;
        while j < m
            invariant
                n == s.len(),
                m == c.len(),
                c == l.data.clients@,
                j <= m,
                out@.len() == n + j,
                forall|k: int| 0 <= k < n ==> (#[trigger] out@[k]).0@ == s[k].0@
                    && out@[k].1@ == server_config(l.data, s[k].0@, s[k].1, l.network.prefix_len),
                forall|k: int| 0 <= k < j ==> (#[trigger] out@[n + k]).0@ == c[k].0@
                    && out@[n + k].1@ == client_config(l.data, c[k].0@, c[k].1, l.network.prefix_len),
            decreases m - j,
        {
            let name = l.data.clients.key_at(j);
            let entry = l.data.clients.value_at(j);
            let text = render_client_config(&l.data, name.as_str(), entry, l.network.prefix_len);
            out.push((name.clone(), text));
            j = j + 1;
        }
        Ok(out)
    }
}

/// The texts of a list of strings.
pub open spec fn texts(v: Seq<&str>) -> Seq<Seq<char>> {
    v.map_values(|x: &str| x@)
}

/// The addresses that the servers hold, in name order.
pub open spec fn server_ips(s: Seq<(String, ServerEntry)>) -> Seq<Seq<char>> {
    s.map_values(|e: (String, ServerEntry)| e.1.ip@)
}

/// The addresses that the clients hold, in name order.
pub open spec fn client_ips(s: Seq<(String, ClientEntry)>) -> Seq<Seq<char>> {
    s.map_values(|e: (String, ClientEntry)| e.1.ip@)
}

/// The first offset in `[i, end]` whose address (the network address `net` plus the
/// offset, in dotted-quad text) is not among `used`.
pub open spec fn first_free(net: nat, i: int, end: int, used: Seq<Seq<char>>) -> Option<int>
    decreases end + 1 - i,
{
    if i > end {
        None
    } else if !used.contains(ipv4_text((net + i) as u32)) {
        Some(i)
    } else {
        first_free(net, i + 1, end, used)
    }
}

/// Scanning `[start, end]` for a free offset never computes an address past the end of
/// the address space.
pub open spec fn scan_fits(net: nat, start: int, end: int, used: Seq<Seq<char>>) -> bool {
    match first_free(net, start, end, used) {
        Some(k) => net + k < 0x1_0000_0000,
        None => start > end || net + end < 0x1_0000_0000,
    }
}

/// The free offset found is the lowest one: every offset below it is in use, and it is not;
/// when none is found, every offset of the range is in use.
pub proof fn lemma_first_free(net: nat, i: int, end: int, used: Seq<Seq<char>>)
    ensures
        match first_free(net, i, end, used) {
            Some(k) => i <= k <= end && !used.contains(ipv4_text((net + k) as u32))
                && forall|j: int| i <= j < k ==> used.contains(#[trigger] ipv4_text((net + j) as u32)),
            None => forall|j: int| i <= j <= end ==> used.contains(#[trigger] ipv4_text((net + j) as u32)),
        },
    decreases end + 1 - i,
{
    if i <= end && used.contains(ipv4_text((net + i) as u32)) {
        lemma_first_free(net, i + 1, end, used);
    }
}

/// Both entries describe the same device: all fields but the pre-shared keys agree.
pub open spec fn same_identity(a: ServerEntry, b: ServerEntry) -> bool {
    &&& b.name == a.name
    &&& b.ip == a.ip
    &&& b.public_ip == a.public_ip
    &&& b.listen_port == a.listen_port
    &&& b.private_key == a.private_key
    &&& b.public_key == a.public_key
}

/// `b` is `a` with a freshly generated pre-shared key for `peer` added to its keys.
pub open spec fn psk_added(a: ServerEntry, b: ServerEntry, peer: Seq<char>) -> bool {
    &&& same_identity(a, b)
    &&& b.preshared_keys.as_map().dom().contains(peer)
    &&& b.preshared_keys.as_map() == a.preshared_keys.as_map().insert(peer, b.preshared_keys.as_map()[peer])
    &&& generated_key(b.preshared_keys.as_map()[peer]@)
}

/// Every server of `before` is in `after`, with a new pre-shared key for `peer`.
pub open spec fn servers_gain_psk(
    before: Map<Seq<char>, ServerEntry>,
    after: Map<Seq<char>, ServerEntry>,
    peer: Seq<char>,
) -> bool {
    &&& after.dom() == before.dom()
    &&& forall|k: Seq<char>| #[trigger] before.dom().contains(k) ==> psk_added(before[k], after[k], peer)
}

/// The result carries exactly one message, a success with this text, and asks for the
/// data to be saved.
pub open spec fn success_with(res: OperationResult, text: Seq<char>) -> bool {
    &&& message_view(res.messages@) == seq![(MessageKind::Success, text)]
    &&& res.backup_path is None
    &&& res.save_needed
}

/// `after` is `l` with client `name` added at address `ip`, and a pre-shared key for it
/// added to every server.
pub open spec fn client_added(l: Loaded, after: Option<Loaded>, name: Seq<char>, ip: Seq<char>) -> bool {
    after matches Some(l2) && {
        let c = l2.data.clients.as_map()[name];
        &&& l2.network == l.network
        &&& l2.data.network == l.data.network
        &&& l2.data.clients.as_map() == l.data.clients.as_map().insert(name, c)
        &&& c.name@ == name
        &&& c.ip@ == ip
        &&& generated_pair(KeyPair { private_key: c.private_key, public_key: c.public_key })
        &&& servers_gain_psk(l.data.servers.as_map(), l2.data.servers.as_map(), name)
    }
}

fn text_list_server(m: &NameMap<ServerEntry>) -> (r: Vec<&str>)
    ensures
        texts(r@) == server_ips(m@),
{
    let mut r: Vec<&str> = Vec::new();
    let n = m.len();
    let mut i: usize = 0;
    while i < n
        invariant
            n == m@.len(),
            i <= n,
            texts(r@) == server_ips(m@).take(i as int),
        decreases n - i,
    {
        let ip = m.value_at(i).ip.as_str();
        let ghost before = r@;
        r.push(ip);
        proof {
            assert(ip@ == server_ips(m@)[i as int]);
            assert(r@ == before.push(ip));
            assert(texts(r@) =~= texts(before).push(ip@));
            assert(server_ips(m@).take(i + 1) =~= server_ips(m@).take(i as int).push(server_ips(m@)[i as int]));
        }
        i = i + 1;
    }
    proof {
        assert(server_ips(m@).take(n as int) =~= server_ips(m@));
    }
    r
}

fn text_list_client(m: &NameMap<ClientEntry>) -> (r: Vec<&str>)
    ensures
        texts(r@) == client_ips(m@),
{
    let mut r: Vec<&str> = Vec::new();
    let n = m.len();
    let mut i: usize = 0;
    while i < n
        invariant
            n == m@.len(),
            i <= n,
            texts(r@) == client_ips(m@).take(i as int),
        decreases n - i,
    {
        let ip = m.value_at(i).ip.as_str();
        let ghost before = r@;
        r.push(ip);
        proof {
            assert(ip@ == client_ips(m@)[i as int]);
            assert(r@ == before.push(ip));
            assert(texts(r@) =~= texts(before).push(ip@));
            assert(client_ips(m@).take(i + 1) =~= client_ips(m@).take(i as int).push(client_ips(m@)[i as int]));
        }
        i = i + 1;
    }
    proof {
        assert(client_ips(m@).take(n as int) =~= client_ips(m@));
    }
    r
}

fn contains_text(used: &Vec<&str>, t: &str) -> (r: bool)
    ensures
        r == texts(used@).contains(t@),
{
    let n = used.len();
    let mut i: usize = 0;
    while i < n
        invariant
            n == used@.len(),
            i <= n,
            forall|j: int| 0 <= j < i ==> used@[j]@ != t@,
        decreases n - i,
    {
        if str_eq(used[i], t) {
            proof {
                assert(texts(used@)[i as int] == t@);
            }
            return true;
        }
        i = i + 1;
    }
    proof {
        if texts(used@).contains(t@) {
            let j = choose|j: int| 0 <= j < texts(used@).len() && texts(used@)[j] == t@;
            assert(used@[j]@ == t@);
        }
    }
    false
}

/// The lowest offset in `[start, end]` whose address is not in use, or `None` when the
/// scan would compute an address past the end of the address space.
fn first_free_checked(net: u32, start: u32, end: u32, used: &Vec<&str>) -> (r: Option<Option<u32>>)
    ensures
        r is Some <==> scan_fits(net as nat, start as int, end as int, texts(used@)),
        r matches Some(x) ==> match first_free(net as nat, start as int, end as int, texts(used@)) {
            Some(k) => x == Some(k as u32),
            None => x is None,
        },
{
    let ghost u = texts(used@);
    if start > end {
        return Some(None);
    }
    let mut i = start;
    loop
        invariant
            start <= i <= end,
            u == texts(used@),
            first_free(net as nat, start as int, end as int, u) == first_free(net as nat, i as int, end as int, u),
        decreases end - i,
    {
        proof {
            lemma_first_free(net as nat, i as int, end as int, u);
        }
        if net as u64 + i as u64 >= 0x1_0000_0000 {
            return None;
        }
        let text = format_ipv4(net + i);
        if !contains_text(used, text.as_str()) {
            return Some(Some(i));
        }
        if i == end {
            return Some(None);
        }
        i = i + 1;
    }
}

/// The highest host offset, `2^(32 - prefix) - 2`.
fn max_host_offset(l: &Loaded) -> (r: u32)
    requires
        l.wf(),
        host_range_defined(*l),
    ensures
        r == max_offset(*l),
{
    proof {
        lemma_block_host_range(l.network.prefix_len as nat);
    }
    (block_of(l.network.prefix_len) - 2) as u32
}

fn message_with_ip(prefix: &str, name: &str, middle: &str, ip: &str) -> (r: String)
    ensures
        r@ == prefix@ + name@ + middle@ + ip@,
{
    let mut s = prefix.to_owned();
    push_str(&mut s, name);
    push_str(&mut s, middle);
    push_str(&mut s, ip);
    s
}

impl WireGuardManager {
    /// Adding client `name` is defined where its highest host offset can be computed:
    /// when the name is free, the prefix length must lie between 1 and 31.
    pub open spec fn add_client_defined(&self, name: Seq<char>) -> bool {
        match self.loaded() {
            None => true,
            Some(l) => !name_taken(l.data, name) ==> host_range_defined(l),
        }
    }

    /// Exec form of [`WireGuardManager::add_client_defined`].
    pub fn can_add_client(&self, name: &str) -> (r: bool)
        ensures
            r == self.add_client_defined(name@),
    {
        match &self.state {
            None => true,
            Some(l) => {
                let taken = l.data.servers.contains_key(name) || l.data.clients.contains_key(name);
                taken || (1 <= l.network.prefix_len && l.network.prefix_len <= 31)
            },
        }
    }

    /// Adds a new client at the lowest free client address, with a fresh key pair, and gives
    /// every server a fresh pre-shared key for it.
    pub fn add_client(&mut self, name: &str) -> (r: Result<OperationResult, ManagerError>)
        requires
            old(self).add_client_defined(name@),
        ensures
            add_client_spec(*old(self), *final(self), name@, r),

    {
        proof {
            use_type_invariant(&*self);
        }
        let ghost before = self.state;
        let (net, k) = {
            let l = self.state()?;
            if l.data.servers.contains_key(name) || l.data.clients.contains_key(name) {
                return Err(ManagerError::NameExists { name: name.to_owned() });
            }
            let net = l.network.network();
            let max = max_host_offset(l);
            let used = text_list_client(&l.data.clients);
            proof {
                lemma_network_fits(l.network.addr, l.network.prefix_len as nat);
                lemma_first_free(net as nat, l.data.network.client_ip_start as int, max as int, texts(used@));
            }
            match first_free_checked(net, l.data.network.client_ip_start, max, &used) {
                Some(Some(k)) => (net, k),
                _ => return Err(ManagerError::ClientIpExhausted),
            }
        };
        let ip = format_ipv4(net + k);
        let message = message_with_ip("Client '", name, "' added, IP: ", ip.as_str());
        let kp = generate_keypair();
        let mut taken: Option<Loaded> = None;
        std::mem::swap(&mut taken, &mut self.state);
        let mut l = taken.unwrap();
        let ghost l0 = l;
        let ghost s0 = l.data.servers@;
        let n = l.data.servers.len();
        let mut i: usize = 0;
        while i < n
            invariant
                n == s0.len(),
                keys_sorted(s0),
                i <= n,
                l.network == l0.network,
                l.data.network == l0.data.network,
                l.data.clients == l0.data.clients,
                l.data.servers@.len() == n,
                forall|j: int| 0 <= j < n ==> (#[trigger] l.data.servers@[j]).0 == s0[j].0,
                forall|j: int| i <= j < n ==> (#[trigger] l.data.servers@[j]).1 == s0[j].1,
                forall|j: int| 0 <= j < i ==> psk_added(s0[j].1, (#[trigger] l.data.servers@[j]).1, name@),
            decreases n - i,
        {
            let psk = generate_preshared_key();
            let ghost cur = l.data.servers@;
            let (key, mut entry) = l.data.servers.remove_at(i);
            let _ = entry.preshared_keys.insert(name.to_owned(), psk);
            proof {
                let t = cur.update(i as int, (key, entry));
                assert(cur.remove(i as int).insert(i as int, (key, entry)) =~= t);
                assert forall|a: int, b: int| 0 <= a < b < t.len() implies chars_lt_at(t, a, b) by {
                    assert(t[a].0 == s0[a].0 && t[b].0 == s0[b].0);
                    assert(keys_sorted(s0));
                }
            }
            l.data.servers.insert_at(i, key, entry);
            i = i + 1;
        }
        proof {
            let t = l.data.servers@;
            lemma_same_keys(s0, t);
            assert forall|k: Seq<char>| #[trigger] map_of(s0).dom().contains(k) implies psk_added(
                map_of(s0)[k],
                map_of(t)[k],
                name@,
            ) by {
                let j = key_index(s0, k);
                assert(psk_added(s0[j].1, t[j].1, name@));
            }
        }
        let entry = ClientEntry {
            name: name.to_owned(),
            ip,
            private_key: kp.private_key,
            public_key: kp.public_key,
        };
        let _ = l.data.clients.insert(name.to_owned(), entry);
        self.state = Some(l);
        Ok(OperationResult::success(message.as_str()))
    }
}

/// `after` is `l` with server `name` added at address `ip`: its pre-shared keys cover
/// every server and client that existed before, and each existing server holds the same
/// key for it as it holds for that server.
pub open spec fn server_added(
    l: Loaded,
    after: Option<Loaded>,
    name: Seq<char>,
    ip: Seq<char>,
    public_ip: Seq<char>,
    port: u16,
) -> bool {
    after matches Some(l2) && {
        let s = l2.data.servers.as_map()[name];
        let others = l2.data.servers.as_map().remove(name);
        let p = s.preshared_keys.as_map();
        let before = l.data.servers.as_map();
        &&& l2.network == l.network
        &&& l2.data.network == l.data.network
        &&& l2.data.clients == l.data.clients
        &&& l2.data.servers.as_map().dom().contains(name)
        &&& servers_gain_psk(before, others, name)
        &&& s.name@ == name
        &&& s.ip@ == ip
        &&& s.public_ip@ == public_ip
        &&& s.listen_port == port
        &&& generated_pair(KeyPair { private_key: s.private_key, public_key: s.public_key })
        &&& p.dom() == before.dom().union(l.data.clients.as_map().dom())
        &&& forall|k: Seq<char>| #[trigger] p.dom().contains(k) ==> generated_key(p[k]@)
        &&& forall|k: Seq<char>| before.dom().contains(k) && !l.data.clients.as_map().dom().contains(k)
            ==> #[trigger] p[k] == others[k].preshared_keys.as_map()[name]
    }
}

impl WireGuardManager {
    /// Adding server `name` is defined where the server range can be scanned: when the
    /// name is free, no address computed while scanning may pass the end of the address
    /// space, and when every address is taken the range size must be a 32-bit number.
    pub open spec fn add_server_defined(&self, name: Seq<char>) -> bool {
        match self.loaded() {
            None => true,
            Some(l) => !name_taken(l.data, name) ==> {
                let net = net_addr(l);
                let lo = l.data.network.server_ip_range[0] as int;
                let hi = l.data.network.server_ip_range[1] as int;
                let u = server_ips(l.data.servers@);
                &&& scan_fits(net, lo, hi, u)
                &&& first_free(net, lo, hi, u) is None ==> lo <= hi && hi - lo + 1 <= u32::MAX
            },
        }
    }

    /// Exec form of [`WireGuardManager::add_server_defined`].
    pub fn can_add_server(&self, name: &str) -> (r: bool)
        ensures
            r == self.add_server_defined(name@),
    {
        proof {
            use_type_invariant(self);
        }
        match &self.state {
            None => true,
            Some(l) => {
                if l.data.servers.contains_key(name) || l.data.clients.contains_key(name) {
                    return true;
                }
                let net = l.network.network();
                let lo = l.data.network.server_ip_range[0];
                let hi = l.data.network.server_ip_range[1];
                let used = text_list_server(&l.data.servers);
                match first_free_checked(net, lo, hi, &used) {
                    None => false,
                    Some(Some(_)) => true,
                    Some(None) => lo <= hi && hi - lo < u32::MAX,
                }
            },
        }
    }

    /// Adds a new server at the lowest free address of the server range, with a fresh key
    /// pair, a fresh pre-shared key shared with every existing server, and a fresh one for
    /// every existing client.
    pub fn add_server(&mut self, name: &str, public_ip: &str, port: u16) -> (r: Result<OperationResult, ManagerError>)
        requires
            old(self).add_server_defined(name@),
        ensures
            add_server_spec(*old(self), *final(self), name@, public_ip@, port, r),

    {
        proof {
            use_type_invariant(&*self);
        }
        let (net, k) = {
            let l = self.state()?;
            if l.data.servers.contains_key(name) || l.data.clients.contains_key(name) {
                return Err(ManagerError::NameExists { name: name.to_owned() });
            }
            let net = l.network.network();
            let lo = l.data.network.server_ip_range[0];
            let hi = l.data.network.server_ip_range[1];
            let used = text_list_server(&l.data.servers);
            proof {
                lemma_first_free(net as nat, lo as int, hi as int, texts(used@));
            }
            match first_free_checked(net, lo, hi, &used) {
                Some(Some(k)) => (net, k),
                _ => return Err(ManagerError::ServerIpExhausted { max: hi - lo + 1 }),
            }
        };
        let ip = format_ipv4(net + k);
        let message = message_with_ip("Server '", name, "' added, IP: ", ip.as_str());
        let kp = generate_keypair();
        let mut taken: Option<Loaded> = None;
        std::mem::swap(&mut taken, &mut self.state);
        let mut l = taken.unwrap();
        let ghost l0 = l;
        let ghost s0 = l.data.servers@;
        let mut psks: NameMap<String> = NameMap::new();
        let n = l.data.servers.len();
        let mut i: usize = 0;
        proof {
            assert(map_of(s0.take(0)).dom() =~= Set::<Seq<char>>::empty());
        }
        while i < n
            invariant
                n == s0.len(),
                keys_sorted(s0),
                i <= n,
                l.network == l0.network,
                l.data.network == l0.data.network,
                l.data.clients == l0.data.clients,
                l.data.servers@.len() == n,
                forall|j: int| 0 <= j < n ==> (#[trigger] l.data.servers@[j]).0 == s0[j].0,
                forall|j: int| i <= j < n ==> (#[trigger] l.data.servers@[j]).1 == s0[j].1,
                forall|j: int| 0 <= j < i ==> psk_added(s0[j].1, (#[trigger] l.data.servers@[j]).1, name@),
                psks.as_map().dom() == map_of(s0.take(i as int)).dom(),
                forall|j: int| 0 <= j < i ==> psks.as_map()[s0[j].0@]
                    == (#[trigger] l.data.servers@[j]).1.preshared_keys.as_map()[name@],
            decreases n - i,
        {
            let psk = generate_preshared_key();
            let ghost cur = l.data.servers@;
            let ghost p0 = psks.as_map();
            let (key, mut entry) = l.data.servers.remove_at(i);
            let _ = psks.insert(key.clone(), psk.clone());
            let _ = entry.preshared_keys.insert(name.to_owned(), psk);
            proof {
                let t = cur.update(i as int, (key, entry));
                assert(cur.remove(i as int).insert(i as int, (key, entry)) =~= t);
                assert forall|a: int, b: int| 0 <= a < b < t.len() implies chars_lt_at(t, a, b) by {
                    assert(t[a].0 == s0[a].0 && t[b].0 == s0[b].0);
                }
                lemma_take_keys(s0, i as int);
                assert forall|j: int| 0 <= j < i implies psks.as_map()[s0[j].0@] == p0[s0[j].0@] by {
                    lemma_sorted_distinct(s0, j, i as int);
                }
            }
            l.data.servers.insert_at(i, key, entry);
            i = i + 1;
        }
        let ghost t1 = l.data.servers@;
        let ghost c0 = l.data.clients@;
        proof {
            lemma_same_keys(s0, t1);
            assert(s0.take(n as int) =~= s0);
            assert forall|k: Seq<char>| #[trigger] map_of(s0).dom().contains(k) implies psk_added(
                map_of(s0)[k],
                map_of(t1)[k],
                name@,
            ) && psks.as_map()[k] == map_of(t1)[k].preshared_keys.as_map()[name@] by {
                let j = key_index(s0, k);
                assert(psk_added(s0[j].1, t1[j].1, name@));
                assert(psks.as_map()[s0[j].0@] == t1[j].1.preshared_keys.as_map()[name@]);
            }
            assert(c0.take(0) =~= Seq::<(String, ClientEntry)>::empty());
            assert(psks.as_map().dom() =~= map_of(s0).dom().union(map_of(c0.take(0)).dom()));
        }
        let m = l.data.clients.len();
        let mut j: usize = 0;
        while j < m
            invariant
                m == c0.len(),
                j <= m,
                c0 == l.data.clients@,
                psks.as_map().dom() == map_of(s0).dom().union(map_of(c0.take(j as int)).dom()),
                forall|k: Seq<char>| #[trigger] psks.as_map().dom().contains(k) ==> generated_key(psks.as_map()[k]@),
                forall|k: Seq<char>| map_of(s0).dom().contains(k) && !map_of(c0.take(j as int)).dom().contains(k)
                    ==> #[trigger] psks.as_map()[k] == map_of(t1)[k].preshared_keys.as_map()[name@],
            decreases m - j,
        {
            let ck = l.data.clients.key_at(j);
            let psk = generate_preshared_key();
            let _ = psks.insert(ck.clone(), psk);
            proof {
                lemma_take_keys(c0, j as int);
                assert(psks.as_map().dom() =~= map_of(s0).dom().union(map_of(c0.take(j + 1)).dom()));
            }
            j = j + 1;
        }
        proof {
            assert(c0.take(m as int) =~= c0);
        }
        let entry = ServerEntry {
            name: name.to_owned(),
            ip,
            public_ip: public_ip.to_owned(),
            listen_port: port,
            private_key: kp.private_key,
            public_key: kp.public_key,
            preshared_keys: psks,
        };
        let ghost before_insert = l.data.servers.as_map();
        let _ = l.data.servers.insert(name.to_owned(), entry);
        proof {
            assert(l.data.servers.as_map().remove(name@) =~= before_insert);
        }
        self.state = Some(l);
        Ok(OperationResult::success(message.as_str()))
    }
}

/// The result carries exactly one message, a success with this text, and nothing changed
/// that needs saving.
pub open spec fn unchanged_with(res: OperationResult, text: Seq<char>) -> bool {
    &&& message_view(res.messages@) == seq![(MessageKind::Success, text)]
    &&& res.backup_path is None
    &&& !res.save_needed
}

/// Every server of `before` is in `after` with the pre-shared key for `peer` dropped.
pub open spec fn servers_lose_psk(
    before: Map<Seq<char>, ServerEntry>,
    after: Map<Seq<char>, ServerEntry>,
    peer: Seq<char>,
) -> bool {
    &&& after.dom() == before.dom()
    &&& forall|k: Seq<char>| #[trigger] before.dom().contains(k) ==> same_identity(before[k], after[k])
        && after[k].preshared_keys.as_map() == before[k].preshared_keys.as_map().remove(peer)
}

/// The pre-shared keys with the key stored for `from` moved to `to`, if there is one.
pub open spec fn renamed_psks(a: Map<Seq<char>, String>, from: Seq<char>, to: Seq<char>) -> Map<Seq<char>, String> {
    if a.dom().contains(from) {
        a.remove(from).insert(to, a[from])
    } else {
        a
    }
}

/// Every server of `before` is in `after` with its pre-shared key for `from` now stored for
/// `to`.
pub open spec fn servers_rename_psk(
    before: Map<Seq<char>, ServerEntry>,
    after: Map<Seq<char>, ServerEntry>,
    from: Seq<char>,
    to: Seq<char>,
) -> bool {
    &&& after.dom() == before.dom()
    &&& forall|k: Seq<char>| #[trigger] before.dom().contains(k) ==> same_identity(before[k], after[k])
        && after[k].preshared_keys.as_map() == renamed_psks(before[k].preshared_keys.as_map(), from, to)
}

/// What happens to one server's pre-shared keys when `from` is deleted (`to` is `None`) or
/// renamed to `to`.
pub open spec fn psks_edited(a: ServerEntry, b: ServerEntry, from: Seq<char>, to: Option<Seq<char>>) -> bool {
    &&& same_identity(a, b)
    &&& b.preshared_keys.as_map() == match to {
        None => a.preshared_keys.as_map().remove(from),
        Some(t) => renamed_psks(a.preshared_keys.as_map(), from, t),
    }
}

/// Drops (when `to` is `None`) or renames every server's pre-shared key for `from`.
fn edit_server_psks(servers: &mut NameMap<ServerEntry>, from: &str, to: Option<&str>)
    ensures
        match to {
            None => servers_lose_psk(old(servers).as_map(), final(servers).as_map(), from@),
            Some(t) => servers_rename_psk(old(servers).as_map(), final(servers).as_map(), from@, t@),
        },
{
    let ghost s0 = servers@;
    let ghost target = match to {
        None => None::<Seq<char>>,
        Some(t) => Some(t@),
    };
    let n = servers.len();
    let mut i: usize = 0;
    while i < n
        invariant
            n == s0.len(),
            keys_sorted(s0),
            i <= n,
            s0 == old(servers)@,
            target == match to {
                None => None::<Seq<char>>,
                Some(t) => Some(t@),
            },
            servers@.len() == n,
            forall|j: int| 0 <= j < n ==> (#[trigger] servers@[j]).0 == s0[j].0,
            forall|j: int| i <= j < n ==> (#[trigger] servers@[j]).1 == s0[j].1,
            forall|j: int| 0 <= j < i ==> psks_edited(s0[j].1, (#[trigger] servers@[j]).1, from@, target),
        decreases n - i,
    {
        let ghost cur = servers@;
        let (key, mut entry) = servers.remove_at(i);
        let ghost p0 = entry.preshared_keys.as_map();
        let removed = entry.preshared_keys.remove(from);
        match (to, removed) {
            (Some(t), Some(psk)) => {
                let _ = entry.preshared_keys.insert(t.to_owned(), psk);
            },
            _ => {},
        }
        proof {
            if removed is None {
                assert(p0.remove(from@) =~= p0);
            }
            let t = cur.update(i as int, (key, entry));
            assert(cur.remove(i as int).insert(i as int, (key, entry)) =~= t);
            assert forall|a: int, b: int| 0 <= a < b < t.len() implies chars_lt_at(t, a, b) by {
                assert(t[a].0 == s0[a].0 && t[b].0 == s0[b].0);
            }
        }
        servers.insert_at(i, key, entry);
        i = i + 1;
    }
    proof {
        let t = servers@;
        lemma_same_keys(s0, t);
        assert forall|k: Seq<char>| #[trigger] map_of(s0).dom().contains(k) implies psks_edited(
            map_of(s0)[k],
            map_of(t)[k],
            from@,
            target,
        ) by {
            let j = key_index(s0, k);
            assert(psks_edited(s0[j].1, t[j].1, from@, target));
        }
    }
}

fn quoted_message(prefix: &str, name: &str, suffix: &str) -> (r: String)
    ensures
        r@ == prefix@ + name@ + suffix@,
{
    let mut s = prefix.to_owned();
    push_str(&mut s, name);
    push_str(&mut s, suffix);
    s
}

fn unchanged_result(text: &str) -> (r: OperationResult)
    ensures
        unchanged_with(r, text@),
{
    let mut messages: Vec<Message> = Vec::new();
    messages.push(Message::success(text));
    let r = OperationResult { messages, backup_path: None, save_needed: false };
    proof {
        assert(message_view(r.messages@) =~= seq![(MessageKind::Success, text@)]);
    }
    r
}

impl WireGuardManager {
    /// Deletes a server and the pre-shared key every other server holds for it.
    pub fn delete_server(&mut self, name: &str) -> (r: Result<OperationResult, ManagerError>)
        ensures
            delete_server_spec(*old(self), *final(self), name@, r),

    {
        proof {
            use_type_invariant(&*self);
        }
        {
            let l = self.state()?;
            if !l.data.servers.contains_key(name) {
                return Err(ManagerError::ServerNotFound { name: name.to_owned() });
            }
        }
        let mut taken: Option<Loaded> = None;
        std::mem::swap(&mut taken, &mut self.state);
        let mut l = taken.unwrap();
        let _ = l.data.servers.remove(name);
        edit_server_psks(&mut l.data.servers, name, None);
        self.state = Some(l);
        let message = quoted_message("Server '", name, "' deleted");
        Ok(OperationResult::success(message.as_str()))
    }

    /// Deletes a client and the pre-shared key every server holds for it.
    pub fn delete_client(&mut self, name: &str) -> (r: Result<OperationResult, ManagerError>)
        ensures
            delete_client_spec(*old(self), *final(self), name@, r),

    {
        proof {
            use_type_invariant(&*self);
        }
        {
            let l = self.state()?;
            if !l.data.clients.contains_key(name) {
                return Err(ManagerError::ClientNotFound { name: name.to_owned() });
            }
        }
        let mut taken: Option<Loaded> = None;
        std::mem::swap(&mut taken, &mut self.state);
        let mut l = taken.unwrap();
        let _ = l.data.clients.remove(name);
        edit_server_psks(&mut l.data.servers, name, None);
        self.state = Some(l);
        let message = quoted_message("Client '", name, "' deleted");
        Ok(OperationResult::success(message.as_str()))
    }

    /// Changes a server's public address and/or listen port.
    pub fn edit_server(&mut self, name: &str, public_ip: Option<&str>, port: Option<u16>) -> (r: Result<OperationResult, ManagerError>)
        ensures
            edit_server_spec(*old(self), *final(self), name@, opt_view(public_ip), port, r),

    {
        proof {
            use_type_invariant(&*self);
        }
        let i = {
            let l = self.state()?;
            match l.data.servers.find(name) {
                None => return Err(ManagerError::ServerNotFound { name: name.to_owned() }),
                Some(i) => i,
            }
        };
        if public_ip.is_none() && port.is_none() {
            let message = quoted_message("No changes needed for server '", name, "'");
            return Ok(unchanged_result(message.as_str()));
        }
        let mut taken: Option<Loaded> = None;
        std::mem::swap(&mut taken, &mut self.state);
        let mut l = taken.unwrap();
        let ghost cur = l.data.servers@;
        proof {
            crate::names::lemma_key_index(cur, i as int);
        }
        let (key, mut entry) = l.data.servers.remove_at(i);
        match public_ip {
            Some(p) => {
                entry.public_ip = p.to_owned();
            },
            None => {},
        }
        match port {
            Some(p) => {
                entry.listen_port = p;
            },
            None => {},
        }
        proof {
            let t = cur.update(i as int, (key, entry));
            assert(cur.remove(i as int).insert(i as int, (key, entry)) =~= t);
            assert forall|a: int, b: int| 0 <= a < b < t.len() implies chars_lt_at(t, a, b) by {
                assert(t[a].0 == cur[a].0 && t[b].0 == cur[b].0);
            }
            crate::names::lemma_map_update(cur, i as int, entry);
        }
        l.data.servers.insert_at(i, key, entry);
        self.state = Some(l);
        let message = quoted_message("Server '", name, "' updated");
        Ok(OperationResult::success(message.as_str()))
    }

    /// Renames a client, moving the pre-shared key every server holds for it to the new
    /// name.
    pub fn edit_client(&mut self, name: &str, new_name: Option<&str>) -> (r: Result<OperationResult, ManagerError>)
        ensures
            edit_client_spec(*old(self), *final(self), name@, opt_view(new_name), r),

    {
        proof {
            use_type_invariant(&*self);
        }
        {
            let l = self.state()?;
            if !l.data.clients.contains_key(name) {
                return Err(ManagerError::ClientNotFound { name: name.to_owned() });
            }
        }
        let nn = match new_name {
            None => {
                let message = quoted_message("No changes needed for client '", name, "'");
                return Ok(unchanged_result(message.as_str()));
            },
            Some(nn) => nn,
        };
        {
            let l = self.state()?;
            if l.data.servers.contains_key(nn) || l.data.clients.contains_key(nn) {
                return Err(ManagerError::NameExists { name: nn.to_owned() });
            }
        }
        let mut taken: Option<Loaded> = None;
        std::mem::swap(&mut taken, &mut self.state);
        let mut l = taken.unwrap();
        let removed = l.data.clients.remove(name);
        let mut client = removed.unwrap();
        client.name = nn.to_owned();
        let _ = l.data.clients.insert(nn.to_owned(), client);
        edit_server_psks(&mut l.data.servers, name, Some(nn));
        self.state = Some(l);
        let mut message = quoted_message("Client '", name, "' renamed to '");
        push_str(&mut message, nn);
        push_str(&mut message, "'");
        Ok(OperationResult::success(message.as_str()))
    }
}

/// The network with its address replaced by the network address.
pub open spec fn truncated(n: Ipv4Net) -> Ipv4Net {
    Ipv4Net { addr: network_of(n.addr, n.prefix_len as nat) as u32, prefix_len: n.prefix_len }
}

/// The highest host offset as initialization computes it: `2^(32 - prefix) - 2`, and zero
/// when the block holds fewer than two addresses.
pub open spec fn saturated_max(p: u8) -> int {
    if block_size(p as nat) >= 2 {
        block_size(p as nat) - 2
    } else {
        0
    }
}

/// `label`, the first address, ` - `, the second address.
pub open spec fn range_line(label: Seq<char>, a: u32, b: u32) -> Seq<char> {
    label + ipv4_text(a) + " - "@ + ipv4_text(b)
}

/// The messages of a successful initialization of network `n` (already truncated).
pub open spec fn init_messages(n: Ipv4Net, start: u32, end: u32, max: int, backup: Option<Seq<char>>) -> Seq<(MessageKind, Seq<char>)> {
    let net = n.addr as int;
    (match backup {
        Some(b) => seq![(MessageKind::Warning, "Old data backed up to: "@ + b)],
        None => Seq::<(MessageKind, Seq<char>)>::empty(),
    }) + seq![
        (MessageKind::Success, "Network initialized successfully!"@),
        (MessageKind::Info, "Subnet: "@ + net_text(n)),
        (MessageKind::Info, range_line("Server IP range: "@, (net + start) as u32, (net + end) as u32)),
        (MessageKind::Info, range_line("Client IP range: "@, (net + end + 1) as u32, (net + max) as u32)),
    ]
}

/// `after` holds a freshly initialized network `n` with the given server range, the
/// clients starting right after it, and no devices.
pub open spec fn fresh_state(after: Option<Loaded>, n: Ipv4Net, start: u32, end: u32) -> bool {
    after matches Some(l2) && {
        &&& l2.network == n
        &&& l2.data.network.subnet@ == net_text(n)
        &&& l2.data.network.server_ip_range[0] == start
        &&& l2.data.network.server_ip_range[1] == end
        &&& l2.data.network.client_ip_start == end + 1
        &&& l2.data.servers@.len() == 0
        &&& l2.data.clients@.len() == 0
    }
}

/// The network that parsing gives, as the library's type.
pub open spec fn parsed_net(v: Option<(u32, u8)>) -> Option<Ipv4Net> {
    match v {
        Some(x) => Some(Ipv4Net { addr: x.0, prefix_len: x.1 }),
        None => None,
    }
}

/// What initialization does, given the subnet text and what parsing made of it: the
/// checks in order, then a fresh network (after a backup when the data file exists and
/// `force` is set).
pub open spec fn init_spec(
    before: WireGuardManager,
    after: WireGuardManager,
    subnet: Seq<char>,
    parsed: Option<Ipv4Net>,
    start: u32,
    end: u32,
    force: bool,
    exists: bool,
    backup: Seq<char>,
    r: Result<OperationResult, ManagerError>,
) -> bool {
    &&& after.path() == before.path()
    &&& if exists && !force {
        &&& r matches Err(ManagerError::DataFileExists { path: p }) && p@ == before.path()
        &&& after.loaded() == before.loaded()
    } else {
        match parsed {
            None => {
                &&& r matches Err(ManagerError::InvalidSubnet { subnet: t }) && t@ == subnet
                &&& after.loaded() == before.loaded()
            },
            Some(n) => {
                let max = saturated_max(n.prefix_len);
                if max < 1 {
                    &&& r matches Err(ManagerError::NetworkTooSmall { subnet: t }) && t@ == subnet
                    &&& after.loaded() == before.loaded()
                } else if start < 1 {
                    &&& r matches Err(ManagerError::ServerStartTooSmall { start: x }) && x == start
                    &&& after.loaded() == before.loaded()
                } else if end > max {
                    &&& r matches Err(ManagerError::ServerEndTooLarge { max: m, end: x }) && m == max && x == end
                    &&& after.loaded() == before.loaded()
                } else if start > end {
                    &&& r matches Err(ManagerError::ServerRangeInverted { start: x, end: y }) && x == start && y == end
                    &&& after.loaded() == before.loaded()
                } else if end + 1 > max {
                    &&& r matches Err(ManagerError::NoClientSpace { end: x }) && x == end
                    &&& after.loaded() == before.loaded()
                } else {
                    let tn = truncated(n);
                    let b = if exists && force { Some(backup) } else { None::<Seq<char>> };
                    &&& r matches Ok(res) && {
                        &&& res.save_needed
                        &&& message_view(res.messages@) == init_messages(tn, start, end, max, b)
                        &&& match b {
                            Some(bp) => res.backup_path matches Some(p) && p@ == bp,
                            None => res.backup_path is None,
                        }
                    }
                    &&& fresh_state(after.loaded(), tn, start, end)
                }
            },
        }
    }
}

fn range_text(label: &str, a: u32, b: u32) -> (r: String)
    ensures
        r@ == range_line(label@, a, b),
{
    let mut s = label.to_owned();
    let t = format_ipv4(a);
    push_str(&mut s, t.as_str());
    push_str(&mut s, " - ");
    let u = format_ipv4(b);
    push_str(&mut s, u.as_str());
    s
}

impl WireGuardManager {
    /// Initializes (or, with `force`, reinitializes) the network from a parsed subnet: the
    /// checks of [`WireGuardManager::init_network`] in order, then a fresh network with no
    /// devices. `data_file_exists` tells whether the data file exists; `backup_path` names
    /// the backup that is reported when an existing file is replaced.
    pub fn init_network_parsed(
        &mut self,
        subnet: &str,
        parsed: Option<Ipv4Net>,
        server_start: u32,
        server_end: u32,
        force: bool,
        data_file_exists: bool,
        backup_path: &str,
    ) -> (r: Result<OperationResult, ManagerError>)
        requires
            parsed matches Some(n) ==> 1 <= n.prefix_len <= 32,
        ensures
            init_spec(*old(self), *final(self), subnet@, parsed, server_start, server_end, force, data_file_exists, backup_path@, r),
    {
        if data_file_exists && !force {
            return Err(ManagerError::DataFileExists { path: self.data_file.clone() });
        }
        let n = match parsed {
            None => return Err(ManagerError::InvalidSubnet { subnet: subnet.to_owned() }),
            Some(n) => n,
        };
        let tn = n.trunc();
        let block = block_of(tn.prefix_len);
        proof {
            lemma_block_bounds(tn.prefix_len as nat);
            lemma_network_fits(n.addr, n.prefix_len as nat);
        }
        let max: u32 = if block >= 2 { (block - 2) as u32 } else { 0 };
        if max < 1 {
            return Err(ManagerError::NetworkTooSmall { subnet: subnet.to_owned() });
        }
        if server_start < 1 {
            return Err(ManagerError::ServerStartTooSmall { start: server_start });
        }
        if server_end > max {
            return Err(ManagerError::ServerEndTooLarge { max, end: server_end });
        }
        if server_start > server_end {
            return Err(ManagerError::ServerRangeInverted { start: server_start, end: server_end });
        }
        let client_ip_start = server_end + 1;
        if client_ip_start > max {
            return Err(ManagerError::NoClientSpace { end: server_end });
        }
        let mut messages: Vec<Message> = Vec::new();
        let backup = if data_file_exists && force {
            let mut text = "Old data backed up to: ".to_owned();
            push_str(&mut text, backup_path);
            messages.push(Message::warning(text.as_str()));
            Some(backup_path.to_owned())
        } else {
            None
        };
        let ghost warned = message_view(messages@);
        let net = tn.addr;
        messages.push(Message::success("Network initialized successfully!"));
        let mut subnet_text = "Subnet: ".to_owned();
        let tn_text = tn.to_text();
        push_str(&mut subnet_text, tn_text.as_str());
        messages.push(Message::info(subnet_text.as_str()));
        let servers_text = range_text("Server IP range: ", net + server_start, net + server_end);
        messages.push(Message::info(servers_text.as_str()));
        let clients_text = range_text("Client IP range: ", net + client_ip_start, net + max);
        messages.push(Message::info(clients_text.as_str()));
        let data = DataFile {
            network: crate::manager::types::NetworkConfig {
                subnet: tn.to_text(),
                server_ip_range: [server_start, server_end],
                client_ip_start,
            },
            servers: NameMap::new(),
            clients: NameMap::new(),
        };
        self.state = Some(Loaded { network: tn, data });
        let res = OperationResult { messages, backup_path: backup, save_needed: true };
        proof {
            let b = if data_file_exists && force { Some(backup_path@) } else { None::<Seq<char>> };
            assert(message_view(res.messages@) =~= init_messages(tn, server_start, server_end, max as int, b));
        }
        Ok(res)
    }

    /// Initializes (or, with `force`, reinitializes) the network: refuses when the data file
    /// exists and `force` is not set, parses the subnet (through `ipnet`), checks the server
    /// range, and installs a fresh network with no devices. Answers `None`, changing nothing,
    /// where the size of the network cannot be computed: a subnet with prefix length 0.
    pub fn init_network(
        &mut self,
        subnet: &str,
        server_start: u32,
        server_end: u32,
        force: bool,
        data_file_exists: bool,
        backup_path: &str,
    ) -> (r: Option<Result<OperationResult, ManagerError>>)
        ensures
            if !(data_file_exists && !force) && (ipnet_parse(subnet@) matches Some(v) && v.1 == 0) {
                r is None && *final(self) == *old(self)
            } else {
                r matches Some(x) && init_spec(
                    *old(self),
                    *final(self),
                    subnet@,
                    parsed_net(ipnet_parse(subnet@)),
                    server_start,
                    server_end,
                    force,
                    data_file_exists,
                    backup_path@,
                    x,
                )
            },
    {
        let parsed = if data_file_exists && !force {
            None
        } else {
            parse_ipv4_net(subnet)
        };
        match parsed {
            Some(n) => {
                if n.prefix_len == 0 {
                    return None;
                }
            },
            None => {},
        }
        if data_file_exists && !force {
            return Some(Err(ManagerError::DataFileExists { path: self.data_file.clone() }));
        }
        Some(self.init_network_parsed(subnet, parsed, server_start, server_end, force, data_file_exists, backup_path))
    }
}

impl WireGuardManager {
    /// Computing the statistics of the loaded network stays within 32-bit arithmetic: the
    /// highest host offset is defined, and (once both device counts fit in 32 bits) the
    /// addresses of the range ends fit, the server range is not inverted and its size fits,
    /// and the clients start at or below the highest host offset.
    pub open spec fn show_defined(&self) -> bool {
        match self.loaded() {
            None => true,
            Some(l) => host_range_defined(l) && ((l.data.servers@.len() <= u32::MAX && l.data.clients@.len()
                <= u32::MAX) ==> {
                let net = net_addr(l);
                let r0 = l.data.network.server_ip_range[0] as int;
                let r1 = l.data.network.server_ip_range[1] as int;
                let cs = l.data.network.client_ip_start as int;
                &&& net + r0 < 0x1_0000_0000
                &&& net + r1 < 0x1_0000_0000
                &&& net + cs < 0x1_0000_0000
                &&& r0 <= r1
                &&& r1 - r0 + 1 <= u32::MAX
                &&& cs <= max_offset(l)
            }),
        }
    }

    /// Exec form of [`WireGuardManager::show_defined`].
    pub fn can_show_network_config(&self) -> (r: bool)
        ensures
            r == self.show_defined(),
    {
        proof {
            use_type_invariant(self);
        }
        match &self.state {
            None => true,
            Some(l) => {
                if !(1 <= l.network.prefix_len && l.network.prefix_len <= 31) {
                    return false;
                }
                if l.data.servers.len() > u32::MAX as usize || l.data.clients.len() > u32::MAX as usize {
                    return true;
                }
                let net = l.network.network() as u64;
                let max = max_host_offset(l) as u64;
                let r0 = l.data.network.server_ip_range[0] as u64;
                let r1 = l.data.network.server_ip_range[1] as u64;
                let cs = l.data.network.client_ip_start as u64;
                net + r0 < 0x1_0000_0000 && net + r1 < 0x1_0000_0000 && net + cs < 0x1_0000_0000 && r0 <= r1
                    && r1 - r0 + 1 <= u32::MAX as u64 && cs <= max
            },
        }
    }

    /// Statistics of the loaded network: the address ranges of servers and clients, device
    /// counts and capacities.
    pub fn show_network_config(&self) -> (r: Result<NetworkInfo, ManagerError>)
        requires
            self.show_defined(),
        ensures
            match self.loaded() {
                None => r matches Err(ManagerError::NotInitialized),
                Some(l) => if l.data.servers@.len() > u32::MAX {
                    r matches Err(ManagerError::ServerCountOverflow)
                } else if l.data.clients@.len() > u32::MAX {
                    r matches Err(ManagerError::ClientCountOverflow)
                } else {
                    r == Ok::<NetworkInfo, ManagerError>(network_info_of(l))
                },
            },
    {
        let l = self.state()?;
        let max = max_host_offset(l);
        let n_servers = l.data.servers.len();
        if n_servers > u32::MAX as usize {
            return Err(ManagerError::ServerCountOverflow);
        }
        let n_clients = l.data.clients.len();
        if n_clients > u32::MAX as usize {
            return Err(ManagerError::ClientCountOverflow);
        }
        let net = l.network.network();
        proof {
            lemma_network_fits(l.network.addr, l.network.prefix_len as nat);
        }
        let r0 = l.data.network.server_ip_range[0];
        let r1 = l.data.network.server_ip_range[1];
        let cs = l.data.network.client_ip_start;
        Ok(NetworkInfo {
            subnet: l.data.network.subnet.clone(),
            server_start_ip: net + r0,
            server_end_ip: net + r1,
            client_start_ip: net + cs,
            client_end_ip: net + max,
            server_range_offsets: (r0, r1),
            client_start_offset: cs,
            max_host_offset: max,
            server_count: n_servers as u32,
            server_capacity: r1 - r0 + 1,
            client_count: n_clients as u32,
            client_capacity: max - cs + 1,
        })
    }
}

/// `name (address)`, as a refused range change lists a device.
pub open spec fn device_label(name: Seq<char>, a: u32) -> Seq<char> {
    name + " ("@ + ipv4_text(a) + ")"@
}

/// The servers, in name order, whose address parses and lies outside `[lo, hi]`.
pub open spec fn servers_outside(s: Seq<(String, ServerEntry)>, lo: int, hi: int) -> Seq<Seq<char>>
    decreases s.len(),
{
    if s.len() == 0 {
        Seq::<Seq<char>>::empty()
    } else {
        let e = s.last();
        servers_outside(s.drop_last(), lo, hi) + match parse_ipv4(e.1.ip@) {
            Some(a) => if a < lo || a > hi {
                seq![device_label(e.0@, a)]
            } else {
                Seq::<Seq<char>>::empty()
            },
            None => Seq::<Seq<char>>::empty(),
        }
    }
}

/// The clients, in name order, whose address parses and lies below `bound`.
pub open spec fn clients_below(c: Seq<(String, ClientEntry)>, bound: int) -> Seq<Seq<char>>
    decreases c.len(),
{
    if c.len() == 0 {
        Seq::<Seq<char>>::empty()
    } else {
        let e = c.last();
        clients_below(c.drop_last(), bound) + match parse_ipv4(e.1.ip@) {
            Some(a) => if a < bound {
                seq![device_label(e.0@, a)]
            } else {
                Seq::<Seq<char>>::empty()
            },
            None => Seq::<Seq<char>>::empty(),
        }
    }
}

/// The network address of `n`.
pub open spec fn net_of(n: Ipv4Net) -> int {
    network_of(n.addr, n.prefix_len as nat) as int
}

/// The highest host offset of `n`.
pub open spec fn max_of(n: Ipv4Net) -> int {
    block_size(n.prefix_len as nat) - 2
}

/// A server range `[s, e]` is acceptable in network `n` with data `d`: it starts at 1 or
/// later, ends at the highest host offset or earlier, is not inverted, keeps every
/// server inside it and every client above it.
pub open spec fn range_ok(n: Ipv4Net, d: DataFile, s: u32, e: u32) -> bool {
    &&& s >= 1
    &&& e <= max_of(n)
    &&& s <= e
    &&& servers_outside(d.servers@, net_of(n) + s, net_of(n) + e).len() == 0
    &&& clients_below(d.clients@, net_of(n) + e + 1).len() == 0
}

/// The verdict on a server range `[s, e]` in network `n` with data `d`: the first check that
/// fails, in order, with its error, or `Ok`.
pub open spec fn range_check(n: Ipv4Net, d: DataFile, s: u32, e: u32, r: Result<(), ManagerError>) -> bool {
    let net = net_of(n);
    if s < 1 {
        r matches Err(ManagerError::ServerStartTooSmall { start: x }) && x == s
    } else if e > max_of(n) {
        r matches Err(ManagerError::ServerEndTooLarge { max: m, end: x }) && m == max_of(n) && x == e
    } else if s > e {
        r matches Err(ManagerError::ServerRangeInverted { start: x, end: y }) && x == s && y == e
    } else if servers_outside(d.servers@, net + s, net + e).len() > 0 {
        r matches Err(ManagerError::ServersOutOfRange { devices: v }) && views(v@) == servers_outside(
            d.servers@,
            net + s,
            net + e,
        )
    } else if clients_below(d.clients@, net + e + 1).len() > 0 {
        r matches Err(ManagerError::ClientsConflict { devices: v }) && views(v@) == clients_below(d.clients@, net + e + 1)
    } else {
        r is Ok
    }
}

fn label_text(name: &str, a: u32) -> (r: String)
    ensures
        r@ == device_label(name@, a),
{
    let mut s = name.to_owned();
    push_str(&mut s, " (");
    let t = format_ipv4(a);
    push_str(&mut s, t.as_str());
    push_str(&mut s, ")");
    s
}

fn list_servers_outside(servers: &NameMap<ServerEntry>, lo: u32, hi: u32) -> (r: Vec<String>)
    ensures
        views(r@) == servers_outside(servers@, lo as int, hi as int),
{
    let mut r: Vec<String> = Vec::new();
    let n = servers.len();
    let mut i: usize = 0;
    while i < n
        invariant
            n == servers@.len(),
            i <= n,
            views(r@) == servers_outside(servers@.take(i as int), lo as int, hi as int),
        decreases n - i,
    {
        let name = servers.key_at(i);
        let entry = servers.value_at(i);
        proof {
            assert(servers@.take(i + 1).drop_last() =~= servers@.take(i as int));
            assert(servers@.take(i + 1).last() == servers@[i as int]);
        }
        match parse_ipv4_text(entry.ip.as_str()) {
            Some(a) => {
                if a < lo || a > hi {
                    let ghost before = r@;
                    r.push(label_text(name.as_str(), a));
                    proof {
                        assert(views(r@) =~= views(before).push(r@.last()@));
                    }
                }
            },
            None => {},
        }
        proof {
            assert(views(r@) =~= servers_outside(servers@.take(i + 1), lo as int, hi as int));
        }
        i = i + 1;
    }
    proof {
        assert(servers@.take(n as int) =~= servers@);
    }
    r
}

fn list_clients_below(clients: &NameMap<ClientEntry>, bound: u32) -> (r: Vec<String>)
    ensures
        views(r@) == clients_below(clients@, bound as int),
{
    let mut r: Vec<String> = Vec::new();
    let n = clients.len();
    let mut i: usize = 0;
    while i < n
        invariant
            n == clients@.len(),
            i <= n,
            views(r@) == clients_below(clients@.take(i as int), bound as int),
        decreases n - i,
    {
        let name = clients.key_at(i);
        let entry = clients.value_at(i);
        proof {
            assert(clients@.take(i + 1).drop_last() =~= clients@.take(i as int));
            assert(clients@.take(i + 1).last() == clients@[i as int]);
        }
        match parse_ipv4_text(entry.ip.as_str()) {
            Some(a) => {
                if a < bound {
                    let ghost before = r@;
                    r.push(label_text(name.as_str(), a));
                    proof {
                        assert(views(r@) =~= views(before).push(r@.last()@));
                    }
                }
            },
            None => {},
        }
        proof {
            assert(views(r@) =~= clients_below(clients@.take(i + 1), bound as int));
        }
        i = i + 1;
    }
    proof {
        assert(clients@.take(n as int) =~= clients@);
    }
    r
}

/// `l2` is `l` after the subnet step of an update (network `n`; when `changed`, its text
/// replaces the stored subnet) with the given server range and first client offset.
pub open spec fn updated_state(l: Loaded, l2: Loaded, n: Ipv4Net, changed: bool, r0: u32, r1: u32, cs: u32) -> bool {
    &&& l2.network == n
    &&& if changed {
        l2.data.network.subnet@ == net_text(n)
    } else {
        l2.data.network.subnet == l.data.network.subnet
    }
    &&& l2.data.network.server_ip_range[0] == r0
    &&& l2.data.network.server_ip_range[1] == r1
    &&& l2.data.network.client_ip_start == cs
    &&& l2.data.servers == l.data.servers
    &&& l2.data.clients == l.data.clients
}

/// The messages of a successful update: the subnet line if the subnet changed, the range
/// lines if the range changed, then the backup warning and the success.
pub open spec fn update_messages(
    n: Option<Ipv4Net>,
    old_range: Option<(u32, u32, u32, u32)>,
    backup: Seq<char>,
) -> Seq<(MessageKind, Seq<char>)> {
    (match n {
        Some(x) => seq![(MessageKind::Info, "Subnet updated to: "@ + net_text(x))],
        None => Seq::<(MessageKind, Seq<char>)>::empty(),
    }) + (match old_range {
        Some(v) => seq![
            (MessageKind::Info, "Server IP range updated: offset "@ + decimal(v.0 as nat) + "-"@ + decimal(v.1 as nat)
                + " -> "@ + decimal(v.2 as nat) + "-"@ + decimal(v.3 as nat)),
            (MessageKind::Info, "Client IP start updated to offset: "@ + decimal(v.3 as nat + 1)),
        ],
        None => Seq::<(MessageKind, Seq<char>)>::empty(),
    }) + seq![
        (MessageKind::Warning, "Old data backed up to: "@ + backup),
        (MessageKind::Success, "Configuration updated successfully!"@),
    ]
}

/// What an update does, given the subnet text (if any) and what parsing made of it.
pub open spec fn update_spec(
    before: WireGuardManager,
    after: WireGuardManager,
    subnet: Option<Seq<char>>,
    parsed: Option<Ipv4Net>,
    start: Option<u32>,
    end: Option<u32>,
    backup: Seq<char>,
    r: Result<OperationResult, ManagerError>,
) -> bool {
    &&& after.path() == before.path()
    &&& match before.loaded() {
        None => r matches Err(ManagerError::NotInitialized) && after.loaded() == before.loaded(),
        Some(l) => {
            let devices = l.data.servers@.len() > 0 || l.data.clients@.len() > 0;
            let r0 = l.data.network.server_ip_range[0];
            let r1 = l.data.network.server_ip_range[1];
            let cs = l.data.network.client_ip_start;
            if subnet is Some && parsed is None {
                &&& r matches Err(ManagerError::InvalidSubnet { subnet: t }) && t@ == subnet->0
                &&& after.loaded() == before.loaded()
            } else if subnet is Some && devices {
                &&& r matches Err(ManagerError::SubnetChangeWithDevices)
                &&& after.loaded() == before.loaded()
            } else {
                let changed = subnet is Some;
                let n2 = if changed { truncated(parsed->0) } else { l.network };
                let shown = if changed { Some(n2) } else { None::<Ipv4Net> };
                if start is None && end is None {
                    if !changed {
                        r matches Err(ManagerError::NoChanges) && after.loaded() == before.loaded()
                    } else {
                        &&& r matches Ok(res) && (res.save_needed && message_view(res.messages@) == update_messages(shown, None, backup)
                            && (res.backup_path matches Some(b) && b@ == backup))
                        &&& after.loaded() matches Some(l2) && updated_state(l, l2, n2, true, r0, r1, cs)
                    }
                } else {
                    let s = match start {
                        Some(x) => x,
                        None => r0,
                    };
                    let e = match end {
                        Some(x) => x,
                        None => r1,
                    };
                    if !range_ok(n2, l.data, s, e) {
                        &&& r matches Err(x) && range_check(n2, l.data, s, e, Err(x))
                        &&& after.loaded() matches Some(l2) && updated_state(l, l2, n2, changed, r0, r1, cs)
                    } else if e + 1 > max_of(n2) {
                        &&& r matches Err(ManagerError::NoClientSpace { end: x }) && x == e
                        &&& after.loaded() matches Some(l2) && updated_state(l, l2, n2, changed, r0, r1, cs)
                    } else {
                        &&& r matches Ok(res) && (res.save_needed && message_view(res.messages@) == update_messages(shown, Some((r0, r1, s, e)), backup)
                            && (res.backup_path matches Some(b) && b@ == backup))
                        &&& after.loaded() matches Some(l2) && updated_state(l, l2, n2, changed, s, e, (e + 1) as u32)
                    }
                }
            }
        },
    }
}

impl WireGuardManager {
    /// Checks a proposed server range `[new_start, new_end]` against the loaded network and
    /// devices.
    fn validate_server_range_change(&self, new_start: u32, new_end: u32) -> (r: Result<(), ManagerError>)
        requires
            self.loaded() is Some,
            new_start >= 1 ==> host_range_defined(self.loaded()->0),
        ensures
            range_check(self.loaded()->0.network, self.loaded()->0.data, new_start, new_end, r),
    {
        proof {
            use_type_invariant(self);
        }
        let l = self.state.as_ref().unwrap();
        if new_start < 1 {
            return Err(ManagerError::ServerStartTooSmall { start: new_start });
        }
        let max = max_host_offset(l);
        if new_end > max {
            return Err(ManagerError::ServerEndTooLarge { max, end: new_end });
        }
        if new_start > new_end {
            return Err(ManagerError::ServerRangeInverted { start: new_start, end: new_end });
        }
        let net = l.network.network();
        proof {
            lemma_network_fits(l.network.addr, l.network.prefix_len as nat);
        }
        let outside = list_servers_outside(&l.data.servers, net + new_start, net + new_end);
        if outside.len() > 0 {
            return Err(ManagerError::ServersOutOfRange { devices: outside });
        }
        let conflicting = list_clients_below(&l.data.clients, net + new_end + 1);
        if conflicting.len() > 0 {
            return Err(ManagerError::ClientsConflict { devices: conflicting });
        }
        Ok(())
    }

    /// Whether an update computes the highest host offset only where it is defined: where a
    /// range part is given and its start is at least 1, the network in force after the subnet
    /// part must have a prefix length between 1 and 31.
    pub open spec fn update_defined(&self, has_subnet: bool, parsed: Option<Ipv4Net>, start: Option<u32>, end: Option<u32>) -> bool {
        match self.loaded() {
            None => true,
            Some(l) => {
                let devices = l.data.servers@.len() > 0 || l.data.clients@.len() > 0;
                if has_subnet && (parsed is None || devices) {
                    true
                } else {
                    let p = if has_subnet { parsed->0.prefix_len } else { l.network.prefix_len };
                    let s = match start {
                        Some(x) => x,
                        None => l.data.network.server_ip_range[0],
                    };
                    (start is None && end is None) || s < 1 || (1 <= p && p <= 31)
                }
            },
        }
    }

    fn can_update(&self, has_subnet: bool, parsed: Option<Ipv4Net>, start: Option<u32>, end: Option<u32>) -> (r: bool)
        ensures
            r == self.update_defined(has_subnet, parsed, start, end),
    {
        match &self.state {
            None => true,
            Some(l) => {
                let devices = !l.data.servers.is_empty() || !l.data.clients.is_empty();
                if has_subnet && (parsed.is_none() || devices) {
                    true
                } else {
                    let p = match parsed {
                        Some(n) => if has_subnet { n.prefix_len } else { l.network.prefix_len },
                        None => l.network.prefix_len,
                    };
                    let s = match start {
                        Some(x) => x,
                        None => l.data.network.server_ip_range[0],
                    };
                    (start.is_none() && end.is_none()) || s < 1 || (1 <= p && p <= 31)
                }
            },
        }
    }

    /// Updates the subnet and/or the server range from a parsed subnet (`parsed` is what
    /// parsing `subnet` gave, when a subnet is given): the checks of
    /// [`WireGuardManager::update_network_config`] in order, then the new configuration,
    /// reporting `backup_path` as the backup of the old data.
    pub fn update_network_config_parsed(
        &mut self,
        subnet: Option<&str>,
        parsed: Option<Ipv4Net>,
        server_start: Option<u32>,
        server_end: Option<u32>,
        backup_path: &str,
    ) -> (r: Result<OperationResult, ManagerError>)
        requires
            parsed matches Some(n) ==> n.wf(),
            old(self).update_defined(subnet is Some, parsed, server_start, server_end),
        ensures
            update_spec(
                *old(self),
                *final(self),
                match subnet {
                    Some(t) => Some(t@),
                    None => None,
                },
                parsed,
                server_start,
                server_end,
                backup_path@,
                r,
            ),
    {
        proof {
            use_type_invariant(&*self);
        }
        let (has_devices, r0, r1) = {
            let l = self.state()?;
            (!l.data.servers.is_empty() || !l.data.clients.is_empty(), l.data.network.server_ip_range[0], l.data.network.server_ip_range[1])
        };
        let ghost l0 = self.state->0;
        let mut messages: Vec<Message> = Vec::new();
        let mut has_changes = false;
        match subnet {
            Some(text) => {
                let n = match parsed {
                    None => return Err(ManagerError::InvalidSubnet { subnet: text.to_owned() }),
                    Some(n) => n,
                };
                let tn = n.trunc();
                if has_devices {
                    return Err(ManagerError::SubnetChangeWithDevices);
                }
                let mut taken: Option<Loaded> = None;
                std::mem::swap(&mut taken, &mut self.state);
                let mut l = taken.unwrap();
                l.network = tn;
                l.data.network.subnet = tn.to_text();
                self.state = Some(l);
                has_changes = true;
                let mut line = "Subnet updated to: ".to_owned();
                let t = tn.to_text();
                push_str(&mut line, t.as_str());
                messages.push(Message::info(line.as_str()));
            },
            None => {},
        }
        let ghost m1 = message_view(messages@);
        if server_start.is_some() || server_end.is_some() {
            let new_start = match server_start {
                Some(x) => x,
                None => r0,
            };
            let new_end = match server_end {
                Some(x) => x,
                None => r1,
            };
            self.validate_server_range_change(new_start, new_end)?;
            proof {
                lemma_block_bounds(self.state->0.network.prefix_len as nat);
            }
            let max = max_host_offset(self.state.as_ref().unwrap());
            let new_client_start = new_end + 1;
            if new_client_start > max {
                return Err(ManagerError::NoClientSpace { end: new_end });
            }
            let mut taken: Option<Loaded> = None;
            std::mem::swap(&mut taken, &mut self.state);
            let mut l = taken.unwrap();
            l.data.network.server_ip_range = [new_start, new_end];
            l.data.network.client_ip_start = new_client_start;
            self.state = Some(l);
            has_changes = true;
            let mut line = "Server IP range updated: offset ".to_owned();
            push_decimal(&mut line, r0 as u64);
            push_str(&mut line, "-");
            push_decimal(&mut line, r1 as u64);
            push_str(&mut line, " -> ");
            push_decimal(&mut line, new_start as u64);
            push_str(&mut line, "-");
            push_decimal(&mut line, new_end as u64);
            messages.push(Message::info(line.as_str()));
            let mut line2 = "Client IP start updated to offset: ".to_owned();
            push_decimal(&mut line2, new_client_start as u64);
            messages.push(Message::info(line2.as_str()));
        }
        if !has_changes {
            return Err(ManagerError::NoChanges);
        }
        let mut warning = "Old data backed up to: ".to_owned();
        push_str(&mut warning, backup_path);
        messages.push(Message::warning(warning.as_str()));
        messages.push(Message::success("Configuration updated successfully!"));
        let res = OperationResult { messages, backup_path: Some(backup_path.to_owned()), save_needed: true };
        proof {
            let changed = subnet is Some;
            let n2 = if changed { truncated(parsed->0) } else { l0.network };
            let shown = if changed { Some(n2) } else { None::<Ipv4Net> };
            let s = match server_start {
                Some(x) => x,
                None => r0,
            };
            let e = match server_end {
                Some(x) => x,
                None => r1,
            };
            let rng = if server_start is None && server_end is None {
                None::<(u32, u32, u32, u32)>
            } else {
                Some((r0, r1, s, e))
            };
            assert(message_view(res.messages@) =~= update_messages(shown, rng, backup_path@));
        }
        Ok(res)
    }

    /// Updates the subnet and/or the server range: the subnet (parsed through `ipnet`) may
    /// change only while there are no devices; a new range must keep every server inside it
    /// and every client above it. Answers `None`, changing nothing, where the highest host
    /// offset of the network in force cannot be computed (see
    /// [`WireGuardManager::update_defined`]).
    pub fn update_network_config(
        &mut self,
        subnet: Option<&str>,
        server_start: Option<u32>,
        server_end: Option<u32>,
        backup_path: &str,
    ) -> (r: Option<Result<OperationResult, ManagerError>>)
        ensures
            ({
                let parsed = match subnet {
                    Some(t) => parsed_net(ipnet_parse(t@)),
                    None => None,
                };
                if old(self).update_defined(subnet is Some, parsed, server_start, server_end) {
                    r matches Some(x) && update_spec(
                        *old(self),
                        *final(self),
                        match subnet {
                            Some(t) => Some(t@),
                            None => None,
                        },
                        parsed,
                        server_start,
                        server_end,
                        backup_path@,
                        x,
                    )
                } else {
                    r is None && *final(self) == *old(self)
                }
            }),
    {
        let parsed = match subnet {
            Some(t) => parse_ipv4_net(t),
            None => None,
        };
        if !self.can_update(subnet.is_some(), parsed, server_start, server_end) {
            return None;
        }
        Some(self.update_network_config_parsed(subnet, parsed, server_start, server_end, backup_path))
    }
}

/// The text of an optional string.
pub open spec fn opt_view(o: Option<&str>) -> Option<Seq<char>> {
    match o {
        Some(t) => Some(t@),
        None => None,
    }
}

/// What adding client `name` does: refused when nothing is loaded or the name is taken,
/// or when no client address is free; otherwise the client gets the lowest free address.
pub open spec fn add_client_spec(
    before: WireGuardManager,
    after: WireGuardManager,
    name: Seq<char>,
    r: Result<OperationResult, ManagerError>,
) -> bool {
    &&& after.path() == before.path()
    &&& match before.loaded() {
        None => r matches Err(ManagerError::NotInitialized) && after.loaded() == before.loaded(),
        Some(l) => if name_taken(l.data, name) {
            &&& r matches Err(ManagerError::NameExists { name: n }) && n@ == name
            &&& after.loaded() == before.loaded()
        } else {
            let net = net_addr(l);
            match first_free(net, l.data.network.client_ip_start as int, max_offset(l), client_ips(l.data.clients@)) {
                None => r matches Err(ManagerError::ClientIpExhausted) && after.loaded() == before.loaded(),
                Some(k) => {
                    let ip = ipv4_text((net + k) as u32);
                    &&& r matches Ok(res) && success_with(res, "Client '"@ + name + "' added, IP: "@ + ip)
                    &&& client_added(l, after.loaded(), name, ip)
                },
            }
        },
    }
}

/// What adding server `name` does: refused when nothing is loaded or the name is taken,
/// or when no server address is free; otherwise the server gets the lowest free address.
pub open spec fn add_server_spec(
    before: WireGuardManager,
    after: WireGuardManager,
    name: Seq<char>,
    public_ip: Seq<char>,
    port: u16,
    r: Result<OperationResult, ManagerError>,
) -> bool {
    &&& after.path() == before.path()
    &&& match before.loaded() {
        None => r matches Err(ManagerError::NotInitialized) && after.loaded() == before.loaded(),
        Some(l) => if name_taken(l.data, name) {
            &&& r matches Err(ManagerError::NameExists { name: n }) && n@ == name
            &&& after.loaded() == before.loaded()
        } else {
            let net = net_addr(l);
            let lo = l.data.network.server_ip_range[0] as int;
            let hi = l.data.network.server_ip_range[1] as int;
            match first_free(net, lo, hi, server_ips(l.data.servers@)) {
                None => {
                    &&& r matches Err(ManagerError::ServerIpExhausted { max: m }) && m == hi - lo + 1
                    &&& after.loaded() == before.loaded()
                },
                Some(k) => {
                    let ip = ipv4_text((net + k) as u32);
                    &&& r matches Ok(res) && success_with(res, "Server '"@ + name + "' added, IP: "@ + ip)
                    &&& server_added(l, after.loaded(), name, ip, public_ip, port)
                },
            }
        },
    }
}

/// What deleting server `name` does.
pub open spec fn delete_server_spec(
    before: WireGuardManager,
    after: WireGuardManager,
    name: Seq<char>,
    r: Result<OperationResult, ManagerError>,
) -> bool {
    &&& after.path() == before.path()
    &&& match before.loaded() {
        None => r matches Err(ManagerError::NotInitialized) && after.loaded() == before.loaded(),
        Some(l) => if !l.data.servers.as_map().dom().contains(name) {
            &&& r matches Err(ManagerError::ServerNotFound { name: n }) && n@ == name
            &&& after.loaded() == before.loaded()
        } else {
            &&& r matches Ok(res) && success_with(res, "Server '"@ + name + "' deleted"@)
            &&& after.loaded() matches Some(l2)
            &&& l2.network == l.network
            &&& l2.data.network == l.data.network
            &&& l2.data.clients == l.data.clients
            &&& servers_lose_psk(l.data.servers.as_map().remove(name), l2.data.servers.as_map(), name)
        },
    }
}

/// What deleting client `name` does.
pub open spec fn delete_client_spec(
    before: WireGuardManager,
    after: WireGuardManager,
    name: Seq<char>,
    r: Result<OperationResult, ManagerError>,
) -> bool {
    &&& after.path() == before.path()
    &&& match before.loaded() {
        None => r matches Err(ManagerError::NotInitialized) && after.loaded() == before.loaded(),
        Some(l) => if !l.data.clients.as_map().dom().contains(name) {
            &&& r matches Err(ManagerError::ClientNotFound { name: n }) && n@ == name
            &&& after.loaded() == before.loaded()
        } else {
            &&& r matches Ok(res) && success_with(res, "Client '"@ + name + "' deleted"@)
            &&& after.loaded() matches Some(l2)
            &&& l2.network == l.network
            &&& l2.data.network == l.data.network
            &&& l2.data.clients.as_map() == l.data.clients.as_map().remove(name)
            &&& servers_lose_psk(l.data.servers.as_map(), l2.data.servers.as_map(), name)
        },
    }
}

/// What changing server `name`'s endpoint does.
pub open spec fn edit_server_spec(
    before: WireGuardManager,
    after: WireGuardManager,
    name: Seq<char>,
    public_ip: Option<Seq<char>>,
    port: Option<u16>,
    r: Result<OperationResult, ManagerError>,
) -> bool {
    &&& after.path() == before.path()
    &&& match before.loaded() {
        None => r matches Err(ManagerError::NotInitialized) && after.loaded() == before.loaded(),
        Some(l) => if !l.data.servers.as_map().dom().contains(name) {
            &&& r matches Err(ManagerError::ServerNotFound { name: n }) && n@ == name
            &&& after.loaded() == before.loaded()
        } else if public_ip is None && port is None {
            &&& r matches Ok(res) && unchanged_with(res, "No changes needed for server '"@ + name + "'"@)
            &&& after.loaded() == before.loaded()
        } else {
            let s = l.data.servers.as_map()[name];
            &&& r matches Ok(res) && success_with(res, "Server '"@ + name + "' updated"@)
            &&& after.loaded() matches Some(l2) && {
                let s2 = l2.data.servers.as_map()[name];
                &&& l2.network == l.network
                &&& l2.data.network == l.data.network
                &&& l2.data.clients == l.data.clients
                &&& l2.data.servers.as_map() == l.data.servers.as_map().insert(name, s2)
                &&& s2.name == s.name
                &&& s2.ip == s.ip
                &&& s2.private_key == s.private_key
                &&& s2.public_key == s.public_key
                &&& s2.preshared_keys == s.preshared_keys
                &&& s2.public_ip@ == match public_ip {
                    Some(p) => p,
                    None => s.public_ip@,
                }
                &&& s2.listen_port == match port {
                    Some(p) => p,
                    None => s.listen_port,
                }
            }
        },
    }
}

/// What renaming client `name` does.
pub open spec fn edit_client_spec(
    before: WireGuardManager,
    after: WireGuardManager,
    name: Seq<char>,
    new_name: Option<Seq<char>>,
    r: Result<OperationResult, ManagerError>,
) -> bool {
    &&& after.path() == before.path()
    &&& match before.loaded() {
        None => r matches Err(ManagerError::NotInitialized) && after.loaded() == before.loaded(),
        Some(l) => if !l.data.clients.as_map().dom().contains(name) {
            &&& r matches Err(ManagerError::ClientNotFound { name: n }) && n@ == name
            &&& after.loaded() == before.loaded()
        } else {
            match new_name {
                None => {
                    &&& r matches Ok(res) && unchanged_with(res, "No changes needed for client '"@ + name + "'"@)
                    &&& after.loaded() == before.loaded()
                },
                Some(nn) => if name_taken(l.data, nn) {
                    &&& r matches Err(ManagerError::NameExists { name: n }) && n@ == nn
                    &&& after.loaded() == before.loaded()
                } else {
                    let c = l.data.clients.as_map()[name];
                    &&& r matches Ok(res) && success_with(res, "Client '"@ + name + "' renamed to '"@ + nn + "'"@)
                    &&& after.loaded() matches Some(l2) && {
                        let c2 = l2.data.clients.as_map()[nn];
                        &&& l2.network == l.network
                        &&& l2.data.network == l.data.network
                        &&& l2.data.clients.as_map() == l.data.clients.as_map().remove(name).insert(nn, c2)
                        &&& c2.name@ == nn
                        &&& c2.ip == c.ip
                        &&& c2.private_key == c.private_key
                        &&& c2.public_key == c.public_key
                        &&& servers_rename_psk(l.data.servers.as_map(), l2.data.servers.as_map(), name, nn)
                    }
                },
            }
        },
    }
}

/// The file name of a backup of the data file made now: `data-`, the local time as
/// `YYYYmmddHHMMSS`, `.json.bak`.
pub fn backup_file_name() -> (r: String)
    ensures
        exists|t: Seq<char>| r@ == "data-"@ + t + ".json.bak"@,
{
    let stamp = crate::clock::stamp_time();
    let mut s = "data-".to_owned();
    push_str(&mut s, stamp.as_str());
    push_str(&mut s, ".json.bak");
    proof {
        assert(s@ == "data-"@ + stamp@ + ".json.bak"@);
    }
    s
}

/// The keys at positions `a` and `b` are in increasing order.
pub open spec fn chars_lt_at<T>(t: Seq<(String, T)>, a: int, b: int) -> bool {
    crate::text::chars_lt(t[a].0@, t[b].0@)
}

} // verus!
