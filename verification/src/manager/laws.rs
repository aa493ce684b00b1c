//! Properties that every operation on the manager keeps.

use vstd::prelude::*;
use crate::manager::types::{DataFile, Loaded};
use crate::manager::ops::{
    name_taken, client_added, server_added, servers_gain_psk, servers_lose_psk, servers_rename_psk,
    renamed_psks, psk_added, same_identity, first_free, lemma_first_free, client_ips, server_ips, net_addr,
    max_offset, scan_fits,
};
use crate::names::{key_index, keys_sorted, lemma_sorted_distinct, lemma_key_index};
use crate::manager::render::{
    peer_lines, psk_text, server_peers, client_peers, client_server_peers, server_config_lines, client_config_lines,
    server_config, client_config,
};
use crate::ipv4::{ipv4_text, Ipv4Net, network_of, block_size, lemma_block_bounds, lemma_network_fits, lemma_block_host_range};
use crate::manager::ops::{
    WireGuardManager, init_spec, network_info_of, saturated_max, truncated, update_spec, servers_outside,
    clients_below, range_ok, net_of, max_of, config_of, add_client_spec, add_server_spec, delete_client_spec, delete_server_spec, device_info_of,
};
use crate::manager::types::DeviceInfo;
use crate::manager::types::{ServerEntry, ClientEntry};
use crate::ipv4::{parse_ipv4, law_ipv4_text_round_trip};
use crate::manager::types::OperationResult;
use crate::manager::errors::ManagerError;
use crate::text::decimal;

verus! {

/// The pre-shared keys are consistent: no name is both a server and a client, every server
/// holds a pre-shared key for every other device and for nothing else, and two servers hold
/// the same key for each other.
pub open spec fn psks_consistent(d: DataFile) -> bool {
    let s = d.servers.as_map();
    let c = d.clients.as_map();
    &&& forall|k: Seq<char>| !(#[trigger] s.dom().contains(k) && c.dom().contains(k))
    &&& forall|a: Seq<char>| #[trigger] s.dom().contains(a) ==> s[a].preshared_keys.as_map().dom() == s.dom().union(
        c.dom(),
    ).remove(a)
    &&& forall|a: Seq<char>, b: Seq<char>|
        #![trigger s[a].preshared_keys.as_map()[b], s[b].preshared_keys.as_map()[a]]
        s.dom().contains(a) && s.dom().contains(b) && a != b ==> s[a].preshared_keys.as_map()[b]
            == s[b].preshared_keys.as_map()[a]
}

/// A network with no devices has consistent pre-shared keys.
pub proof fn law_empty_consistent(d: DataFile)
    requires
        d.servers@.len() == 0,
        d.clients@.len() == 0,
    ensures
        psks_consistent(d),
{
    assert(d.servers.as_map().dom() =~= Set::<Seq<char>>::empty());
    assert(d.clients.as_map().dom() =~= Set::<Seq<char>>::empty());
}

/// Adding a client keeps the pre-shared keys consistent: every server gains a key for it.
pub proof fn law_add_client_keeps_psks(l: Loaded, after: Option<Loaded>, name: Seq<char>, ip: Seq<char>)
    requires
        psks_consistent(l.data),
        !name_taken(l.data, name),
        client_added(l, after, name, ip),
    ensures
        after matches Some(l2) && psks_consistent(l2.data),
{
    let l2 = after->0;
    let s = l.data.servers.as_map();
    let c = l.data.clients.as_map();
    let s2 = l2.data.servers.as_map();
    let c2 = l2.data.clients.as_map();
    assert(c2.dom() =~= c.dom().insert(name));
    assert forall|a: Seq<char>| #[trigger] s2.dom().contains(a) implies s2[a].preshared_keys.as_map().dom()
        == s2.dom().union(c2.dom()).remove(a) by {
        assert(psk_added(s[a], s2[a], name));
        assert(s2[a].preshared_keys.as_map().dom() =~= s2.dom().union(c2.dom()).remove(a));
    }
    assert forall|a: Seq<char>, b: Seq<char>|
        s2.dom().contains(a) && s2.dom().contains(b) && a != b implies #[trigger] s2[a].preshared_keys.as_map()[b]
        == #[trigger] s2[b].preshared_keys.as_map()[a] by {
        assert(psk_added(s[a], s2[a], name));
        assert(psk_added(s[b], s2[b], name));
        assert(s[a].preshared_keys.as_map()[b] == s[b].preshared_keys.as_map()[a]);
    }
}

/// Adding a server keeps the pre-shared keys consistent: it holds a key for every existing
/// device, and each existing server holds the same key for it.
pub proof fn law_add_server_keeps_psks(
    l: Loaded,
    after: Option<Loaded>,
    name: Seq<char>,
    ip: Seq<char>,
    public_ip: Seq<char>,
    port: u16,
)
    requires
        psks_consistent(l.data),
        !name_taken(l.data, name),
        server_added(l, after, name, ip, public_ip, port),
    ensures
        after matches Some(l2) && psks_consistent(l2.data),
{
    let l2 = after->0;
    let s = l.data.servers.as_map();
    let c = l.data.clients.as_map();
    let s2 = l2.data.servers.as_map();
    let c2 = l2.data.clients.as_map();
    let others = s2.remove(name);
    assert(s2.dom() =~= s.dom().insert(name));
    assert forall|a: Seq<char>| #[trigger] s2.dom().contains(a) implies s2[a].preshared_keys.as_map().dom()
        == s2.dom().union(c2.dom()).remove(a) by {
        if a == name {
            assert(s2[a].preshared_keys.as_map().dom() =~= s2.dom().union(c2.dom()).remove(a));
        } else {
            assert(others[a] == s2[a]);
            assert(psk_added(s[a], s2[a], name));
            assert(s2[a].preshared_keys.as_map().dom() =~= s2.dom().union(c2.dom()).remove(a));
        }
    }
    assert forall|a: Seq<char>, b: Seq<char>|
        s2.dom().contains(a) && s2.dom().contains(b) && a != b implies #[trigger] s2[a].preshared_keys.as_map()[b]
        == #[trigger] s2[b].preshared_keys.as_map()[a] by {
        if a == name {
            assert(others[b] == s2[b]);
            assert(!c.dom().contains(b));
        } else if b == name {
            assert(others[a] == s2[a]);
            assert(!c.dom().contains(a));
        } else {
            assert(others[a] == s2[a] && others[b] == s2[b]);
            assert(psk_added(s[a], s2[a], name));
            assert(psk_added(s[b], s2[b], name));
            assert(s[a].preshared_keys.as_map()[b] == s[b].preshared_keys.as_map()[a]);
        }
    }
}

/// Deleting a server keeps the pre-shared keys consistent: the others drop their key for
/// it.
pub proof fn law_delete_server_keeps_psks(l: Loaded, l2: Loaded, name: Seq<char>)
    requires
        psks_consistent(l.data),
        l.data.servers.as_map().dom().contains(name),
        l2.data.clients == l.data.clients,
        servers_lose_psk(l.data.servers.as_map().remove(name), l2.data.servers.as_map(), name),
    ensures
        psks_consistent(l2.data),
{
    let s = l.data.servers.as_map();
    let c = l.data.clients.as_map();
    let s2 = l2.data.servers.as_map();
    assert forall|a: Seq<char>| #[trigger] s2.dom().contains(a) implies s2[a].preshared_keys.as_map().dom()
        == s2.dom().union(c.dom()).remove(a) by {
        assert(s.remove(name)[a] == s[a]);
        assert(s2[a].preshared_keys.as_map().dom() =~= s2.dom().union(c.dom()).remove(a));
    }
    assert forall|a: Seq<char>, b: Seq<char>|
        s2.dom().contains(a) && s2.dom().contains(b) && a != b implies #[trigger] s2[a].preshared_keys.as_map()[b]
        == #[trigger] s2[b].preshared_keys.as_map()[a] by {
        assert(s.remove(name)[a] == s[a] && s.remove(name)[b] == s[b]);
        assert(s[a].preshared_keys.as_map()[b] == s[b].preshared_keys.as_map()[a]);
    }
}

/// Deleting a client keeps the pre-shared keys consistent: every server drops its key for
/// it.
pub proof fn law_delete_client_keeps_psks(l: Loaded, l2: Loaded, name: Seq<char>)
    requires
        psks_consistent(l.data),
        l.data.clients.as_map().dom().contains(name),
        l2.data.clients.as_map() == l.data.clients.as_map().remove(name),
        servers_lose_psk(l.data.servers.as_map(), l2.data.servers.as_map(), name),
    ensures
        psks_consistent(l2.data),
{
    let s = l.data.servers.as_map();
    let c = l.data.clients.as_map();
    let s2 = l2.data.servers.as_map();
    let c2 = l2.data.clients.as_map();
    assert forall|a: Seq<char>| #[trigger] s2.dom().contains(a) implies s2[a].preshared_keys.as_map().dom()
        == s2.dom().union(c2.dom()).remove(a) by {
        assert(s2[a].preshared_keys.as_map().dom() =~= s2.dom().union(c2.dom()).remove(a));
    }
    assert forall|a: Seq<char>, b: Seq<char>|
        s2.dom().contains(a) && s2.dom().contains(b) && a != b implies #[trigger] s2[a].preshared_keys.as_map()[b]
        == #[trigger] s2[b].preshared_keys.as_map()[a] by {
        assert(!c.dom().contains(a) && !c.dom().contains(b));
        assert(s[a].preshared_keys.as_map()[b] == s[b].preshared_keys.as_map()[a]);
    }
}

/// Renaming a client to a free name keeps the pre-shared keys consistent: every server's
/// key for it moves to the new name.
pub proof fn law_rename_client_keeps_psks(l: Loaded, l2: Loaded, name: Seq<char>, new_name: Seq<char>)
    requires
        psks_consistent(l.data),
        l.data.clients.as_map().dom().contains(name),
        !name_taken(l.data, new_name),
        l2.data.clients.as_map().dom() == l.data.clients.as_map().dom().remove(name).insert(new_name),
        servers_rename_psk(l.data.servers.as_map(), l2.data.servers.as_map(), name, new_name),
    ensures
        psks_consistent(l2.data),
{
    let s = l.data.servers.as_map();
    let c = l.data.clients.as_map();
    let s2 = l2.data.servers.as_map();
    let c2 = l2.data.clients.as_map();
    assert forall|a: Seq<char>| #[trigger] s2.dom().contains(a) implies s2[a].preshared_keys.as_map().dom()
        == s2.dom().union(c2.dom()).remove(a) by {
        assert(!c.dom().contains(a));
        assert(s[a].preshared_keys.as_map().dom().contains(name));
        assert(s2[a].preshared_keys.as_map() == renamed_psks(s[a].preshared_keys.as_map(), name, new_name));
        assert(s2[a].preshared_keys.as_map().dom() =~= s2.dom().union(c2.dom()).remove(a));
    }
    assert forall|a: Seq<char>, b: Seq<char>|
        s2.dom().contains(a) && s2.dom().contains(b) && a != b implies #[trigger] s2[a].preshared_keys.as_map()[b]
        == #[trigger] s2[b].preshared_keys.as_map()[a] by {
        assert(!c.dom().contains(a) && !c.dom().contains(b));
        assert(s[a].preshared_keys.as_map().dom().contains(name));
        assert(s[b].preshared_keys.as_map().dom().contains(name));
        assert(s[a].preshared_keys.as_map()[b] == s[b].preshared_keys.as_map()[a]);
    }
}

/// Changing a server's endpoint keeps the pre-shared keys consistent.
pub proof fn law_edit_server_keeps_psks(l: Loaded, l2: Loaded, name: Seq<char>)
    requires
        psks_consistent(l.data),
        l.data.servers.as_map().dom().contains(name),
        l2.data.clients == l.data.clients,
        l2.data.servers.as_map() == l.data.servers.as_map().insert(name, l2.data.servers.as_map()[name]),
        l2.data.servers.as_map()[name].preshared_keys == l.data.servers.as_map()[name].preshared_keys,
    ensures
        psks_consistent(l2.data),
{
    let s = l.data.servers.as_map();
    let s2 = l2.data.servers.as_map();
    assert(s2.dom() =~= s.dom());
    assert forall|a: Seq<char>| #[trigger] s2.dom().contains(a) implies s2[a].preshared_keys == s[a].preshared_keys by {
        if a != name {
            assert(s2[a] == s[a]);
        }
    }
}

/// No two clients have the same address.
pub open spec fn client_ips_distinct(d: DataFile) -> bool {
    let c = d.clients.as_map();
    forall|a: Seq<char>, b: Seq<char>|
        #![trigger c[a], c[b]]
        c.dom().contains(a) && c.dom().contains(b) && a != b ==> c[a].ip@ != c[b].ip@
}

/// No two servers have the same address.
pub open spec fn server_ips_distinct(d: DataFile) -> bool {
    let s = d.servers.as_map();
    forall|a: Seq<char>, b: Seq<char>|
        #![trigger s[a], s[b]]
        s.dom().contains(a) && s.dom().contains(b) && a != b ==> s[a].ip@ != s[b].ip@
}

proof fn lemma_client_ip_listed(d: DataFile, k: Seq<char>)
    requires
        d.clients.as_map().dom().contains(k),
    ensures
        client_ips(d.clients@).contains(d.clients.as_map()[k].ip@),
{
    let s = d.clients@;
    let i = key_index(s, k);
    assert(client_ips(s)[i] == s[i].1.ip@);
}

proof fn lemma_server_ip_listed(d: DataFile, k: Seq<char>)
    requires
        d.servers.as_map().dom().contains(k),
    ensures
        server_ips(d.servers@).contains(d.servers.as_map()[k].ip@),
{
    let s = d.servers@;
    let i = key_index(s, k);
    assert(server_ips(s)[i] == s[i].1.ip@);
}

/// A client added at the first free address of the client range takes an address that no
/// client had: client addresses stay distinct.
pub proof fn law_add_client_keeps_ips_distinct(l: Loaded, after: Option<Loaded>, name: Seq<char>, k: int)
    requires
        client_ips_distinct(l.data),
        first_free(net_addr(l), l.data.network.client_ip_start as int, max_offset(l), client_ips(l.data.clients@))
            == Some(k),
        client_added(l, after, name, ipv4_text((net_addr(l) + k) as u32)),
    ensures
        after matches Some(l2) && client_ips_distinct(l2.data),
{
    let l2 = after->0;
    let c = l.data.clients.as_map();
    let c2 = l2.data.clients.as_map();
    let ip = ipv4_text((net_addr(l) + k) as u32);
    lemma_first_free(net_addr(l), l.data.network.client_ip_start as int, max_offset(l), client_ips(l.data.clients@));
    assert forall|a: Seq<char>, b: Seq<char>|
        c2.dom().contains(a) && c2.dom().contains(b) && a != b implies #[trigger] c2[a].ip@ != #[trigger] c2[b].ip@ by {
        if a == name {
            lemma_client_ip_listed(l.data, b);
        } else if b == name {
            lemma_client_ip_listed(l.data, a);
        } else {
            assert(c2[a] == c[a] && c2[b] == c[b]);
        }
    }
}

/// A server added at the first free address of the server range takes an address that no
/// server had: server addresses stay distinct.
pub proof fn law_add_server_keeps_ips_distinct(
    l: Loaded,
    after: Option<Loaded>,
    name: Seq<char>,
    k: int,
    public_ip: Seq<char>,
    port: u16,
)
    requires
        server_ips_distinct(l.data),
        first_free(
            net_addr(l),
            l.data.network.server_ip_range[0] as int,
            l.data.network.server_ip_range[1] as int,
            server_ips(l.data.servers@),
        ) == Some(k),
        server_added(l, after, name, ipv4_text((net_addr(l) + k) as u32), public_ip, port),
    ensures
        after matches Some(l2) && server_ips_distinct(l2.data),
{
    let l2 = after->0;
    let s = l.data.servers.as_map();
    let s2 = l2.data.servers.as_map();
    let others = s2.remove(name);
    lemma_first_free(
        net_addr(l),
        l.data.network.server_ip_range[0] as int,
        l.data.network.server_ip_range[1] as int,
        server_ips(l.data.servers@),
    );
    assert forall|a: Seq<char>, b: Seq<char>|
        s2.dom().contains(a) && s2.dom().contains(b) && a != b implies #[trigger] s2[a].ip@ != #[trigger] s2[b].ip@ by {
        if a == name {
            assert(others[b] == s2[b]);
            assert(psk_added(s[b], others[b], name));
            lemma_server_ip_listed(l.data, b);
        } else if b == name {
            assert(others[a] == s2[a]);
            assert(psk_added(s[a], others[a], name));
            lemma_server_ip_listed(l.data, a);
        } else {
            assert(others[a] == s2[a] && others[b] == s2[b]);
            assert(psk_added(s[a], others[a], name));
            assert(psk_added(s[b], others[b], name));
        }
    }
}

/// Truncating to the network address twice changes nothing more.
proof fn lemma_network_idempotent(addr: u32, p: nat)
    requires
        p <= 32,
    ensures
        network_of(network_of(addr, p) as u32, p) == network_of(addr, p),
{
    lemma_network_fits(addr, p);
    lemma_block_bounds(p);
    let b = block_size(p) as int;
    let a = addr as int;
    vstd::arithmetic::div_mod::lemma_fundamental_div_mod(a, b);
    let q = a / b;
    assert(a - a % b == b * q);
    vstd::arithmetic::div_mod::lemma_mod_multiples_basic(q, b);
    assert(b * q == q * b) by (nonlinear_arith);
}

/// What a successful initialization reads back as: the statistics can be computed and
/// report the server offsets that were asked for, clients from the next offset up to the
/// highest host offset of the network, and no devices.
pub proof fn law_init_then_show(
    before: WireGuardManager,
    after: WireGuardManager,
    subnet: Seq<char>,
    parsed: Option<Ipv4Net>,
    start: u32,
    end: u32,
    force: bool,
    exists: bool,
    backup: Seq<char>,
    res: OperationResult,
)
    requires
        parsed matches Some(n) ==> 1 <= n.prefix_len <= 32,
        init_spec(before, after, subnet, parsed, start, end, force, exists, backup, Ok(res)),
    ensures
        after.loaded() matches Some(l) && {
            let info = network_info_of(l);
            let max = saturated_max(l.network.prefix_len);
            &&& after.show_defined()
            &&& info.server_range_offsets == (start, end)
            &&& info.client_start_offset == end + 1
            &&& info.max_host_offset == max
            &&& info.server_count == 0
            &&& info.client_count == 0
            &&& info.server_capacity == end - start + 1
            &&& info.client_capacity == max - end
        },
{
    let n = parsed->0;
    let p = n.prefix_len as nat;
    let tn = truncated(n);
    let l = after.loaded()->0;
    lemma_block_bounds(p);
    lemma_network_fits(n.addr, p);
    if p == 32 {
        vstd::arithmetic::power2::lemma2_to64();
        assert(block_size(p) == 1);
    }
    lemma_block_host_range(p);
    lemma_network_idempotent(n.addr, p);
    assert(l.network == tn);
}

/// Every server whose address reads as an address lies within the server range, and
/// every such client at or above the first client offset.
pub open spec fn devices_in_ranges(l: Loaded) -> bool {
    let net = net_addr(l);
    let s = l.data.servers.as_map();
    let c = l.data.clients.as_map();
    let r0 = l.data.network.server_ip_range[0];
    let r1 = l.data.network.server_ip_range[1];
    let cs = l.data.network.client_ip_start;
    &&& forall|k: Seq<char>| #![trigger s[k]] s.dom().contains(k) ==> (parse_ipv4(s[k].ip@) matches Some(a) ==> net + r0
        <= a <= net + r1)
    &&& forall|k: Seq<char>| #![trigger c[k]] c.dom().contains(k) ==> (parse_ipv4(c[k].ip@) matches Some(a) ==> net + cs
        <= a)
}

proof fn lemma_none_outside(s: Seq<(String, ServerEntry)>, lo: int, hi: int)
    requires
        servers_outside(s, lo, hi).len() == 0,
    ensures
        forall|i: int| #![trigger s[i]] 0 <= i < s.len() ==> (parse_ipv4(s[i].1.ip@) matches Some(a) ==> lo <= a <= hi),
    decreases s.len(),
{
    if s.len() > 0 {
        lemma_none_outside(s.drop_last(), lo, hi);
        assert forall|i: int| #![trigger s[i]] 0 <= i < s.len() implies (parse_ipv4(s[i].1.ip@) matches Some(a) ==> lo <= a
            <= hi) by {
            if i < s.len() - 1 {
                assert(s.drop_last()[i] == s[i]);
            }
        }
    }
}

proof fn lemma_none_below(c: Seq<(String, ClientEntry)>, bound: int)
    requires
        clients_below(c, bound).len() == 0,
    ensures
        forall|i: int| #![trigger c[i]] 0 <= i < c.len() ==> (parse_ipv4(c[i].1.ip@) matches Some(a) ==> bound <= a),
    decreases c.len(),
{
    if c.len() > 0 {
        lemma_none_below(c.drop_last(), bound);
        assert forall|i: int| #![trigger c[i]] 0 <= i < c.len() implies (parse_ipv4(c[i].1.ip@) matches Some(a) ==> bound
            <= a) by {
            if i < c.len() - 1 {
                assert(c.drop_last()[i] == c[i]);
            }
        }
    }
}

/// A server range that an update accepts holds the devices: afterwards every server lies
/// within the new range and every client above it.
pub proof fn law_update_keeps_devices_in_range(
    before: WireGuardManager,
    after: WireGuardManager,
    subnet: Option<Seq<char>>,
    parsed: Option<Ipv4Net>,
    start: Option<u32>,
    end: Option<u32>,
    backup: Seq<char>,
    res: OperationResult,
)
    requires
        start is Some || end is Some,
        update_spec(before, after, subnet, parsed, start, end, backup, Ok(res)),
    ensures
        after.loaded() matches Some(l2) && devices_in_ranges(l2),
{
    let l = before.loaded()->0;
    let l2 = after.loaded()->0;
    let n2 = l2.network;
    let s = l2.data.network.server_ip_range[0];
    let e = l2.data.network.server_ip_range[1];
    let net = network_of(n2.addr, n2.prefix_len as nat) as int;
    lemma_none_outside(l.data.servers@, net + s, net + e);
    lemma_none_below(l.data.clients@, net + e + 1);
    let sm = l2.data.servers.as_map();
    let cm = l2.data.clients.as_map();
    assert forall|k: Seq<char>| #![trigger sm[k]] sm.dom().contains(k) implies (parse_ipv4(sm[k].ip@) matches Some(a)
        ==> net + s <= a <= net + e) by {
        let i = key_index(l.data.servers@, k);
        assert(sm[k] == l.data.servers@[i].1);
    }
    assert forall|k: Seq<char>| #![trigger cm[k]] cm.dom().contains(k) implies (parse_ipv4(cm[k].ip@) matches Some(a)
        ==> net + e + 1 <= a) by {
        let i = key_index(l.data.clients@, k);
        assert(cm[k] == l.data.clients@[i].1);
    }
}

/// A client added at the first free address of the client range lies in that range: every
/// device stays in its range.
pub proof fn law_add_client_keeps_devices_in_range(l: Loaded, after: Option<Loaded>, name: Seq<char>, k: int)
    requires
        l.wf(),
        devices_in_ranges(l),
        first_free(net_addr(l), l.data.network.client_ip_start as int, max_offset(l), client_ips(l.data.clients@))
            == Some(k),
        client_added(l, after, name, ipv4_text((net_addr(l) + k) as u32)),
    ensures
        after matches Some(l2) && devices_in_ranges(l2),
{
    let l2 = after->0;
    let net = net_addr(l);
    lemma_first_free(net, l.data.network.client_ip_start as int, max_offset(l), client_ips(l.data.clients@));
    lemma_network_fits(l.network.addr, l.network.prefix_len as nat);
    law_ipv4_text_round_trip((net + k) as u32);
    let s = l.data.servers.as_map();
    let s2 = l2.data.servers.as_map();
    let c = l.data.clients.as_map();
    let c2 = l2.data.clients.as_map();
    assert forall|x: Seq<char>| #![trigger s2[x]] s2.dom().contains(x) implies (parse_ipv4(s2[x].ip@) matches Some(a)
        ==> net + l.data.network.server_ip_range[0] <= a <= net + l.data.network.server_ip_range[1]) by {
        assert(psk_added(s[x], s2[x], name));
        assert(s[x].ip == s2[x].ip);
    }
    assert forall|x: Seq<char>| #![trigger c2[x]] c2.dom().contains(x) implies (parse_ipv4(c2[x].ip@) matches Some(a)
        ==> net + l.data.network.client_ip_start <= a) by {
        if x != name {
            assert(c2[x] == c[x]);
        }
    }
}

/// A server added at the first free address of the server range lies in that range: every
/// device stays in its range (where scanning the range stays within the address space, as
/// adding a server requires).
pub proof fn law_add_server_keeps_devices_in_range(
    l: Loaded,
    after: Option<Loaded>,
    name: Seq<char>,
    k: int,
    public_ip: Seq<char>,
    port: u16,
)
    requires
        l.wf(),
        devices_in_ranges(l),
        first_free(
            net_addr(l),
            l.data.network.server_ip_range[0] as int,
            l.data.network.server_ip_range[1] as int,
            server_ips(l.data.servers@),
        ) == Some(k),
        scan_fits(
            net_addr(l),
            l.data.network.server_ip_range[0] as int,
            l.data.network.server_ip_range[1] as int,
            server_ips(l.data.servers@),
        ),
        server_added(l, after, name, ipv4_text((net_addr(l) + k) as u32), public_ip, port),
    ensures
        after matches Some(l2) && devices_in_ranges(l2),
{
    let l2 = after->0;
    let net = net_addr(l);
    let r0 = l.data.network.server_ip_range[0] as int;
    let r1 = l.data.network.server_ip_range[1] as int;
    lemma_first_free(net, r0, r1, server_ips(l.data.servers@));
    lemma_network_fits(l.network.addr, l.network.prefix_len as nat);
    law_ipv4_text_round_trip((net + k) as u32);
    let s = l.data.servers.as_map();
    let s2 = l2.data.servers.as_map();
    let others = s2.remove(name);
    let c2 = l2.data.clients.as_map();
    assert forall|x: Seq<char>| #![trigger s2[x]] s2.dom().contains(x) implies (parse_ipv4(s2[x].ip@) matches Some(a)
        ==> net + r0 <= a <= net + r1) by {
        if x != name {
            assert(others[x] == s2[x]);
            assert(psk_added(s[x], others[x], name));
        }
    }
}

/// The same network with the same devices: equal clients, and servers that are the same
/// devices holding the same pre-shared keys.
pub open spec fn same_devices(a: Loaded, b: Loaded) -> bool {
    let s = a.data.servers.as_map();
    let t = b.data.servers.as_map();
    &&& b.network == a.network
    &&& b.data.network == a.data.network
    &&& b.data.clients.as_map() == a.data.clients.as_map()
    &&& t.dom() == s.dom()
    &&& forall|k: Seq<char>| #[trigger] s.dom().contains(k) ==> same_identity(s[k], t[k])
        && t[k].preshared_keys.as_map() == s[k].preshared_keys.as_map()
}

/// Deleting a client right after adding it gives the devices back as they were (in a
/// network whose pre-shared keys are consistent).
pub proof fn law_delete_undoes_add_client(
    m1: WireGuardManager,
    m2: WireGuardManager,
    m3: WireGuardManager,
    name: Seq<char>,
    r1: OperationResult,
    r2: OperationResult,
)
    requires
        m1.loaded() matches Some(l) && psks_consistent(l.data),
        add_client_spec(m1, m2, name, Ok(r1)),
        delete_client_spec(m2, m3, name, Ok(r2)),
    ensures
        m1.loaded() matches Some(l) && m3.loaded() matches Some(l3) && same_devices(l, l3),
{
    let l = m1.loaded()->0;
    let l2 = m2.loaded()->0;
    let l3 = m3.loaded()->0;
    let s = l.data.servers.as_map();
    let s2 = l2.data.servers.as_map();
    let s3 = l3.data.servers.as_map();
    let c = l.data.clients.as_map();
    assert(l2.data.clients.as_map().remove(name) =~= c);
    assert forall|k: Seq<char>| #[trigger] s.dom().contains(k) implies same_identity(s[k], s3[k])
        && s3[k].preshared_keys.as_map() == s[k].preshared_keys.as_map() by {
        assert(psk_added(s[k], s2[k], name));
        let p = s[k].preshared_keys.as_map();
        assert(!p.dom().contains(name));
        assert(p.insert(name, s2[k].preshared_keys.as_map()[name]).remove(name) =~= p);
    }
}

/// Deleting a server right after adding it gives the devices back as they were (in a
/// network whose pre-shared keys are consistent).
pub proof fn law_delete_undoes_add_server(
    m1: WireGuardManager,
    m2: WireGuardManager,
    m3: WireGuardManager,
    name: Seq<char>,
    public_ip: Seq<char>,
    port: u16,
    r1: OperationResult,
    r2: OperationResult,
)
    requires
        m1.loaded() matches Some(l) && psks_consistent(l.data),
        add_server_spec(m1, m2, name, public_ip, port, Ok(r1)),
        delete_server_spec(m2, m3, name, Ok(r2)),
    ensures
        m1.loaded() matches Some(l) && m3.loaded() matches Some(l3) && same_devices(l, l3),
{
    let l = m1.loaded()->0;
    let l2 = m2.loaded()->0;
    let l3 = m3.loaded()->0;
    let s = l.data.servers.as_map();
    let s2 = l2.data.servers.as_map();
    let s3 = l3.data.servers.as_map();
    let others = s2.remove(name);
    assert(others.dom() =~= s.dom());
    assert forall|k: Seq<char>| #[trigger] s.dom().contains(k) implies same_identity(s[k], s3[k])
        && s3[k].preshared_keys.as_map() == s[k].preshared_keys.as_map() by {
        assert(psk_added(s[k], others[k], name));
        let p = s[k].preshared_keys.as_map();
        assert(!p.dom().contains(name));
        assert(p.insert(name, others[k].preshared_keys.as_map()[name]).remove(name) =~= p);
    }
}

/// What a client addition reads back as: showing the new client gives its name and the
/// address it was given.
pub proof fn law_show_after_add_client(m1: WireGuardManager, m2: WireGuardManager, name: Seq<char>, r: OperationResult)
    requires
        add_client_spec(m1, m2, name, Ok(r)),
    ensures
        ({
            &&& m1.loaded() matches Some(l)
            &&& first_free(net_addr(l), l.data.network.client_ip_start as int, max_offset(l), client_ips(l.data.clients@))
                matches Some(k)
            &&& m2.loaded() matches Some(l2)
            &&& device_info_of(l2, name) matches Some(DeviceInfo::Client { name: n, ip, .. })
            &&& n@ == name
            &&& ip@ == ipv4_text((net_addr(l) + k) as u32)
        }),
{
    let l = m1.loaded()->0;
    let l2 = m2.loaded()->0;
    assert(l2.data.clients.as_map().dom().contains(name));
    assert(!l2.data.servers.as_map().dom().contains(name));
}

/// What a server addition reads back as: showing the new server gives its name, the
/// address it was given, and its endpoint.
pub proof fn law_show_after_add_server(
    m1: WireGuardManager,
    m2: WireGuardManager,
    name: Seq<char>,
    public_ip: Seq<char>,
    port: u16,
    r: OperationResult,
)
    requires
        add_server_spec(m1, m2, name, public_ip, port, Ok(r)),
    ensures
        ({
            &&& m1.loaded() matches Some(l)
            &&& first_free(
                net_addr(l),
                l.data.network.server_ip_range[0] as int,
                l.data.network.server_ip_range[1] as int,
                server_ips(l.data.servers@),
            ) matches Some(k)
            &&& m2.loaded() matches Some(l2)
            &&& device_info_of(l2, name) matches Some(DeviceInfo::Server { name: n, ip, public_ip: p, listen_port: q, .. })
            &&& n@ == name
            &&& ip@ == ipv4_text((net_addr(l) + k) as u32)
            &&& p@ == public_ip
            &&& q == port
        }),
{
}

/// The number of entries of `s` whose name is not `name`: the servers that the
/// configuration of server `name` lists as peers.
pub open spec fn peers_in(s: Seq<(String, ServerEntry)>, name: Seq<char>) -> nat
    decreases s.len(),
{
    if s.len() == 0 {
        0
    } else {
        peers_in(s.drop_last(), name) + if s.last().0@ == name { 0nat } else { 1nat }
    }
}

/// The comment line of a peer section.
pub open spec fn peer_comment(name: Seq<char>, kind: Seq<char>) -> Seq<char> {
    "# Peer: "@ + name + " ("@ + kind + ")"@
}

proof fn lemma_client_server_peers(s: Seq<(String, ServerEntry)>, c: Seq<char>, i: int)
    requires
        0 <= i < s.len(),
    ensures
        client_server_peers(s, c).len() == 8 * s.len(),
        client_server_peers(s, c)[8 * i + 1] == peer_comment(s[i].0@, "Server"@),
        client_server_peers(s, c)[8 * i + 3] == "PublicKey = "@ + s[i].1.public_key@,
        client_server_peers(s, c)[8 * i + 4] == "PresharedKey = "@ + psk_text(s[i].1.preshared_keys@, c),
        client_server_peers(s, c)[8 * i] == Seq::<char>::empty(),
        client_server_peers(s, c)[8 * i + 2] == "[Peer]"@,
        client_server_peers(s, c)[8 * i + 5] == "AllowedIPs = "@ + s[i].1.ip@ + "/32"@,
        client_server_peers(s, c)[8 * i + 6] == "Endpoint = "@ + s[i].1.public_ip@ + ":"@ + decimal(s[i].1.listen_port as nat),
        client_server_peers(s, c)[8 * i + 7] == "PersistentKeepalive = 25"@,
    decreases s.len(),
{
    let d = s.drop_last();
    let e = s.last();
    let pl = peer_lines(e.0@, "Server"@, e.1.public_key@, psk_text(e.1.preshared_keys@, c), e.1.ip@, Some((e.1.public_ip@, e.1.listen_port)), true);
    assert(pl.len() == 8);
    if i < s.len() - 1 {
        lemma_client_server_peers(d, c, i);
        assert(d[i] == s[i]);
    } else {
        if d.len() > 0 {
            lemma_client_server_peers(d, c, 0);
        } else {
            assert(client_server_peers(d, c).len() == 0);
        }
    }
}

proof fn lemma_client_peers(s: Seq<(String, ClientEntry)>, psks: Seq<(String, String)>, j: int)
    requires
        0 <= j < s.len(),
    ensures
        client_peers(s, psks).len() == 6 * s.len(),
        client_peers(s, psks)[6 * j + 1] == peer_comment(s[j].0@, "Client"@),
        client_peers(s, psks)[6 * j + 3] == "PublicKey = "@ + s[j].1.public_key@,
        client_peers(s, psks)[6 * j + 4] == "PresharedKey = "@ + psk_text(psks, s[j].0@),
        client_peers(s, psks)[6 * j] == Seq::<char>::empty(),
        client_peers(s, psks)[6 * j + 2] == "[Peer]"@,
        client_peers(s, psks)[6 * j + 5] == "AllowedIPs = "@ + s[j].1.ip@ + "/32"@,
    decreases s.len(),
{
    let d = s.drop_last();
    let e = s.last();
    let pl = peer_lines(e.0@, "Client"@, e.1.public_key@, psk_text(psks, e.0@), e.1.ip@, None, false);
    assert(pl.len() == 6);
    if j < s.len() - 1 {
        lemma_client_peers(d, psks, j);
        assert(d[j] == s[j]);
    } else {
        if d.len() > 0 {
            lemma_client_peers(d, psks, 0);
        } else {
            assert(client_peers(d, psks).len() == 0);
        }
    }
}

proof fn lemma_server_peers_len(s: Seq<(String, ServerEntry)>, name: Seq<char>, psks: Seq<(String, String)>)
    ensures
        server_peers(s, name, psks).len() == 7 * peers_in(s, name),
    decreases s.len(),
{
    if s.len() > 0 {
        lemma_server_peers_len(s.drop_last(), name, psks);
    }
}

proof fn lemma_server_peers(s: Seq<(String, ServerEntry)>, name: Seq<char>, psks: Seq<(String, String)>, k: int)
    requires
        0 <= k < s.len(),
        s[k].0@ != name,
    ensures
        server_peers(s, name, psks)[7 * peers_in(s.take(k), name) + 1int] == peer_comment(s[k].0@, "Server"@),
        server_peers(s, name, psks)[7 * peers_in(s.take(k), name) + 3int] == "PublicKey = "@ + s[k].1.public_key@,
        server_peers(s, name, psks)[7 * peers_in(s.take(k), name) + 4int] == "PresharedKey = "@ + psk_text(psks, s[k].0@),
        server_peers(s, name, psks)[7 * peers_in(s.take(k), name) + 0int] == Seq::<char>::empty(),
        server_peers(s, name, psks)[7 * peers_in(s.take(k), name) + 2int] == "[Peer]"@,
        server_peers(s, name, psks)[7 * peers_in(s.take(k), name) + 5int] == "AllowedIPs = "@ + s[k].1.ip@ + "/32"@,
        server_peers(s, name, psks)[7 * peers_in(s.take(k), name) + 6int]
            == "Endpoint = "@ + s[k].1.public_ip@ + ":"@ + decimal(s[k].1.listen_port as nat),
    decreases s.len(),
{
    let d = s.drop_last();
    lemma_server_peers_len(d, name, psks);
    if k < s.len() - 1 {
        assert(d.take(k) =~= s.take(k));
        assert(d[k] == s[k]);
        lemma_server_peers(d, name, psks, k);
        lemma_server_peers_len(d.take(k), name, psks);
        assert(peers_in(s.take(k), name) < peers_in(d, name)) by {
            lemma_peers_in_prefix(d, name, k);
        }
    } else {
        assert(s.take(k) =~= d);
    }
}

proof fn lemma_peers_in_prefix(s: Seq<(String, ServerEntry)>, name: Seq<char>, k: int)
    requires
        0 <= k < s.len(),
        s[k].0@ != name,
    ensures
        peers_in(s.take(k), name) < peers_in(s, name),
    decreases s.len(),
{
    let d = s.drop_last();
    if k < s.len() - 1 {
        assert(d.take(k) =~= s.take(k));
        assert(d[k] == s[k]);
        lemma_peers_in_prefix(d, name, k);
    } else {
        assert(s.take(k) =~= d);
    }
}

/// The configurations of a server and a client carry the same pre-shared key for each
/// other: in the client's configuration, the section of the server holds the key that
/// the server stores for the client, and so does the section of the client in the
/// server's configuration.
pub proof fn law_client_and_server_configs_share_psk(d: DataFile, i: int, j: int, prefix_len: u8)
    requires
        0 <= i < d.servers@.len(),
        0 <= j < d.clients@.len(),
    ensures
        ({
            let a = d.servers@[i];
            let c = d.clients@[j];
            let key = "PresharedKey = "@ + psk_text(a.1.preshared_keys@, c.0@);
            let cl = client_config_lines(d, c.0@, c.1, prefix_len);
            let sl = server_config_lines(d, a.0@, a.1, prefix_len);
            let at: int = 4 + 7 * peers_in(d.servers@, a.0@) + 6 * j;
            &&& cl[3 + 8 * i + 1] == peer_comment(a.0@, "Server"@)
            &&& cl[3 + 8 * i + 4] == key
            &&& sl[at + 1] == peer_comment(c.0@, "Client"@)
            &&& sl[at + 4] == key
        }),
{
    let a = d.servers@[i];
    let c = d.clients@[j];
    lemma_client_server_peers(d.servers@, c.0@, i);
    lemma_client_peers(d.clients@, a.1.preshared_keys@, j);
    lemma_server_peers_len(d.servers@, a.0@, a.1.preshared_keys@);
}

/// The configurations of two servers carry the same pre-shared key for each other (in a
/// network whose pre-shared keys are consistent).
pub proof fn law_server_configs_share_psk(d: DataFile, i: int, k: int, prefix_len: u8)
    requires
        keys_sorted(d.servers@),
        keys_sorted(d.clients@),
        psks_consistent(d),
        0 <= i < d.servers@.len(),
        0 <= k < d.servers@.len(),
        i != k,
    ensures
        ({
            let a = d.servers@[i];
            let b = d.servers@[k];
            let la = server_config_lines(d, a.0@, a.1, prefix_len);
            let lb = server_config_lines(d, b.0@, b.1, prefix_len);
            let at_a: int = 4 + 7 * (peers_in(d.servers@.take(k), a.0@) as int);
            let at_b: int = 4 + 7 * (peers_in(d.servers@.take(i), b.0@) as int);
            &&& la[at_a + 1] == peer_comment(b.0@, "Server"@)
            &&& lb[at_b + 1] == peer_comment(a.0@, "Server"@)
            &&& la[at_a + 4] == "PresharedKey = "@ + psk_text(a.1.preshared_keys@, b.0@)
            &&& lb[at_b + 4] == "PresharedKey = "@ + psk_text(b.1.preshared_keys@, a.0@)
            &&& psk_text(a.1.preshared_keys@, b.0@) == psk_text(b.1.preshared_keys@, a.0@)
        }),
{
    let s = d.servers@;
    let a = s[i];
    let b = s[k];
    lemma_sorted_distinct(s, i, k);
    lemma_server_peers(s, a.0@, a.1.preshared_keys@, k);
    lemma_server_peers(s, b.0@, b.1.preshared_keys@, i);
    lemma_server_peers_len(s, a.0@, a.1.preshared_keys@);
    lemma_server_peers_len(s, b.0@, b.1.preshared_keys@);
    lemma_peers_in_prefix(s, a.0@, k);
    lemma_peers_in_prefix(s, b.0@, i);
    lemma_key_index(s, i);
    lemma_key_index(s, k);
    let m = d.servers.as_map();
    assert(m.dom().contains(a.0@) && m.dom().contains(b.0@));
    assert(m[a.0@] == a.1 && m[b.0@] == b.1);
    assert(m[a.0@].preshared_keys.as_map().dom().contains(b.0@));
    assert(m[b.0@].preshared_keys.as_map().dom().contains(a.0@));
    assert(m[a.0@].preshared_keys.as_map()[b.0@] == m[b.0@].preshared_keys.as_map()[a.0@]);
}

/// A server's configuration opens with its own interface: its private key, its address
/// with the network's prefix length, and its listening port.
pub proof fn law_server_config_interface(d: DataFile, i: int, prefix_len: u8)
    requires
        0 <= i < d.servers@.len(),
    ensures
        ({
            let a = d.servers@[i];
            let la = server_config_lines(d, a.0@, a.1, prefix_len);
            &&& la.len() == 4 + 7 * (peers_in(d.servers@, a.0@) as int) + 6 * d.clients@.len()
            &&& la[0] == "[Interface]"@
            &&& la[1] == "PrivateKey = "@ + a.1.private_key@
            &&& la[2] == "Address = "@ + a.1.ip@ + "/"@ + decimal(prefix_len as nat)
            &&& la[3] == "ListenPort = "@ + decimal(a.1.listen_port as nat)
        }),
{
    let a = d.servers@[i];
    lemma_server_peers_len(d.servers@, a.0@, a.1.preshared_keys@);
    if d.clients@.len() > 0 {
        lemma_client_peers(d.clients@, a.1.preshared_keys@, 0);
    }
}

/// The server sections of a server's configuration: after its interface, for every other
/// server in name order, a section that names that server and carries its public key
/// (never its private key), the key the two share, its address and its endpoint.
pub proof fn law_server_config_sections(d: DataFile, i: int, k: int, prefix_len: u8)
    requires
        keys_sorted(d.servers@),
        0 <= i < d.servers@.len(),
        0 <= k < d.servers@.len(),
        i != k,
    ensures
        ({
            let a = d.servers@[i];
            let b = d.servers@[k];
            let la = server_config_lines(d, a.0@, a.1, prefix_len);
            let at_b: int = 4 + 7 * (peers_in(d.servers@.take(k), a.0@) as int);
            &&& la[at_b] == Seq::<char>::empty()
            &&& la[at_b + 1] == peer_comment(b.0@, "Server"@)
            &&& la[at_b + 2] == "[Peer]"@
            &&& la[at_b + 3] == "PublicKey = "@ + b.1.public_key@
            &&& la[at_b + 4] == "PresharedKey = "@ + psk_text(a.1.preshared_keys@, b.0@)
            &&& la[at_b + 5] == "AllowedIPs = "@ + b.1.ip@ + "/32"@
            &&& la[at_b + 6] == "Endpoint = "@ + b.1.public_ip@ + ":"@ + decimal(b.1.listen_port as nat)
        }),
{
    let s = d.servers@;
    let a = s[i];
    lemma_sorted_distinct(s, i, k);
    lemma_server_peers(s, a.0@, a.1.preshared_keys@, k);
    lemma_server_peers_len(s, a.0@, a.1.preshared_keys@);
    lemma_peers_in_prefix(s, a.0@, k);
}

/// The client sections of a server's configuration: after the interface and one section
/// per other server, one section per client in name order, with the client's name, its
/// public key, the key the server holds for it, and its address; nothing follows them.
pub proof fn law_server_config_client_sections(d: DataFile, i: int, j: int, prefix_len: u8)
    requires
        0 <= i < d.servers@.len(),
        0 <= j < d.clients@.len(),
    ensures
        ({
            let a = d.servers@[i];
            let c = d.clients@[j];
            let la = server_config_lines(d, a.0@, a.1, prefix_len);
            let at_c: int = 4 + 7 * (peers_in(d.servers@, a.0@) as int) + 6 * j;
            &&& la.len() == 4 + 7 * (peers_in(d.servers@, a.0@) as int) + 6 * d.clients@.len()
            &&& la[at_c] == Seq::<char>::empty()
            &&& la[at_c + 1] == peer_comment(c.0@, "Client"@)
            &&& la[at_c + 2] == "[Peer]"@
            &&& la[at_c + 3] == "PublicKey = "@ + c.1.public_key@
            &&& la[at_c + 4] == "PresharedKey = "@ + psk_text(a.1.preshared_keys@, c.0@)
            &&& la[at_c + 5] == "AllowedIPs = "@ + c.1.ip@ + "/32"@
        }),
{
    let a = d.servers@[i];
    lemma_server_peers_len(d.servers@, a.0@, a.1.preshared_keys@);
    lemma_client_peers(d.clients@, a.1.preshared_keys@, j);
}

/// A client's configuration is its own interface (its private key and its address with
/// the network's prefix length, no listening port) followed by eight lines per server.
pub proof fn law_client_config_interface(d: DataFile, j: int, prefix_len: u8)
    requires
        0 <= j < d.clients@.len(),
    ensures
        ({
            let c = d.clients@[j];
            let cl = client_config_lines(d, c.0@, c.1, prefix_len);
            &&& cl.len() == 3 + 8 * d.servers@.len()
            &&& cl[0] == "[Interface]"@
            &&& cl[1] == "PrivateKey = "@ + c.1.private_key@
            &&& cl[2] == "Address = "@ + c.1.ip@ + "/"@ + decimal(prefix_len as nat)
        }),
{
    let c = d.clients@[j];
    if d.servers@.len() > 0 {
        lemma_client_server_peers(d.servers@, c.0@, 0);
    }
}

/// The server sections of a client's configuration: for every server in name order, a
/// section that names that server and carries that server's own public key, the key the
/// server holds for the client, the server's address, its endpoint and a keepalive of 25
/// seconds.
pub proof fn law_client_config_sections(d: DataFile, j: int, i: int, prefix_len: u8)
    requires
        0 <= j < d.clients@.len(),
        0 <= i < d.servers@.len(),
    ensures
        ({
            let a = d.servers@[i];
            let c = d.clients@[j];
            let cl = client_config_lines(d, c.0@, c.1, prefix_len);
            let at: int = 3 + 8 * i;
            &&& cl[at] == Seq::<char>::empty()
            &&& cl[at + 1] == peer_comment(a.0@, "Server"@)
            &&& cl[at + 2] == "[Peer]"@
            &&& cl[at + 3] == "PublicKey = "@ + a.1.public_key@
            &&& cl[at + 4] == "PresharedKey = "@ + psk_text(a.1.preshared_keys@, c.0@)
            &&& cl[at + 5] == "AllowedIPs = "@ + a.1.ip@ + "/32"@
            &&& cl[at + 6] == "Endpoint = "@ + a.1.public_ip@ + ":"@ + decimal(a.1.listen_port as nat)
            &&& cl[at + 7] == "PersistentKeepalive = 25"@
        }),
{
    let c = d.clients@[j];
    lemma_client_server_peers(d.servers@, c.0@, i);
}

/// `show` reports a server's stored keys as they are: its private key as the private key
/// and its public key as the public key, with its name, addresses and port.
pub proof fn law_show_server_reports_stored_entry(l: Loaded, name: Seq<char>)
    requires
        l.data.servers.as_map().dom().contains(name),
    ensures
        ({
            let s = l.data.servers.as_map()[name];
            &&& device_info_of(l, name) matches Some(DeviceInfo::Server {
                name: n,
                ip,
                public_ip,
                listen_port,
                private_key,
                public_key,
                preshared_keys_count,
            })
            &&& n == s.name
            &&& ip == s.ip
            &&& public_ip == s.public_ip
            &&& listen_port == s.listen_port
            &&& private_key == s.private_key
            &&& public_key == s.public_key
            &&& preshared_keys_count == s.preshared_keys@.len() as usize
        }),
{
}

/// `show` reports a client's stored keys as they are, when no server has its name.
pub proof fn law_show_client_reports_stored_entry(l: Loaded, name: Seq<char>)
    requires
        !l.data.servers.as_map().dom().contains(name),
        l.data.clients.as_map().dom().contains(name),
    ensures
        ({
            let c = l.data.clients.as_map()[name];
            &&& device_info_of(l, name) matches Some(DeviceInfo::Client { name: n, ip, private_key, public_key })
            &&& n == c.name
            &&& ip == c.ip
            &&& private_key == c.private_key
            &&& public_key == c.public_key
        }),
{
}


/// The address text `ip`, where it parses, lies in `[lo, hi]`.
pub open spec fn addr_within(ip: Seq<char>, lo: int, hi: int) -> bool {
    parse_ipv4(ip) matches Some(a) ==> lo <= a && a <= hi
}

/// The address text `ip`, where it parses, lies at or above `bound`.
pub open spec fn addr_from(ip: Seq<char>, bound: int) -> bool {
    parse_ipv4(ip) matches Some(a) ==> bound <= a
}

proof fn lemma_servers_outside_empty(s: Seq<(String, ServerEntry)>, lo: int, hi: int)
    ensures
        (servers_outside(s, lo, hi).len() == 0) == (forall|i: int| 0 <= i < s.len() ==> addr_within(#[trigger] s[i].1.ip@, lo, hi)),
    decreases s.len(),
{
    if s.len() > 0 {
        let d = s.drop_last();
        lemma_servers_outside_empty(d, lo, hi);
        assert forall|i: int| 0 <= i < d.len() implies #[trigger] d[i] == s[i] by {}
        if servers_outside(s, lo, hi).len() == 0 {
            assert forall|i: int| 0 <= i < s.len() implies addr_within(#[trigger] s[i].1.ip@, lo, hi) by {
                if i < s.len() - 1 {
                    assert(d[i] == s[i]);
                }
            }
        } else if forall|i: int| 0 <= i < s.len() ==> addr_within(#[trigger] s[i].1.ip@, lo, hi) {
            assert(addr_within(s[s.len() - 1].1.ip@, lo, hi));
            assert forall|i: int| 0 <= i < d.len() implies addr_within(#[trigger] d[i].1.ip@, lo, hi) by {
                assert(addr_within(s[i].1.ip@, lo, hi));
            }
        }
    }
}

proof fn lemma_clients_below_empty(c: Seq<(String, ClientEntry)>, bound: int)
    ensures
        (clients_below(c, bound).len() == 0) == (forall|i: int| 0 <= i < c.len() ==> addr_from(#[trigger] c[i].1.ip@, bound)),
    decreases c.len(),
{
    if c.len() > 0 {
        let d = c.drop_last();
        lemma_clients_below_empty(d, bound);
        assert forall|i: int| 0 <= i < d.len() implies #[trigger] d[i] == c[i] by {}
        if clients_below(c, bound).len() == 0 {
            assert forall|i: int| 0 <= i < c.len() implies addr_from(#[trigger] c[i].1.ip@, bound) by {
                if i < c.len() - 1 {
                    assert(d[i] == c[i]);
                }
            }
        } else if forall|i: int| 0 <= i < c.len() ==> addr_from(#[trigger] c[i].1.ip@, bound) {
            assert(addr_from(c[c.len() - 1].1.ip@, bound));
            assert forall|i: int| 0 <= i < d.len() implies addr_from(#[trigger] d[i].1.ip@, bound) by {
                assert(addr_from(c[i].1.ip@, bound));
            }
        }
    }
}

/// A server range `[s, e]` passes the checks exactly when it starts at 1 or later, is not
/// inverted, ends at the highest host offset or earlier, every server address lies inside
/// it, and every client address lies at or past the first client address (the one right
/// after the range): a client sitting at that first client address is no conflict.
pub proof fn law_range_accepted_exactly(n: Ipv4Net, d: DataFile, s: u32, e: u32)
    ensures
        range_ok(n, d, s, e) == {
            let net = net_of(n);
            &&& 1 <= s
            &&& s <= e
            &&& e <= max_of(n)
            &&& forall|i: int| 0 <= i < d.servers@.len() ==> addr_within(#[trigger] d.servers@[i].1.ip@, net + s, net + e)
            &&& forall|j: int| 0 <= j < d.clients@.len() ==> addr_from(#[trigger] d.clients@[j].1.ip@, net + e + 1)
        },
{
    lemma_servers_outside_empty(d.servers@, net_of(n) + s, net_of(n) + e);
    lemma_clients_below_empty(d.clients@, net_of(n) + e + 1);
}

/// A change of the server range alone is accepted whenever the new range `[s, e]` is well
/// formed, leaves room for clients after it, holds every server, and every client lies at
/// or past the new first client address `e + 1`: the range becomes `[s, e]`, clients start
/// at `e + 1`, and the devices are untouched.
pub proof fn law_range_update_accepted(
    before: WireGuardManager,
    after: WireGuardManager,
    s: u32,
    e: u32,
    backup: Seq<char>,
    r: Result<OperationResult, ManagerError>,
)
    requires
        update_spec(before, after, None, None, Some(s), Some(e), backup, r),
        before.loaded() matches Some(l) && {
            let net = net_of(l.network);
            &&& l.wf()
            &&& 1 <= s <= e
            &&& e + 1 <= max_of(l.network)
            &&& forall|i: int| 0 <= i < l.data.servers@.len() ==> addr_within(#[trigger] l.data.servers@[i].1.ip@, net + s, net + e)
            &&& forall|j: int| 0 <= j < l.data.clients@.len() ==> addr_from(#[trigger] l.data.clients@[j].1.ip@, net + e + 1)
        },
    ensures
        r is Ok,
        before.loaded() matches Some(l) && after.loaded() matches Some(l2) && {
            &&& l2.data.network.server_ip_range[0] == s
            &&& l2.data.network.server_ip_range[1] == e
            &&& l2.data.network.client_ip_start == e + 1
            &&& l2.data.servers == l.data.servers
            &&& l2.data.clients == l.data.clients
            &&& l2.network == l.network
        },
{
    let l = before.loaded()->0;
    law_range_accepted_exactly(l.network, l.data, s, e);
    assert(range_ok(l.network, l.data, s, e));
    lemma_block_bounds(l.network.prefix_len as nat);
    assert(e + 1 < 0x1_0000_0000);
}

/// `generate_config` of a name agrees with the specific generators: a server's name gives
/// the text `generate_server_config` gives for it, a client's name (when no server has it)
/// the text `generate_client_config` gives, and another name gives nothing.
pub proof fn law_config_of_agrees(l: Loaded, name: Seq<char>)
    ensures
        l.data.servers.as_map().dom().contains(name) ==> config_of(l, name) == Some(
            server_config(l.data, name, l.data.servers.as_map()[name], l.network.prefix_len),
        ),
        !l.data.servers.as_map().dom().contains(name) && l.data.clients.as_map().dom().contains(name)
            ==> config_of(l, name) == Some(
            client_config(l.data, name, l.data.clients.as_map()[name], l.network.prefix_len),
        ),
        !l.data.servers.as_map().dom().contains(name) && !l.data.clients.as_map().dom().contains(name)
            ==> config_of(l, name) is None,
{
}

} // verus!
