//! Rendering of WireGuard `.conf` files from the stored data.

use vstd::prelude::*;
use crate::names::{has_key, value_of};
use crate::text::{decimal, push_decimal, push_str, join, views, join_strings};
use crate::manager::types::{DataFile, ServerEntry, ClientEntry};
use crate::text::str_eq;

verus! {

/// The pre-shared key stored under `peer`, or the empty text when there is none.
pub open spec fn psk_text(m: Seq<(String, String)>, peer: Seq<char>) -> Seq<char> {
    if has_key(m, peer) {
        value_of(m, peer)@
    } else {
        Seq::<char>::empty()
    }
}

/// The lines of one `[Peer]` section, preceded by a blank line and a comment.
pub open spec fn peer_lines(
    name: Seq<char>,
    kind: Seq<char>,
    public_key: Seq<char>,
    psk: Seq<char>,
    allowed_ip: Seq<char>,
    endpoint: Option<(Seq<char>, u16)>,
    keepalive: bool,
) -> Seq<Seq<char>> {
    seq![
        Seq::<char>::empty(),
        "# Peer: "@ + name + " ("@ + kind + ")"@,
        "[Peer]"@,
        "PublicKey = "@ + public_key,
        "PresharedKey = "@ + psk,
        "AllowedIPs = "@ + allowed_ip + "/32"@,
    ] + (match endpoint {
        Some(e) => seq!["Endpoint = "@ + e.0 + ":"@ + decimal(e.1 as nat)],
        None => Seq::<Seq<char>>::empty(),
    }) + (if keepalive {
        seq!["PersistentKeepalive = 25"@]
    } else {
        Seq::<Seq<char>>::empty()
    })
}

fn line2(a: &str, b: &str) -> (r: String)
    ensures
        r@ == a@ + b@,
{
    let mut s = String::new();
    push_str(&mut s, a);
    push_str(&mut s, b);
    proof {
        assert(s@ =~= a@ + b@);
    }
    s
}

/// Append a `[Peer]` section to the config line buffer.
pub fn push_peer_section(
    lines: &mut Vec<String>,
    peer_name: &str,
    peer_type: &str,
    public_key: &str,
    psk: &str,
    allowed_ip: &str,
    endpoint: Option<(&str, u16)>,
    keepalive: bool,
)
    ensures
        views(final(lines)@) == views(old(lines)@) + peer_lines(
            peer_name@,
            peer_type@,
            public_key@,
            psk@,
            allowed_ip@,
            match endpoint {
                Some(e) => Some((e.0@, e.1)),
                None => None,
            },
            keepalive,
        ),
{
    let ghost start = views(lines@);
    lines.push(String::new());
    let mut comment = line2("# Peer: ", peer_name);
    push_str(&mut comment, " (");
    push_str(&mut comment, peer_type);
    push_str(&mut comment, ")");
    lines.push(comment);
    lines.push("[Peer]".to_owned());
    lines.push(line2("PublicKey = ", public_key));
    lines.push(line2("PresharedKey = ", psk));
    let mut allowed = line2("AllowedIPs = ", allowed_ip);
    push_str(&mut allowed, "/32");
    lines.push(allowed);
    let ghost mid = views(lines@);
    proof {
        assert(mid =~= start + seq![
            Seq::<char>::empty(),
            "# Peer: "@ + peer_name@ + " ("@ + peer_type@ + ")"@,
            "[Peer]"@,
            "PublicKey = "@ + public_key@,
            "PresharedKey = "@ + psk@,
            "AllowedIPs = "@ + allowed_ip@ + "/32"@,
        ]);
    }
    match endpoint {
        Some((ip, port)) => {
            let mut e = line2("Endpoint = ", ip);
            push_str(&mut e, ":");
            push_decimal(&mut e, port as u64);
            lines.push(e);
        },
        None => {},
    }
    let ghost mid2 = views(lines@);
    if keepalive {
        lines.push("PersistentKeepalive = 25".to_owned());
    }
    proof {
        match endpoint {
            Some(e) => {
                assert(mid2 =~= mid + seq!["Endpoint = "@ + e.0@ + ":"@ + decimal(e.1 as nat)]);
            },
            None => {
                assert(mid2 =~= mid);
            },
        }
        if keepalive {
            assert(views(lines@) =~= mid2 + seq!["PersistentKeepalive = 25"@]);
        } else {
            assert(views(lines@) =~= mid2);
        }
        assert(views(lines@) =~= views(old(lines)@) + peer_lines(
            peer_name@,
            peer_type@,
            public_key@,
            psk@,
            allowed_ip@,
            match endpoint {
                Some(e) => Some((e.0@, e.1)),
                None => None,
            },
            keepalive,
        ));
    }
}

/// The `[Interface]` lines of a server's configuration.
pub open spec fn server_interface(s: ServerEntry, prefix_len: u8) -> Seq<Seq<char>> {
    seq![
        "[Interface]"@,
        "PrivateKey = "@ + s.private_key@,
        "Address = "@ + s.ip@ + "/"@ + decimal(prefix_len as nat),
        "ListenPort = "@ + decimal(s.listen_port as nat),
    ]
}

/// The `[Interface]` lines of a client's configuration.
pub open spec fn client_interface(c: ClientEntry, prefix_len: u8) -> Seq<Seq<char>> {
    seq![
        "[Interface]"@,
        "PrivateKey = "@ + c.private_key@,
        "Address = "@ + c.ip@ + "/"@ + decimal(prefix_len as nat),
    ]
}

/// Peer sections, in name order, for the servers other than `name`, with the pre-shared
/// keys taken from `psks`.
pub open spec fn server_peers(servers: Seq<(String, ServerEntry)>, name: Seq<char>, psks: Seq<(String, String)>) -> Seq<Seq<char>>
    decreases servers.len(),
{
    if servers.len() == 0 {
        Seq::<Seq<char>>::empty()
    } else {
        let e = servers.last();
        server_peers(servers.drop_last(), name, psks) + if e.0@ == name {
            Seq::<Seq<char>>::empty()
        } else {
            peer_lines(
                e.0@,
                "Server"@,
                e.1.public_key@,
                psk_text(psks, e.0@),
                e.1.ip@,
                Some((e.1.public_ip@, e.1.listen_port)),
                false,
            )
        }
    }
}

/// Peer sections, in name order, for all clients, with the pre-shared keys taken from
/// `psks`.
pub open spec fn client_peers(clients: Seq<(String, ClientEntry)>, psks: Seq<(String, String)>) -> Seq<Seq<char>>
    decreases clients.len(),
{
    if clients.len() == 0 {
        Seq::<Seq<char>>::empty()
    } else {
        let e = clients.last();
        client_peers(clients.drop_last(), psks) + peer_lines(
            e.0@,
            "Client"@,
            e.1.public_key@,
            psk_text(psks, e.0@),
            e.1.ip@,
            None,
            false,
        )
    }
}

/// Peer sections, in name order, for all servers as a client sees them: the pre-shared key
/// each server holds for `name`, the server's endpoint, and a keepalive.
pub open spec fn client_server_peers(servers: Seq<(String, ServerEntry)>, name: Seq<char>) -> Seq<Seq<char>>
    decreases servers.len(),
{
    if servers.len() == 0 {
        Seq::<Seq<char>>::empty()
    } else {
        let e = servers.last();
        client_server_peers(servers.drop_last(), name) + peer_lines(
            e.0@,
            "Server"@,
            e.1.public_key@,
            psk_text(e.1.preshared_keys@, name),
            e.1.ip@,
            Some((e.1.public_ip@, e.1.listen_port)),
            true,
        )
    }
}

/// The configuration text of server `name` with entry `s`: its interface, then one peer
/// per other server, then one peer per client, lines joined by newlines.
pub open spec fn server_config(data: DataFile, name: Seq<char>, s: ServerEntry, prefix_len: u8) -> Seq<char> {
    join(server_config_lines(data, name, s, prefix_len), "\n"@)
}

/// The lines of server `name`'s configuration.
pub open spec fn server_config_lines(data: DataFile, name: Seq<char>, s: ServerEntry, prefix_len: u8) -> Seq<Seq<char>> {
    server_interface(s, prefix_len) + server_peers(data.servers@, name, s.preshared_keys@) + client_peers(
        data.clients@,
        s.preshared_keys@,
    )
}

/// The configuration text of client `name` with entry `c`: its interface, then one peer
/// per server, lines joined by newlines.
pub open spec fn client_config(data: DataFile, name: Seq<char>, c: ClientEntry, prefix_len: u8) -> Seq<char> {
    join(client_config_lines(data, name, c, prefix_len), "\n"@)
}

/// The lines of client `name`'s configuration.
pub open spec fn client_config_lines(data: DataFile, name: Seq<char>, c: ClientEntry, prefix_len: u8) -> Seq<Seq<char>> {
    client_interface(c, prefix_len) + client_server_peers(data.servers@, name)
}

fn address_line(ip: &str, prefix_len: u8) -> (r: String)
    ensures
        r@ == "Address = "@ + ip@ + "/"@ + decimal(prefix_len as nat),
{
    let mut s = line2("Address = ", ip);
    push_str(&mut s, "/");
    push_decimal(&mut s, prefix_len as u64);
    s
}

fn push_line(lines: &mut Vec<String>, line: String)
    ensures
        views(final(lines)@) == views(old(lines)@).push(line@),
{
    lines.push(line);
    proof {
        assert(views(lines@) =~= views(old(lines)@).push(line@));
    }
}

/// Renders the configuration of server `name`, whose entry is `server`.
pub fn render_server_config(data: &DataFile, name: &str, server: &ServerEntry, prefix_len: u8) -> (r: String)
    ensures
        r@ == server_config(*data, name@, *server, prefix_len),
{
    let mut lines: Vec<String> = Vec::new();
    push_line(&mut lines, "[Interface]".to_owned());
    push_line(&mut lines, line2("PrivateKey = ", server.private_key.as_str()));
    push_line(&mut lines, address_line(server.ip.as_str(), prefix_len));
    let mut port = "ListenPort = ".to_owned();
    push_decimal(&mut port, server.listen_port as u64);
    push_line(&mut lines, port);
    let ghost head = server_interface(*server, prefix_len);
    proof {
        assert(views(lines@) =~= head);
        assert(data.servers@.take(0) =~= Seq::<(String, ServerEntry)>::empty());
    }
    let empty = String::new();
    let n = data.servers.len();
    let mut i: usize = 0;
    while i < n
        invariant
            n == data.servers@.len(),
            i <= n,
            empty@ == Seq::<char>::empty(),
            views(lines@) == head + server_peers(data.servers@.take(i as int), name@, server.preshared_keys@),
        decreases n - i,
    {
        let other_name = data.servers.key_at(i);
        let other = data.servers.value_at(i);
        proof {
            assert(data.servers@.take(i + 1).drop_last() =~= data.servers@.take(i as int));
            assert(data.servers@.take(i + 1).last() == data.servers@[i as int]);
        }
        if !str_eq(other_name.as_str(), name) {
            let psk = match server.preshared_keys.get(other_name.as_str()) {
                Some(v) => v.as_str(),
                None => empty.as_str(),
            };
            push_peer_section(
                &mut lines,
                other_name.as_str(),
                "Server",
                other.public_key.as_str(),
                psk,
                other.ip.as_str(),
                Some((other.public_ip.as_str(), other.listen_port)),
                false,
            );
        }
        i = i + 1;
    }
    proof {
        assert(data.servers@.take(n as int) =~= data.servers@);
        assert(data.clients@.take(0) =~= Seq::<(String, ClientEntry)>::empty());
    }
    let ghost mid = views(lines@);
    let m = data.clients.len();
    let mut j: usize = 0;
    while j < m
        invariant
            m == data.clients@.len(),
            j <= m,
            empty@ == Seq::<char>::empty(),
            views(lines@) == mid + client_peers(data.clients@.take(j as int), server.preshared_keys@),
        decreases m - j,
    {
        let client_name = data.clients.key_at(j);
        let client = data.clients.value_at(j);
        proof {
            assert(data.clients@.take(j + 1).drop_last() =~= data.clients@.take(j as int));
            assert(data.clients@.take(j + 1).last() == data.clients@[j as int]);
        }
        let psk = match server.preshared_keys.get(client_name.as_str()) {
            Some(v) => v.as_str(),
            None => empty.as_str(),
        };
        push_peer_section(
            &mut lines,
            client_name.as_str(),
            "Client",
            client.public_key.as_str(),
            psk,
            client.ip.as_str(),
            None,
            false,
        );
        proof {
            assert(views(lines@) =~= mid + client_peers(data.clients@.take(j + 1), server.preshared_keys@));
        }
        j = j + 1;
    }
    proof {
        assert(data.clients@.take(m as int) =~= data.clients@);
        assert(views(lines@) =~= server_interface(*server, prefix_len) + server_peers(data.servers@, name@, server.preshared_keys@)
            + client_peers(data.clients@, server.preshared_keys@));
    }
    join_strings(&lines, "\n")
}

/// Renders the configuration of client `name`, whose entry is `client`.
pub fn render_client_config(data: &DataFile, name: &str, client: &ClientEntry, prefix_len: u8) -> (r: String)
    ensures
        r@ == client_config(*data, name@, *client, prefix_len),
{
    let mut lines: Vec<String> = Vec::new();
    push_line(&mut lines, "[Interface]".to_owned());
    push_line(&mut lines, line2("PrivateKey = ", client.private_key.as_str()));
    push_line(&mut lines, address_line(client.ip.as_str(), prefix_len));
    let ghost head = client_interface(*client, prefix_len);
    proof {
        assert(views(lines@) =~= head);
        assert(data.servers@.take(0) =~= Seq::<(String, ServerEntry)>::empty());
    }
    let empty = String::new();
    let n = data.servers.len();
    let mut i: usize = 0;
    while i < n
        invariant
            n == data.servers@.len(),
            i <= n,
            empty@ == Seq::<char>::empty(),
            views(lines@) == head + client_server_peers(data.servers@.take(i as int), name@),
        decreases n - i,
    {
        let server_name = data.servers.key_at(i);
        let server = data.servers.value_at(i);
        proof {
            assert(data.servers@.take(i + 1).drop_last() =~= data.servers@.take(i as int));
            assert(data.servers@.take(i + 1).last() == data.servers@[i as int]);
        }
        let psk = match server.preshared_keys.get(name) {
            Some(v) => v.as_str(),
            None => empty.as_str(),
        };
        push_peer_section(
            &mut lines,
            server_name.as_str(),
            "Server",
            server.public_key.as_str(),
            psk,
            server.ip.as_str(),
            Some((server.public_ip.as_str(), server.listen_port)),
            true,
        );
        proof {
            assert(views(lines@) =~= head + client_server_peers(data.servers@.take(i + 1), name@));
        }
        i = i + 1;
    }
    proof {
        assert(data.servers@.take(n as int) =~= data.servers@);
    }
    join_strings(&lines, "\n")
}

} // verus!
