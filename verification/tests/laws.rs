use wireguard_manager::manager::types::DeviceInfo;
use wireguard_manager::ipv4::{format_ipv4, parse_ipv4_net, parse_ipv4_text, Ipv4Net};
use wireguard_manager::manager::ops::WireGuardManager;
use wireguard_manager::tui::app::{App, Env, Key, KeyCode};
use wireguard_manager::tui::layout::{FormFocus, Panel};
use wireguard_manager::tui::handlers::edit_input;
use wireguard_manager::tui::input::TextInput;

fn consistent(mgr: &WireGuardManager) -> bool {
    let (servers, clients) = mgr.list_devices().unwrap();
    for i in 0..servers.len() {
        let a = servers.key_at(i);
        let psks = &servers.value_at(i).preshared_keys;
        let mut expected = 0;
        for j in 0..servers.len() {
            let b = servers.key_at(j);
            if a == b {
                continue;
            }
            expected += 1;
            let ab = psks.get(b);
            let ba = servers.value_at(j).preshared_keys.get(a);
            if ab.is_none() || ab != ba {
                return false;
            }
        }
        for j in 0..clients.len() {
            expected += 1;
            if !psks.contains_key(clients.key_at(j)) {
                return false;
            }
        }
        if psks.len() != expected {
            return false;
        }
    }
    true
}

#[test]
fn psks_stay_consistent_through_operations() {
    let mut mgr = WireGuardManager::new("data.json", None);
    mgr.init_network("10.0.0.0/24", 1, 10, false, false, "b").unwrap().unwrap();
    assert!(consistent(&mgr));
    mgr.add_server("s1", "1.1.1.1", 1).unwrap();
    mgr.add_client("c1").unwrap();
    mgr.add_server("s2", "2.2.2.2", 2).unwrap();
    mgr.add_client("c2").unwrap();
    mgr.add_server("s3", "3.3.3.3", 3).unwrap();
    assert!(consistent(&mgr));
    mgr.edit_client("c1", Some("c9")).unwrap();
    assert!(consistent(&mgr));
    mgr.delete_server("s2").unwrap();
    assert!(consistent(&mgr));
    mgr.delete_client("c2").unwrap();
    mgr.edit_server("s1", Some("9.9.9.9"), Some(9)).unwrap();
    assert!(consistent(&mgr));
}

#[test]
fn allocation_takes_lowest_free_address() {
    let mut mgr = WireGuardManager::new("data.json", None);
    mgr.init_network("192.168.4.0/28", 2, 4, false, false, "b").unwrap().unwrap();
    for (name, ip) in [("a", "192.168.4.2"), ("b", "192.168.4.3"), ("c", "192.168.4.4")] {
        let r = mgr.add_server(name, "1.1.1.1", 1).unwrap();
        assert_eq!(r.success_text().unwrap(), format!("Server '{name}' added, IP: {ip}"));
    }
    mgr.delete_server("a").unwrap();
    let r = mgr.add_server("d", "1.1.1.1", 1).unwrap();
    assert_eq!(r.success_text().unwrap(), "Server 'd' added, IP: 192.168.4.2");
    let err = mgr.add_server("e", "1.1.1.1", 1).unwrap_err();
    assert_eq!(err.message(), "Server IP exhausted (max 3)");
    let r = mgr.add_client("x").unwrap();
    assert_eq!(r.success_text().unwrap(), "Client 'x' added, IP: 192.168.4.5");
}

#[test]
fn init_then_show_reports_initialized_ranges() {
    let mut mgr = WireGuardManager::new("data.json", None);
    mgr.init_network("172.16.0.0/16", 5, 100, false, false, "b").unwrap().unwrap();
    let info = mgr.show_network_config().unwrap();
    assert_eq!(info.server_range_offsets, (5, 100));
    assert_eq!(info.client_start_offset, 101);
    assert_eq!(info.max_host_offset, 65534);
    assert_eq!(info.server_capacity, 96);
    assert_eq!(info.client_capacity, 65434);
}

#[test]
fn insert_then_backspace_is_identity() {
    let mut input = TextInput::with_value("abc");
    input.move_left();
    edit_input(&mut input, Key { code: KeyCode::Char('Z'), ctrl: false });
    assert_eq!(input.value(), "abZc");
    edit_input(&mut input, Key { code: KeyCode::Backspace, ctrl: false });
    assert_eq!(input.value(), "abc");
    assert_eq!(input.cursor(), 2);
}

#[test]
fn names_are_kept_in_order() {
    let mut mgr = WireGuardManager::new("data.json", None);
    mgr.init_network("10.0.0.0/24", 1, 10, false, false, "b").unwrap().unwrap();
    for n in ["zeta", "alpha", "Mid", "beta"] {
        mgr.add_client(n).unwrap();
    }
    let (_, clients) = mgr.list_devices().unwrap();
    let names: Vec<&str> = (0..clients.len()).map(|i| clients.key_at(i).as_str()).collect();
    assert_eq!(names, vec!["Mid", "alpha", "beta", "zeta"]);
}

fn ips_distinct(mgr: &WireGuardManager) -> bool {
    let (servers, clients) = mgr.list_devices().unwrap();
    for i in 0..servers.len() {
        for j in 0..servers.len() {
            if i != j && servers.value_at(i).ip == servers.value_at(j).ip {
                return false;
            }
        }
    }
    for i in 0..clients.len() {
        for j in 0..clients.len() {
            if i != j && clients.value_at(i).ip == clients.value_at(j).ip {
                return false;
            }
        }
    }
    true
}

#[test]
fn addresses_stay_distinct_through_additions() {
    let mut mgr = WireGuardManager::new("data.json", None);
    mgr.init_network("10.1.0.0/24", 1, 5, false, false, "b").unwrap().unwrap();
    mgr.add_server("s1", "1.1.1.1", 1).unwrap();
    mgr.add_server("s2", "1.1.1.2", 1).unwrap();
    mgr.add_client("c1").unwrap();
    mgr.add_client("c2").unwrap();
    mgr.delete_server("s1").unwrap();
    mgr.delete_client("c1").unwrap();
    mgr.add_server("s3", "1.1.1.3", 1).unwrap();
    mgr.add_client("c3").unwrap();
    mgr.add_client("c4").unwrap();
    assert!(ips_distinct(&mgr));
}

#[test]
fn address_text_reads_back() {
    for a in [0u32, 1, 255, 256, 0x0A00_0001, 0xC0A8_0101, 0x7F00_0001, u32::MAX] {
        let text = format_ipv4(a);
        assert_eq!(parse_ipv4_text(&text), Some(a));
    }
    assert_eq!(format_ipv4(0xC0A8_0A01), "192.168.10.1");
}

#[test]
fn network_text_reads_back() {
    for (addr, prefix_len) in [(0u32, 0u8), (0x0A00_0000, 8), (0xC0A8_0100, 24), (u32::MAX, 32), (0x0A0A_0A00, 30)] {
        let n = Ipv4Net { addr, prefix_len };
        let text = n.to_text();
        assert_eq!(parse_ipv4_net(&text), Some(n));
    }
    assert_eq!(Ipv4Net { addr: 0x0A00_0000, prefix_len: 24 }.to_text(), "10.0.0.0/24");
    assert_eq!(parse_ipv4_net("010.000.000.001/08"), Some(Ipv4Net { addr: 0x0A00_0001, prefix_len: 8 }));
    assert_eq!(parse_ipv4_net("10.0.0.0/33"), None);
    assert_eq!(parse_ipv4_net("10.0.0.0/024"), None);
    assert_eq!(parse_ipv4_net("10.0.0.256/24"), None);
    assert_eq!(parse_ipv4_net("10.0.0/24"), None);
    assert_eq!(parse_ipv4_net("10.0.0.0"), None);
    assert_eq!(parse_ipv4_net(" 10.0.0.0/24"), None);
}


#[test]
fn shift_tab_undoes_tab_in_forms() {
    let env = Env { data_file_exists: false, backup_path: "b".to_string() };
    let mut mgr = WireGuardManager::new("data.json", None);
    mgr.init_network("10.0.0.0/24", 1, 10, false, false, "b").unwrap().unwrap();
    let mut app = App::new(mgr);
    app.open_add_server_form();
    let tab = Key { code: KeyCode::Tab, ctrl: false };
    let back = Key { code: KeyCode::BackTab, ctrl: false };
    for focus in [FormFocus::Field(0), FormFocus::Field(1), FormFocus::Field(2), FormFocus::Submit, FormFocus::Cancel] {
        app.form_focus = focus;
        app.handle_key(tab, &env);
        app.handle_key(back, &env);
        assert_eq!(app.form_focus, focus);
        app.handle_key(back, &env);
        app.handle_key(tab, &env);
        assert_eq!(app.form_focus, focus);
    }
}

#[test]
fn accepted_range_update_holds_every_device() {
    let mut mgr = WireGuardManager::new("data.json", None);
    mgr.init_network("10.0.0.0/24", 1, 10, false, false, "b").unwrap().unwrap();
    mgr.add_server("s1", "1.1.1.1", 1).unwrap();
    mgr.add_client("c1").unwrap();
    assert!(mgr.update_network_config(None, Some(2), Some(20), "b").unwrap().is_err());
    mgr.update_network_config(None, Some(1), Some(5), "b").unwrap().unwrap();
    let (servers, clients) = mgr.list_devices().unwrap();
    let server_ip = parse_ipv4_text(&servers.value_at(0).ip).unwrap();
    let client_ip = parse_ipv4_text(&clients.value_at(0).ip).unwrap();
    let net = 0x0A00_0000u32;
    assert!(net + 1 <= server_ip && server_ip <= net + 5);
    assert!(client_ip >= net + 6);
}

fn snapshot(mgr: &WireGuardManager) -> Vec<String> {
    let (servers, clients) = mgr.list_devices().unwrap();
    let mut out = Vec::new();
    for i in 0..servers.len() {
        let s = servers.value_at(i);
        out.push(format!("server {} {} {} {} {}", s.name, s.ip, s.public_ip, s.listen_port, s.public_key));
        for j in 0..s.preshared_keys.len() {
            out.push(format!("  psk {} {}", s.preshared_keys.key_at(j), s.preshared_keys.value_at(j)));
        }
    }
    for i in 0..clients.len() {
        let c = clients.value_at(i);
        out.push(format!("client {} {} {}", c.name, c.ip, c.public_key));
    }
    out
}

#[test]
fn delete_undoes_add() {
    let mut mgr = WireGuardManager::new("data.json", None);
    mgr.init_network("10.0.0.0/24", 1, 10, false, false, "b").unwrap().unwrap();
    mgr.add_server("s1", "1.1.1.1", 1).unwrap();
    mgr.add_client("c1").unwrap();
    let before = snapshot(&mgr);
    mgr.add_client("c2").unwrap();
    mgr.delete_client("c2").unwrap();
    assert_eq!(snapshot(&mgr), before);
    mgr.add_server("s2", "2.2.2.2", 2).unwrap();
    mgr.delete_server("s2").unwrap();
    assert_eq!(snapshot(&mgr), before);
}

#[test]
fn show_reads_back_an_addition() {
    let mut mgr = WireGuardManager::new("data.json", None);
    mgr.init_network("10.0.0.0/24", 1, 10, false, false, "b").unwrap().unwrap();
    mgr.add_server("s1", "1.1.1.1", 4242).unwrap();
    mgr.add_client("c1").unwrap();
    match mgr.show_device("s1").unwrap() {
        DeviceInfo::Server { name, ip, public_ip, listen_port, .. } => {
            assert_eq!((name.as_str(), ip.as_str(), public_ip.as_str(), listen_port), ("s1", "10.0.0.1", "1.1.1.1", 4242));
        },
        DeviceInfo::Client { .. } => panic!("expected a server"),
    }
    match mgr.show_device("c1").unwrap() {
        DeviceInfo::Client { name, ip, .. } => assert_eq!((name.as_str(), ip.as_str()), ("c1", "10.0.0.11")),
        DeviceInfo::Server { .. } => panic!("expected a client"),
    }
}

#[test]
fn list_keys_keep_the_selection_in_the_list() {
    let env = Env { data_file_exists: false, backup_path: "b".to_string() };
    let mut mgr = WireGuardManager::new("data.json", None);
    mgr.init_network("10.0.0.0/24", 1, 10, false, false, "b").unwrap().unwrap();
    mgr.add_server("s1", "1.1.1.1", 1).unwrap();
    mgr.add_client("c1").unwrap();
    mgr.add_client("c2").unwrap();
    let mut app = App::new(mgr);
    app.panel = Panel::DeviceList;
    let codes = [
        KeyCode::Down, KeyCode::Down, KeyCode::Down, KeyCode::Down, KeyCode::End, KeyCode::Down, KeyCode::Up,
        KeyCode::Home, KeyCode::Up, KeyCode::Char('j'), KeyCode::Char('k'), KeyCode::PageDown,
    ];
    for code in codes {
        app.handle_key(Key { code, ctrl: false }, &env);
        assert!(app.device_index < app.device_count());
    }
}
