use wireguard_manager::cli::{
    config_path, config_report, device_list_report, device_report, generated_line, message_line, network_report,
    range_error,
};
use wireguard_manager::manager::ops::WireGuardManager;
use wireguard_manager::manager::types::{DeviceInfo, Message, MessageKind, OperationResult};

fn devices_manager() -> WireGuardManager {
    let mut mgr = WireGuardManager::new("data.json", None);
    mgr.init_network("10.0.0.0/24", 1, 10, false, false, "b").unwrap().unwrap();
    mgr.add_server("srv1", "1.2.3.4", 51820).unwrap();
    mgr.add_client("client1").unwrap();
    mgr
}

#[test]
fn message_lines_by_kind() {
    let m = |kind, text: &str| Message { kind, text: text.to_string() };
    assert_eq!(message_line(&m(MessageKind::Success, "ok")), (false, "ok".to_string()));
    assert_eq!(message_line(&m(MessageKind::Warning, "careful")), (false, "careful".to_string()));
    assert_eq!(message_line(&m(MessageKind::Info, "info line")), (false, "  info line".to_string()));
    assert_eq!(message_line(&m(MessageKind::Error, "bad")), (true, "Error: bad".to_string()));
}

#[test]
fn range_error_text() {
    assert_eq!(
        range_error("bad_range", "[1,10]"),
        "Invalid server range 'bad_range'. Expected format: [START,END] (e.g., [1,10])"
    );
}

#[test]
fn network_report_lines() {
    let mgr = devices_manager();
    let info = mgr.show_network_config().unwrap();
    assert_eq!(
        network_report(&info),
        vec![
            "\n=== Network Configuration ===",
            "  Subnet: 10.0.0.0/24",
            "  Server IP range: 10.0.0.1 - 10.0.0.10 (offset 1-10)",
            "  Client IP range: 10.0.0.11 - 10.0.0.254 (offset 11-254)",
            "\n=== Usage Statistics ===",
            "  Servers: 1/10 (9 available)",
            "  Clients: 1/244 (243 available)",
            "",
        ]
    );
}

#[test]
fn device_list_report_lines() {
    let mgr = devices_manager();
    let (servers, clients) = mgr.list_devices().unwrap();
    assert_eq!(
        device_list_report(servers, clients),
        vec![
            "\n=== Servers ===",
            "  srv1: 10.0.0.1 (Public: 1.2.3.4:51820)",
            "\n=== Clients ===",
            "  client1: 10.0.0.11",
            "",
        ]
    );
}

#[test]
fn device_list_report_empty() {
    let mut mgr = WireGuardManager::new("data.json", None);
    mgr.init_network("10.0.0.0/24", 1, 10, false, false, "b").unwrap().unwrap();
    let (servers, clients) = mgr.list_devices().unwrap();
    assert_eq!(
        device_list_report(servers, clients),
        vec!["\n=== Servers ===", "  (none)", "\n=== Clients ===", "  (none)", ""]
    );
}

#[test]
fn device_report_lines() {
    let info = DeviceInfo::Client {
        name: "c1".to_string(),
        ip: "10.0.0.11".to_string(),
        private_key: "PRIV".to_string(),
        public_key: "PUB".to_string(),
    };
    assert_eq!(
        device_report(&info),
        vec!["\n=== Client: c1 ===", "  Internal IP: 10.0.0.11", "  Private Key: PRIV", "  Public Key: PUB", ""]
    );
    let info = DeviceInfo::Server {
        name: "s1".to_string(),
        ip: "10.0.0.1".to_string(),
        public_ip: "1.2.3.4".to_string(),
        listen_port: 51820,
        private_key: "PRIV".to_string(),
        public_key: "PUB".to_string(),
        preshared_keys_count: 3,
    };
    assert_eq!(
        device_report(&info),
        vec![
            "\n=== Server: s1 ===",
            "  Internal IP: 10.0.0.1",
            "  Public IP: 1.2.3.4",
            "  Port: 51820",
            "  Private Key: PRIV",
            "  Public Key: PUB",
            "  Preshared Keys Count: 3",
            "",
        ]
    );
}

#[test]
fn gen_lines() {
    assert_eq!(config_report("srv1", "[Interface]"), vec!["\n=== srv1 Config ===", "[Interface]", ""]);
    assert_eq!(generated_line(4, "output"), "Generated 4 config files to: output");
    assert_eq!(config_path("output", "c1"), "output/c1.conf");
}

fn printed(result: &OperationResult) -> Vec<(bool, String)> {
    result.messages.iter().map(message_line).collect()
}

#[test]
fn print_messages_does_not_panic_on_success() {
    let result = OperationResult {
        messages: vec![Message { kind: MessageKind::Success, text: "ok".to_string() }],
        backup_path: None,
        save_needed: true,
    };
    assert_eq!(printed(&result), vec![(false, "ok".to_string())]);
}

#[test]
fn print_messages_does_not_panic_on_info_and_warning() {
    let result = OperationResult {
        messages: vec![
            Message { kind: MessageKind::Info, text: "info line".to_string() },
            Message { kind: MessageKind::Warning, text: "warning line".to_string() },
        ],
        backup_path: None,
        save_needed: true,
    };
    assert_eq!(printed(&result), vec![(false, "  info line".to_string()), (false, "warning line".to_string())]);
}

#[test]
fn print_messages_handles_empty_messages() {
    let result = OperationResult { messages: vec![], backup_path: None, save_needed: false };
    assert!(printed(&result).is_empty());
}
