use wireguard_manager::manager::errors::ManagerError;
use wireguard_manager::manager::ops::WireGuardManager;
use wireguard_manager::manager::types::{DeviceInfo, MessageKind, OperationResult};

const TEST_SUBNET: &str = "10.0.0.0/24";

fn ip(a: u32, b: u32, c: u32, d: u32) -> u32 {
    (a << 24) | (b << 16) | (c << 8) | d
}

fn empty_manager() -> WireGuardManager {
    WireGuardManager::new("data/data.json", None)
}

fn init(mgr: &mut WireGuardManager, subnet: &str, start: u32, end: u32) -> Result<OperationResult, ManagerError> {
    mgr.init_network(subnet, start, end, false, false, "data/backup.json.bak").unwrap()
}

fn initialized_manager() -> WireGuardManager {
    let mut mgr = empty_manager();
    init(&mut mgr, TEST_SUBNET, 1, 10).expect("init");
    mgr
}

fn manager_with_devices() -> WireGuardManager {
    let mut mgr = initialized_manager();
    mgr.add_server("srv1", "1.2.3.4", 51820).expect("add server");
    mgr.add_client("client1").expect("add client");
    mgr
}

fn update(
    mgr: &mut WireGuardManager,
    subnet: Option<&str>,
    start: Option<u32>,
    end: Option<u32>,
) -> Result<OperationResult, ManagerError> {
    mgr.update_network_config(subnet, start, end, "data/backup.json.bak").unwrap()
}

#[test]
fn test_new_without_data_file() {
    let mgr = empty_manager();
    assert!(mgr.list_devices().is_err());
}

#[test]
fn test_ensure_loaded_fails_when_uninitialized() {
    let mgr = empty_manager();
    let err = mgr.list_devices().unwrap_err();
    assert!(err.message().contains("No configuration found"));
}

#[test]
fn test_init_network_basic() {
    let mut mgr = empty_manager();
    let result = init(&mut mgr, "10.0.0.0/24", 1, 10).unwrap();
    assert!(result.messages.iter().any(|m| m.text.contains("Network initialized successfully")));
    assert!(result.save_needed);
}

#[test]
fn test_init_network_data_file_contents() {
    let mgr = initialized_manager();
    let (servers, clients) = mgr.list_devices().unwrap();
    assert!(servers.is_empty());
    assert!(clients.is_empty());
    let info = mgr.show_network_config().unwrap();
    assert_eq!(info.subnet, "10.0.0.0/24");
    assert_eq!(info.server_range_offsets, (1, 10));
    assert_eq!(info.client_start_offset, 11);
}

#[test]
fn test_init_network_refuses_without_force() {
    let mut mgr = initialized_manager();
    let err = mgr.init_network("10.0.0.0/24", 1, 10, false, true, "b").unwrap().unwrap_err();
    assert!(err.message().contains("already exists"));
}

#[test]
fn test_init_network_force_reinitializes() {
    let mut mgr = initialized_manager();
    mgr.add_server("srv1", "1.2.3.4", 51820).unwrap();
    let result = mgr.init_network("10.0.0.0/24", 1, 10, true, true, "data/data-1.json.bak").unwrap().unwrap();
    assert_eq!(result.backup_path.as_deref(), Some("data/data-1.json.bak"));
    assert_eq!(result.messages[0].kind, MessageKind::Warning);
    assert_eq!(result.messages[0].text, "Old data backed up to: data/data-1.json.bak");
    let (servers, clients) = mgr.list_devices().unwrap();
    assert!(servers.is_empty());
    assert!(clients.is_empty());
}

#[test]
fn test_init_network_invalid_subnet() {
    let mut mgr = empty_manager();
    let err = init(&mut mgr, "not-a-subnet", 1, 10).unwrap_err();
    assert!(err.message().contains("Invalid subnet"));
}

#[test]
fn test_init_network_server_start_zero() {
    let mut mgr = empty_manager();
    let err = init(&mut mgr, "10.0.0.0/24", 0, 10).unwrap_err();
    assert!(err.message().contains("must be >= 1"));
}

#[test]
fn test_init_network_server_end_exceeds_max() {
    let mut mgr = empty_manager();
    let err = init(&mut mgr, "10.0.0.0/24", 1, 300).unwrap_err();
    assert!(err.message().contains("must be <="));
}

#[test]
fn test_init_network_start_greater_than_end() {
    let mut mgr = empty_manager();
    let err = init(&mut mgr, "10.0.0.0/24", 10, 5).unwrap_err();
    assert!(err.message().contains("must be <="));
}

#[test]
fn init_network_truncates_subnet_and_reports_ranges() {
    let mut mgr = empty_manager();
    let result = init(&mut mgr, "10.0.0.77/24", 1, 10).unwrap();
    let texts: Vec<&str> = result.messages.iter().map(|m| m.text.as_str()).collect();
    assert_eq!(
        texts,
        vec![
            "Network initialized successfully!",
            "Subnet: 10.0.0.0/24",
            "Server IP range: 10.0.0.1 - 10.0.0.10",
            "Client IP range: 10.0.0.11 - 10.0.0.254",
        ]
    );
    assert_eq!(result.success_text(), Some("Network initialized successfully!"));
    assert!(result.backup_path.is_none());
}

#[test]
fn init_network_with_prefix_zero_is_refused_as_undefined() {
    let mut mgr = empty_manager();
    assert!(mgr.init_network("0.0.0.0/0", 1, 10, false, false, "b").is_none());
    assert!(mgr.list_devices().is_err());
}

#[test]
fn test_show_network_config_basic() {
    let mgr = initialized_manager();
    let info = mgr.show_network_config().unwrap();
    assert_eq!(info.subnet, "10.0.0.0/24");
    assert_eq!(info.server_start_ip, ip(10, 0, 0, 1));
    assert_eq!(info.server_end_ip, ip(10, 0, 0, 10));
    assert_eq!(info.client_start_ip, ip(10, 0, 0, 11));
    assert_eq!(info.client_end_ip, ip(10, 0, 0, 254));
    assert_eq!(info.server_count, 0);
    assert_eq!(info.client_count, 0);
    assert_eq!(info.server_capacity, 10);
    assert_eq!(info.client_capacity, 244);
}

#[test]
fn test_show_network_config_with_devices() {
    let mut mgr = initialized_manager();
    mgr.add_server("s1", "1.1.1.1", 51820).unwrap();
    mgr.add_server("s2", "2.2.2.2", 51820).unwrap();
    mgr.add_client("c1").unwrap();
    mgr.add_client("c2").unwrap();
    mgr.add_client("c3").unwrap();
    let info = mgr.show_network_config().unwrap();
    assert_eq!(info.server_count, 2);
    assert_eq!(info.client_count, 3);
}

#[test]
fn test_show_network_config_uninitialized() {
    let mgr = empty_manager();
    assert!(mgr.show_network_config().is_err());
}

#[test]
fn test_update_network_config_change_server_range() {
    let mut mgr = initialized_manager();
    update(&mut mgr, None, Some(1), Some(20)).unwrap();
    let info = mgr.show_network_config().unwrap();
    assert_eq!(info.server_end_ip, ip(10, 0, 0, 20));
    assert_eq!(info.client_start_offset, 21);
}

#[test]
fn test_update_network_config_change_subnet_empty_network() {
    let mut mgr = initialized_manager();
    update(&mut mgr, Some("192.168.0.0/24"), None, None).unwrap();
    let info = mgr.show_network_config().unwrap();
    assert_eq!(info.subnet, "192.168.0.0/24");
}

#[test]
fn test_update_network_config_change_subnet_with_devices() {
    let mut mgr = manager_with_devices();
    let err = update(&mut mgr, Some("192.168.0.0/24"), None, None).unwrap_err();
    assert!(err.message().contains("Cannot change subnet"));
}

#[test]
fn test_update_network_config_no_changes() {
    let mut mgr = initialized_manager();
    let err = update(&mut mgr, None, None, None).unwrap_err();
    assert!(err.message().contains("No changes specified"));
}

#[test]
fn test_update_network_config_range_excludes_server() {
    let mut mgr = initialized_manager();
    mgr.add_server("srv1", "1.2.3.4", 51820).unwrap();
    let err = update(&mut mgr, None, Some(5), Some(10)).unwrap_err();
    assert!(err.message().contains("out of range"));
    assert_eq!(
        err.message(),
        "Cannot change server range: the following servers would be out of range:\n  srv1 (10.0.0.1)\nPlease delete these servers first or choose a range that includes them."
    );
}

#[test]
fn test_update_network_config_range_conflicts_with_client() {
    let mut mgr = initialized_manager();
    mgr.add_client("c1").unwrap();
    let err = update(&mut mgr, None, Some(1), Some(15)).unwrap_err();
    assert!(err.message().contains("conflict"));
    assert!(err.message().contains("c1 (10.0.0.11)"));
}

#[test]
fn test_update_network_config_creates_backup() {
    let mut mgr = initialized_manager();
    let result = mgr.update_network_config(None, Some(1), Some(20), "data/data-2.json.bak").unwrap().unwrap();
    assert_eq!(result.backup_path.as_deref(), Some("data/data-2.json.bak"));
    let texts: Vec<&str> = result.messages.iter().map(|m| m.text.as_str()).collect();
    assert_eq!(
        texts,
        vec![
            "Server IP range updated: offset 1-10 -> 1-20",
            "Client IP start updated to offset: 21",
            "Old data backed up to: data/data-2.json.bak",
            "Configuration updated successfully!",
        ]
    );
}

#[test]
fn test_update_network_config_uninitialized() {
    let mut mgr = empty_manager();
    assert!(update(&mut mgr, None, Some(1), Some(20)).is_err());
}

#[test]
fn update_keeps_subnet_change_when_range_is_refused() {
    let mut mgr = initialized_manager();
    let err = update(&mut mgr, Some("192.168.1.0/24"), Some(0), None).unwrap_err();
    assert!(matches!(err, ManagerError::ServerStartTooSmall { start: 0 }));
    assert_eq!(mgr.show_network_config().unwrap().subnet, "192.168.1.0/24");
}

#[test]
fn update_to_prefix_32_then_range_is_undefined() {
    let mut mgr = initialized_manager();
    update(&mut mgr, Some("10.0.0.1/32"), None, None).unwrap();
    assert!(!mgr.can_show_network_config());
    assert!(mgr.update_network_config(None, Some(1), Some(2), "b").is_none());
}

#[test]
fn test_add_server_basic() {
    let mut mgr = initialized_manager();
    let result = mgr.add_server("srv1", "1.2.3.4", 51820).unwrap();
    assert!(result.success_text().unwrap().contains("10.0.0.1"));
    let (servers, _) = mgr.list_devices().unwrap();
    assert_eq!(servers.len(), 1);
    let srv = servers.get("srv1").unwrap();
    assert_eq!(srv.name, "srv1");
    assert_eq!(srv.ip, "10.0.0.1");
    assert_eq!(srv.public_ip, "1.2.3.4");
    assert_eq!(srv.listen_port, 51820);
}

#[test]
fn test_add_server_sequential_ip_allocation() {
    let mut mgr = initialized_manager();
    assert!(mgr.add_server("s1", "1.1.1.1", 51820).unwrap().success_text().unwrap().contains("10.0.0.1"));
    assert!(mgr.add_server("s2", "2.2.2.2", 51820).unwrap().success_text().unwrap().contains("10.0.0.2"));
    assert!(mgr.add_server("s3", "3.3.3.3", 51820).unwrap().success_text().unwrap().contains("10.0.0.3"));
}

#[test]
fn test_add_server_duplicate_name() {
    let mut mgr = initialized_manager();
    mgr.add_server("srv1", "1.2.3.4", 51820).unwrap();
    let err = mgr.add_server("srv1", "5.6.7.8", 51821).unwrap_err();
    assert!(err.message().contains("already exists"));
}

#[test]
fn test_add_server_name_conflicts_with_client() {
    let mut mgr = initialized_manager();
    mgr.add_client("device1").unwrap();
    let err = mgr.add_server("device1", "1.2.3.4", 51820).unwrap_err();
    assert!(err.message().contains("already exists"));
}

#[test]
fn test_add_server_ip_exhaustion() {
    let mut mgr = empty_manager();
    init(&mut mgr, "10.0.0.0/24", 1, 2).unwrap();
    mgr.add_server("s1", "1.1.1.1", 51820).unwrap();
    mgr.add_server("s2", "2.2.2.2", 51820).unwrap();
    let err = mgr.add_server("s3", "3.3.3.3", 51820).unwrap_err();
    assert!(err.message().contains("Server IP exhausted"));
    assert_eq!(err.message(), "Server IP exhausted (max 2)");
}

#[test]
fn test_add_server_generates_psk_with_existing_devices() {
    let mut mgr = initialized_manager();
    mgr.add_server("srv1", "1.2.3.4", 51820).unwrap();
    mgr.add_client("c1").unwrap();
    mgr.add_server("srv2", "5.6.7.8", 51821).unwrap();
    let (servers, _) = mgr.list_devices().unwrap();
    let srv1 = servers.get("srv1").unwrap();
    let srv2 = servers.get("srv2").unwrap();
    assert!(srv2.preshared_keys.contains_key("srv1"));
    assert!(srv2.preshared_keys.contains_key("c1"));
    assert!(srv1.preshared_keys.contains_key("srv2"));
    assert_eq!(srv1.preshared_keys.get("srv2"), srv2.preshared_keys.get("srv1"));
}

#[test]
fn test_add_client_basic() {
    let mut mgr = initialized_manager();
    let result = mgr.add_client("c1").unwrap();
    assert!(result.success_text().unwrap().contains("10.0.0.11"));
    let (_, clients) = mgr.list_devices().unwrap();
    assert_eq!(clients.len(), 1);
    assert_eq!(clients.get("c1").unwrap().name, "c1");
}

#[test]
fn test_add_client_sequential_ip_allocation() {
    let mut mgr = initialized_manager();
    assert!(mgr.add_client("c1").unwrap().success_text().unwrap().contains("10.0.0.11"));
    assert!(mgr.add_client("c2").unwrap().success_text().unwrap().contains("10.0.0.12"));
    assert!(mgr.add_client("c3").unwrap().success_text().unwrap().contains("10.0.0.13"));
}

#[test]
fn test_add_client_duplicate_name() {
    let mut mgr = initialized_manager();
    mgr.add_client("c1").unwrap();
    let err = mgr.add_client("c1").unwrap_err();
    assert!(err.message().contains("already exists"));
}

#[test]
fn test_add_client_ip_exhaustion() {
    let mut mgr = empty_manager();
    init(&mut mgr, "10.0.0.0/30", 1, 1).unwrap();
    mgr.add_client("c1").unwrap();
    let err = mgr.add_client("c2").unwrap_err();
    assert!(err.message().contains("Client IP exhausted"));
}

#[test]
fn test_add_client_creates_psk_on_existing_servers() {
    let mut mgr = initialized_manager();
    mgr.add_server("srv1", "1.2.3.4", 51820).unwrap();
    mgr.add_client("c1").unwrap();
    let (servers, _) = mgr.list_devices().unwrap();
    assert!(servers.get("srv1").unwrap().preshared_keys.contains_key("c1"));
}

#[test]
fn test_edit_server_change_public_ip() {
    let mut mgr = manager_with_devices();
    let result = mgr.edit_server("srv1", Some("9.8.7.6"), None).unwrap();
    assert!(result.success_text().unwrap().contains("updated"));
    if let DeviceInfo::Server { public_ip, .. } = mgr.show_device("srv1").unwrap() {
        assert_eq!(public_ip, "9.8.7.6");
    } else {
        panic!("Expected Server variant");
    }
}

#[test]
fn test_edit_server_change_port() {
    let mut mgr = manager_with_devices();
    let result = mgr.edit_server("srv1", None, Some(12345)).unwrap();
    assert!(result.success_text().unwrap().contains("updated"));
    if let DeviceInfo::Server { listen_port, .. } = mgr.show_device("srv1").unwrap() {
        assert_eq!(listen_port, 12345);
    } else {
        panic!("Expected Server variant");
    }
}

#[test]
fn test_edit_server_change_both() {
    let mut mgr = manager_with_devices();
    let result = mgr.edit_server("srv1", Some("9.8.7.6"), Some(12345)).unwrap();
    assert!(result.success_text().unwrap().contains("updated"));
    if let DeviceInfo::Server { public_ip, listen_port, .. } = mgr.show_device("srv1").unwrap() {
        assert_eq!(public_ip, "9.8.7.6");
        assert_eq!(listen_port, 12345);
    } else {
        panic!("Expected Server variant");
    }
}

#[test]
fn test_edit_server_no_changes() {
    let mut mgr = manager_with_devices();
    let result = mgr.edit_server("srv1", None, None).unwrap();
    assert!(result.success_text().unwrap().contains("No changes"));
    assert!(!result.save_needed);
}

#[test]
fn test_edit_server_not_found() {
    let mut mgr = initialized_manager();
    assert!(mgr.edit_server("nonexistent", Some("1.1.1.1"), None).is_err());
}

#[test]
fn test_edit_client_rename() {
    let mut mgr = manager_with_devices();
    let result = mgr.edit_client("client1", Some("client2")).unwrap();
    assert!(result.success_text().unwrap().contains("renamed"));
    let (_, clients) = mgr.list_devices().unwrap();
    assert!(!clients.contains_key("client1"));
    assert!(clients.contains_key("client2"));
    assert_eq!(clients.get("client2").unwrap().ip, "10.0.0.11");
}

#[test]
fn test_edit_client_rename_updates_psk_keys() {
    let mut mgr = manager_with_devices();
    let original_psk = {
        let (servers, _) = mgr.list_devices().unwrap();
        servers.get("srv1").unwrap().preshared_keys.get("client1").unwrap().clone()
    };
    mgr.edit_client("client1", Some("client2")).unwrap();
    let (servers, _) = mgr.list_devices().unwrap();
    let psks = &servers.get("srv1").unwrap().preshared_keys;
    assert!(!psks.contains_key("client1"));
    assert!(psks.contains_key("client2"));
    assert_eq!(psks.get("client2").unwrap(), &original_psk);
}

#[test]
fn test_edit_client_rename_to_existing_name() {
    let mut mgr = initialized_manager();
    mgr.add_client("c1").unwrap();
    mgr.add_client("c2").unwrap();
    let err = mgr.edit_client("c1", Some("c2")).unwrap_err();
    assert!(err.message().contains("already exists"));
}

#[test]
fn test_edit_client_no_changes() {
    let mut mgr = manager_with_devices();
    let result = mgr.edit_client("client1", None).unwrap();
    assert!(result.success_text().unwrap().contains("No changes"));
}

#[test]
fn test_edit_client_not_found() {
    let mut mgr = initialized_manager();
    assert!(mgr.edit_client("nonexistent", Some("x")).is_err());
}

#[test]
fn test_delete_server_basic() {
    let mut mgr = manager_with_devices();
    mgr.delete_server("srv1").unwrap();
    let (servers, _) = mgr.list_devices().unwrap();
    assert!(servers.is_empty());
}

#[test]
fn test_delete_server_removes_psk_from_other_servers() {
    let mut mgr = initialized_manager();
    mgr.add_server("srv1", "1.2.3.4", 51820).unwrap();
    mgr.add_server("srv2", "5.6.7.8", 51821).unwrap();
    {
        let (servers, _) = mgr.list_devices().unwrap();
        assert!(servers.get("srv1").unwrap().preshared_keys.contains_key("srv2"));
    }
    mgr.delete_server("srv2").unwrap();
    let (servers, _) = mgr.list_devices().unwrap();
    assert!(!servers.get("srv1").unwrap().preshared_keys.contains_key("srv2"));
}

#[test]
fn test_delete_server_not_found() {
    let mut mgr = initialized_manager();
    assert!(mgr.delete_server("nonexistent").is_err());
}

#[test]
fn test_delete_server_ip_reuse() {
    let mut mgr = initialized_manager();
    let result = mgr.add_server("srv1", "1.2.3.4", 51820).unwrap();
    assert!(result.success_text().unwrap().contains("10.0.0.1"));
    mgr.delete_server("srv1").unwrap();
    let result = mgr.add_server("srv2", "5.6.7.8", 51821).unwrap();
    assert!(result.success_text().unwrap().contains("10.0.0.1"));
}

#[test]
fn test_delete_client_basic() {
    let mut mgr = manager_with_devices();
    mgr.delete_client("client1").unwrap();
    let (_, clients) = mgr.list_devices().unwrap();
    assert!(clients.is_empty());
}

#[test]
fn test_delete_client_removes_psk_from_servers() {
    let mut mgr = manager_with_devices();
    {
        let (servers, _) = mgr.list_devices().unwrap();
        assert!(servers.get("srv1").unwrap().preshared_keys.contains_key("client1"));
    }
    mgr.delete_client("client1").unwrap();
    let (servers, _) = mgr.list_devices().unwrap();
    assert!(!servers.get("srv1").unwrap().preshared_keys.contains_key("client1"));
}

#[test]
fn test_delete_client_not_found() {
    let mut mgr = initialized_manager();
    assert!(mgr.delete_client("nonexistent").is_err());
}

#[test]
fn test_delete_client_ip_reuse() {
    let mut mgr = initialized_manager();
    let result = mgr.add_client("c1").unwrap();
    assert!(result.success_text().unwrap().contains("10.0.0.11"));
    mgr.delete_client("c1").unwrap();
    let result = mgr.add_client("c2").unwrap();
    assert!(result.success_text().unwrap().contains("10.0.0.11"));
}

#[test]
fn test_tiny_network_slash30() {
    let mut mgr = empty_manager();
    init(&mut mgr, "10.0.0.0/30", 1, 1).unwrap();
    let result = mgr.add_server("s1", "1.1.1.1", 51820).unwrap();
    assert!(result.success_text().unwrap().contains("10.0.0.1"));
    let result = mgr.add_client("c1").unwrap();
    assert!(result.success_text().unwrap().contains("10.0.0.2"));
    assert!(mgr.add_server("s2", "2.2.2.2", 51820).is_err());
    assert!(mgr.add_client("c2").is_err());
}

#[test]
fn test_no_client_space_when_server_range_fills_network() {
    let mut mgr = empty_manager();
    let err = init(&mut mgr, "10.0.0.0/24", 1, 254).unwrap_err();
    assert!(err.message().contains("No IP addresses left for clients"));
}

#[test]
fn test_server_range_single_offset() {
    let mut mgr = empty_manager();
    init(&mut mgr, "10.0.0.0/24", 5, 5).unwrap();
    let result = mgr.add_server("s1", "1.1.1.1", 51820).unwrap();
    assert!(result.success_text().unwrap().contains("10.0.0.5"));
    let err = mgr.add_server("s2", "2.2.2.2", 51820).unwrap_err();
    assert!(err.message().contains("Server IP exhausted"));
}

#[test]
fn test_init_network_slash31_too_small() {
    let mut mgr = empty_manager();
    let err = init(&mut mgr, "10.0.0.0/31", 1, 1).unwrap_err();
    assert!(err.message().contains("too small"));
}

#[test]
fn test_init_network_slash32_too_small() {
    let mut mgr = empty_manager();
    let err = init(&mut mgr, "10.0.0.0/32", 1, 1).unwrap_err();
    assert!(err.message().contains("too small"));
}

#[test]
fn test_add_client_name_conflicts_with_server() {
    let mut mgr = initialized_manager();
    mgr.add_server("device1", "1.2.3.4", 51820).unwrap();
    let err = mgr.add_client("device1").unwrap_err();
    assert!(err.message().contains("already exists"));
}

#[test]
fn test_edit_client_rename_to_server_name() {
    let mut mgr = initialized_manager();
    mgr.add_server("srv1", "1.2.3.4", 51820).unwrap();
    mgr.add_client("c1").unwrap();
    let err = mgr.edit_client("c1", Some("srv1")).unwrap_err();
    assert!(err.message().contains("already exists"));
}

#[test]
fn test_client_ip_reuse_non_sequential() {
    let mut mgr = initialized_manager();
    mgr.add_client("c1").unwrap();
    mgr.add_client("c2").unwrap();
    mgr.add_client("c3").unwrap();
    mgr.delete_client("c2").unwrap();
    let result = mgr.add_client("c4").unwrap();
    assert!(result.success_text().unwrap().contains("10.0.0.12"));
}

#[test]
fn test_server_ip_reuse_non_sequential() {
    let mut mgr = initialized_manager();
    mgr.add_server("s1", "1.1.1.1", 51820).unwrap();
    mgr.add_server("s2", "2.2.2.2", 51821).unwrap();
    mgr.add_server("s3", "3.3.3.3", 51822).unwrap();
    mgr.delete_server("s2").unwrap();
    let result = mgr.add_server("s4", "4.4.4.4", 51823).unwrap();
    assert!(result.success_text().unwrap().contains("10.0.0.2"));
}

#[test]
fn test_ip_exhaustion_small_network_slash29() {
    let mut mgr = empty_manager();
    init(&mut mgr, "10.0.0.0/29", 1, 2).unwrap();
    assert!(mgr.add_server("s1", "1.1.1.1", 51820).unwrap().success_text().unwrap().contains("10.0.0.1"));
    assert!(mgr.add_server("s2", "2.2.2.2", 51821).unwrap().success_text().unwrap().contains("10.0.0.2"));
    let err = mgr.add_server("s3", "3.3.3.3", 51822).unwrap_err();
    assert!(err.message().contains("Server IP exhausted"));
    assert!(mgr.add_client("c1").unwrap().success_text().unwrap().contains("10.0.0.3"));
    assert!(mgr.add_client("c2").unwrap().success_text().unwrap().contains("10.0.0.4"));
    assert!(mgr.add_client("c3").unwrap().success_text().unwrap().contains("10.0.0.5"));
    assert!(mgr.add_client("c4").unwrap().success_text().unwrap().contains("10.0.0.6"));
    let err = mgr.add_client("c5").unwrap_err();
    assert!(err.message().contains("Client IP exhausted"));
}

#[test]
fn test_list_devices_empty() {
    let mgr = initialized_manager();
    let (servers, clients) = mgr.list_devices().unwrap();
    assert!(servers.is_empty());
    assert!(clients.is_empty());
}

#[test]
fn test_list_devices_populated() {
    let mut mgr = initialized_manager();
    mgr.add_server("srv1", "1.1.1.1", 51820).unwrap();
    mgr.add_server("srv2", "2.2.2.2", 51821).unwrap();
    mgr.add_client("c1").unwrap();
    mgr.add_client("c2").unwrap();
    let (servers, clients) = mgr.list_devices().unwrap();
    assert_eq!(servers.len(), 2);
    assert_eq!(clients.len(), 2);
    assert!(servers.contains_key("srv1"));
    assert!(servers.contains_key("srv2"));
    assert!(clients.contains_key("c1"));
    assert!(clients.contains_key("c2"));
}

#[test]
fn test_show_device_server() {
    let mgr = manager_with_devices();
    match mgr.show_device("srv1").unwrap() {
        DeviceInfo::Server { name, ip, public_ip, listen_port, preshared_keys_count, .. } => {
            assert_eq!(name, "srv1");
            assert_eq!(ip, "10.0.0.1");
            assert_eq!(public_ip, "1.2.3.4");
            assert_eq!(listen_port, 51820);
            assert_eq!(preshared_keys_count, 1);
        },
        DeviceInfo::Client { .. } => panic!("Expected Server variant"),
    }
}

#[test]
fn test_show_device_client() {
    let mgr = manager_with_devices();
    match mgr.show_device("client1").unwrap() {
        DeviceInfo::Client { name, ip, .. } => {
            assert_eq!(name, "client1");
            assert_eq!(ip, "10.0.0.11");
        },
        DeviceInfo::Server { .. } => panic!("Expected Client variant"),
    }
}

#[test]
fn test_show_device_not_found() {
    let mgr = initialized_manager();
    let err = mgr.show_device("nonexistent").unwrap_err();
    assert_eq!(err.message(), "Device 'nonexistent' not found");
}

#[test]
fn test_generate_server_config_basic() {
    let mgr = manager_with_devices();
    let config = mgr.generate_server_config("srv1").unwrap();
    assert!(config.starts_with("[Interface]"));
    assert!(config.contains("PrivateKey = "));
    assert!(config.contains("Address = 10.0.0.1/24"));
    assert!(config.contains("ListenPort = 51820"));
}

#[test]
fn test_generate_server_config_with_peers() {
    let mut mgr = initialized_manager();
    mgr.add_server("srv1", "1.2.3.4", 51820).unwrap();
    mgr.add_server("srv2", "5.6.7.8", 51821).unwrap();
    mgr.add_client("c1").unwrap();
    let config = mgr.generate_server_config("srv1").unwrap();
    assert!(config.contains("# Peer: srv2 (Server)"));
    assert!(config.contains("Endpoint = 5.6.7.8:51821"));
    assert!(config.contains("AllowedIPs = 10.0.0.2/32"));
    assert!(config.contains("# Peer: c1 (Client)"));
    assert!(config.contains("AllowedIPs = 10.0.0.11/32"));
    assert!(!config.contains("# Peer: srv1"));
}

#[test]
fn test_generate_server_config_not_found() {
    let mgr = initialized_manager();
    assert!(mgr.generate_server_config("nonexistent").is_err());
}

#[test]
fn test_generate_client_config_basic() {
    let mgr = manager_with_devices();
    let config = mgr.generate_client_config("client1").unwrap();
    assert!(config.starts_with("[Interface]"));
    assert!(config.contains("PrivateKey = "));
    assert!(config.contains("Address = 10.0.0.11/24"));
    assert!(config.contains("# Peer: srv1 (Server)"));
    assert!(config.contains("Endpoint = 1.2.3.4:51820"));
    assert!(config.contains("PersistentKeepalive = 25"));
}

#[test]
fn test_generate_client_config_multiple_servers() {
    let mut mgr = initialized_manager();
    mgr.add_server("srv1", "1.2.3.4", 51820).unwrap();
    mgr.add_server("srv2", "5.6.7.8", 51821).unwrap();
    mgr.add_client("c1").unwrap();
    let config = mgr.generate_client_config("c1").unwrap();
    assert!(config.contains("# Peer: srv1 (Server)"));
    assert!(config.contains("# Peer: srv2 (Server)"));
}

#[test]
fn test_generate_client_config_not_found() {
    let mgr = initialized_manager();
    assert!(mgr.generate_client_config("nonexistent").is_err());
}

#[test]
fn test_generate_config_server_to_stdout() {
    let mgr = manager_with_devices();
    let result = mgr.generate_config("srv1").unwrap();
    assert!(result.contains("[Interface]"));
}

#[test]
fn test_generate_config_not_found() {
    let mgr = initialized_manager();
    assert!(mgr.generate_config("nonexistent").is_err());
}

#[test]
fn test_generate_all_configs_basic() {
    let mut mgr = initialized_manager();
    mgr.add_server("srv1", "1.2.3.4", 51820).unwrap();
    mgr.add_server("srv2", "5.6.7.8", 51821).unwrap();
    mgr.add_client("c1").unwrap();
    mgr.add_client("c2").unwrap();
    let configs = mgr.generate_all_configs().unwrap();
    let names: Vec<&str> = configs.iter().map(|(n, _)| n.as_str()).collect();
    assert_eq!(names, vec!["srv1", "srv2", "c1", "c2"]);
    assert_eq!(configs[2].1, mgr.generate_client_config("c1").unwrap());
}

#[test]
fn test_generate_all_configs_empty_network() {
    let mgr = initialized_manager();
    assert_eq!(mgr.generate_all_configs().unwrap().len(), 0);
}

#[test]
fn server_config_full_text() {
    let mut mgr = initialized_manager();
    mgr.add_server("a", "1.1.1.1", 1000).unwrap();
    mgr.add_client("b").unwrap();
    let (servers, _) = mgr.list_devices().unwrap();
    let a = servers.get("a").unwrap();
    let psk = a.preshared_keys.get("b").unwrap().clone();
    let (_, clients) = mgr.list_devices().unwrap();
    let b = clients.get("b").unwrap();
    let expected = format!(
        "[Interface]\nPrivateKey = {}\nAddress = 10.0.0.1/24\nListenPort = 1000\n\n# Peer: b (Client)\n[Peer]\nPublicKey = {}\nPresharedKey = {}\nAllowedIPs = 10.0.0.11/32",
        a.private_key, b.public_key, psk
    );
    assert_eq!(mgr.generate_server_config("a").unwrap(), expected);
    let expected_client = format!(
        "[Interface]\nPrivateKey = {}\nAddress = 10.0.0.11/24\n\n# Peer: a (Server)\n[Peer]\nPublicKey = {}\nPresharedKey = {}\nAllowedIPs = 10.0.0.1/32\nEndpoint = 1.1.1.1:1000\nPersistentKeepalive = 25",
        b.private_key, a.public_key, psk
    );
    assert_eq!(mgr.generate_client_config("b").unwrap(), expected_client);
}

#[test]
fn operation_result_success_helpers() {
    let r = OperationResult::success("done");
    assert_eq!(r.success_text(), Some("done"));
    assert!(r.save_needed);
    assert!(r.backup_path.is_none());
    let r = OperationResult { messages: vec![], backup_path: None, save_needed: false };
    assert_eq!(r.success_text(), None);
}

#[test]
fn error_messages_match_their_texts() {
    let cases: Vec<(ManagerError, &str)> = vec![
        (ManagerError::NotInitialized, "No configuration found. Please run 'init' first."),
        (ManagerError::ServerEndTooLarge { max: 254, end: 300 }, "Server end offset must be <= 254 for this network, got 300"),
        (ManagerError::ServerRangeInverted { start: 10, end: 5 }, "Server start (10) must be <= server end (5)"),
        (ManagerError::NoClientSpace { end: 254 }, "No IP addresses left for clients (server range ends at offset 254)"),
        (ManagerError::NameExists { name: "x".to_string() }, "Name 'x' already exists"),
        (ManagerError::ClientsConflict { devices: vec!["a (1.2.3.4)".to_string(), "b (1.2.3.5)".to_string()] },
            "Cannot change server range: the following clients would conflict with server range:\n  a (1.2.3.4), b (1.2.3.5)\nPlease delete these clients first or choose a smaller server range."),
        (ManagerError::RangeValueCount { count: 3 }, "Expected exactly 2 values, got 3"),
    ];
    for (e, text) in cases {
        assert_eq!(e.message(), text);
    }
}

fn first_psk(config: &str) -> String {
    config
        .lines()
        .find(|l| l.starts_with("PresharedKey = "))
        .unwrap()
        .trim_start_matches("PresharedKey = ")
        .to_string()
}

#[test]
fn test_psk_symmetry_in_generated_configs() {
    let mut mgr = initialized_manager();
    mgr.add_server("srv1", "1.2.3.4", 51820).unwrap();
    mgr.add_client("c1").unwrap();
    let srv_config = mgr.generate_server_config("srv1").unwrap();
    let cli_config = mgr.generate_client_config("c1").unwrap();
    assert_eq!(first_psk(&srv_config), first_psk(&cli_config));
}

#[test]
fn test_psk_symmetry_in_server_to_server_configs() {
    let mut mgr = initialized_manager();
    mgr.add_server("srv1", "1.2.3.4", 51820).unwrap();
    mgr.add_server("srv2", "5.6.7.8", 51821).unwrap();
    let srv1_config = mgr.generate_server_config("srv1").unwrap();
    let srv2_config = mgr.generate_server_config("srv2").unwrap();
    assert_eq!(first_psk(&srv1_config), first_psk(&srv2_config));
}

#[test]
fn test_generate_client_config_no_listen_port() {
    let mgr = manager_with_devices();
    let config = mgr.generate_client_config("client1").unwrap();
    assert!(!config.contains("ListenPort"));
}

#[test]
fn test_generate_server_config_no_peers() {
    let mut mgr = initialized_manager();
    mgr.add_server("srv1", "1.2.3.4", 51820).unwrap();
    let config = mgr.generate_server_config("srv1").unwrap();
    assert!(config.contains("[Interface]"));
    assert!(config.contains("ListenPort = 51820"));
    assert!(!config.contains("[Peer]"));
}

#[test]
fn test_generate_all_configs_file_contents() {
    // The texts that `gen all` writes to `srv1.conf` and `c1.conf`.
    let mut mgr = initialized_manager();
    mgr.add_server("srv1", "1.2.3.4", 51820).unwrap();
    mgr.add_client("c1").unwrap();
    let configs = mgr.generate_all_configs().unwrap();
    let srv_content = &configs.iter().find(|(n, _)| n == "srv1").unwrap().1;
    assert!(srv_content.contains("[Interface]"));
    assert!(srv_content.contains("Address = 10.0.0.1/24"));
    assert!(srv_content.contains("ListenPort = 51820"));
    assert!(srv_content.contains("# Peer: c1 (Client)"));
    let cli_content = &configs.iter().find(|(n, _)| n == "c1").unwrap().1;
    assert!(cli_content.contains("[Interface]"));
    assert!(cli_content.contains("Address = 10.0.0.11/24"));
    assert!(cli_content.contains("# Peer: srv1 (Server)"));
    assert!(cli_content.contains("PersistentKeepalive = 25"));
}

#[test]
fn test_generate_config_server_to_file() {
    // The text that `gen srv1 --output-dir ..` writes to `srv1.conf`.
    let mgr = manager_with_devices();
    let content = mgr.generate_config("srv1").unwrap();
    assert!(content.contains("[Interface]"));
    assert!(content.contains("ListenPort = 51820"));
}

#[test]
fn test_update_network_config_invalid_subnet() {
    let mut mgr = initialized_manager();
    let err = update(&mut mgr, Some("not-a-subnet"), None, None).unwrap_err();
    assert!(err.message().contains("Invalid subnet"));
}

#[test]
fn test_multiple_ip_reuse_cycles() {
    let mut mgr = initialized_manager();
    let result = mgr.add_client("c1").unwrap();
    assert!(result.success_text().unwrap().contains("10.0.0.11"));
    mgr.delete_client("c1").unwrap();
    let result = mgr.add_client("c2").unwrap();
    assert!(result.success_text().unwrap().contains("10.0.0.11"));
    mgr.delete_client("c2").unwrap();
    let result = mgr.add_client("c3").unwrap();
    assert!(result.success_text().unwrap().contains("10.0.0.11"));
}
