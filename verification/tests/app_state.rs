use wireguard_manager::manager::ops::WireGuardManager;
use wireguard_manager::manager::types::{Message, MessageKind, OperationResult};
use wireguard_manager::tui::app::{App, Env, Key, KeyCode, Mode, Request, SaveOutcome};
use wireguard_manager::tui::input::TextInput;
use wireguard_manager::tui::layout::{FormFocus, Panel};

fn env() -> Env {
    Env { data_file_exists: false, backup_path: "data/data-backup.json.bak".to_string() }
}

fn setup_app() -> App {
    App::new(WireGuardManager::new("data/data.json", None))
}

fn setup_app_with_network() -> App {
    let mut app = setup_app();
    app.manager.init_network("10.0.0.0/24", 1, 10, false, false, "b").unwrap().unwrap();
    app.refresh_data();
    app
}

fn setup_app_with_devices() -> App {
    let mut app = setup_app_with_network();
    app.manager.add_server("srv1", "1.2.3.4", 51820).unwrap();
    app.manager.add_client("client1").unwrap();
    app.refresh_data();
    app
}

fn key(code: KeyCode) -> Key {
    Key { code, ctrl: false }
}

fn key_char(c: char) -> Key {
    Key { code: KeyCode::Char(c), ctrl: false }
}

fn key_ctrl(c: char) -> Key {
    Key { code: KeyCode::Char(c), ctrl: true }
}

/// Handles a key as the terminal loop does, with every write succeeding.
fn press(app: &mut App, k: Key) {
    match app.handle_key(k, &env()) {
        Request::Persist { .. } => {
            app.finish_persist(Ok(()));
        },
        Request::SaveConfig { .. } => app.finish_save_config(SaveOutcome::Saved),
        Request::SaveAll { configs, .. } => app.finish_save_all(Ok(configs.len() as u32)),
        Request::Abort => panic!("aborted"),
        Request::Nothing => {},
    }
}

#[test]
fn refresh_data_populates_caches() {
    let app = setup_app_with_devices();
    assert!(!app.servers.is_empty());
    assert!(!app.clients.is_empty());
    assert!(app.network_info.is_some());
}

#[test]
fn device_count_empty() {
    let app = setup_app();
    assert_eq!(app.device_count(), 0);
}

#[test]
fn device_count_with_devices() {
    let app = setup_app_with_devices();
    assert_eq!(app.device_count(), 2);
}

#[test]
fn device_name_at_server_index() {
    let app = setup_app_with_devices();
    assert_eq!(app.device_name_at(0).unwrap(), "srv1");
}

#[test]
fn device_name_at_client_index() {
    let app = setup_app_with_devices();
    assert_eq!(app.device_name_at(1).unwrap(), "client1");
}

#[test]
fn device_name_at_out_of_bounds() {
    let app = setup_app_with_devices();
    assert!(app.device_name_at(99).is_none());
}

#[test]
fn is_server_at_true_for_server_index() {
    let app = setup_app_with_devices();
    assert!(app.is_server_at(0));
}

#[test]
fn is_server_at_false_for_client_index() {
    let app = setup_app_with_devices();
    assert!(!app.is_server_at(1));
}

#[test]
fn clamp_device_index_within_range() {
    let mut app = setup_app_with_devices();
    app.device_index = 1;
    app.clamp_device_index();
    assert_eq!(app.device_index, 1);
}

#[test]
fn clamp_device_index_out_of_range() {
    let mut app = setup_app_with_devices();
    app.device_index = 99;
    app.clamp_device_index();
    assert_eq!(app.device_index, 1);
}

#[test]
fn clamp_device_index_empty_resets_to_zero() {
    let mut app = setup_app();
    app.device_index = 5;
    app.clamp_device_index();
    assert_eq!(app.device_index, 0);
}

#[test]
fn set_status_updates_status_field() {
    let mut app = setup_app();
    app.set_status("test message");
    assert_eq!(app.status, "test message");
}

#[test]
fn set_status_appends_to_logs() {
    let mut app = setup_app();
    app.set_status("msg1");
    app.set_status("msg2");
    assert_eq!(app.logs.len(), 2);
    assert_eq!(app.logs[0].1, "msg1");
    assert_eq!(app.logs[1].1, "msg2");
}

#[test]
fn update_selected_device_resets_scroll() {
    let mut app = setup_app_with_devices();
    app.detail_scroll = 10;
    app.config_scroll = 10;
    app.update_selected_device();
    assert_eq!(app.detail_scroll, 0);
    assert_eq!(app.config_scroll, 0);
}

#[test]
fn update_selected_device_clears_when_no_devices() {
    let mut app = setup_app();
    app.update_selected_device();
    assert!(app.selected_device_info.is_none());
    assert!(app.selected_config.is_none());
    assert!(app.selected_device_name.is_none());
}

#[test]
fn update_selected_device_sets_info_for_valid_index() {
    let mut app = setup_app_with_devices();
    app.device_index = 0;
    app.update_selected_device();
    assert_eq!(app.selected_device_name.as_deref(), Some("srv1"));
    assert!(app.selected_device_info.is_some());
    assert!(app.selected_config.as_ref().unwrap().starts_with("[Interface]"));
}

#[test]
fn ctrl_c_quits_from_any_mode() {
    let mut app = setup_app();
    app.mode = Mode::Help;
    press(&mut app, key_ctrl('c'));
    assert!(app.should_quit);
}

#[test]
fn tab_cycles_panel_forward() {
    let mut app = setup_app();
    assert_eq!(app.panel, Panel::OverallInfo);
    press(&mut app, key(KeyCode::Tab));
    assert_eq!(app.panel, Panel::DeviceList);
    press(&mut app, key(KeyCode::Tab));
    assert_eq!(app.panel, Panel::ConfigPreview);
    press(&mut app, key(KeyCode::Tab));
    assert_eq!(app.panel, Panel::OverallInfo);
}

#[test]
fn backtab_cycles_panel_backward() {
    let mut app = setup_app();
    press(&mut app, key(KeyCode::BackTab));
    assert_eq!(app.panel, Panel::ConfigPreview);
    press(&mut app, key(KeyCode::BackTab));
    assert_eq!(app.panel, Panel::DeviceList);
}

#[test]
fn question_mark_opens_help() {
    let mut app = setup_app();
    press(&mut app, key_char('?'));
    assert!(matches!(app.mode, Mode::Help));
}

#[test]
fn help_esc_returns_to_normal() {
    let mut app = setup_app();
    app.mode = Mode::Help;
    press(&mut app, key(KeyCode::Esc));
    assert!(matches!(app.mode, Mode::Normal));
}

#[test]
fn help_question_mark_returns_to_normal() {
    let mut app = setup_app();
    app.mode = Mode::Help;
    press(&mut app, key_char('?'));
    assert!(matches!(app.mode, Mode::Normal));
}

#[test]
fn help_q_returns_to_normal() {
    let mut app = setup_app();
    app.mode = Mode::Help;
    press(&mut app, key_char('q'));
    assert!(matches!(app.mode, Mode::Normal));
}

#[test]
fn choose_s_opens_add_server_form() {
    let mut app = setup_app_with_network();
    app.mode = Mode::ChooseDeviceType;
    press(&mut app, key_char('s'));
    assert!(matches!(app.mode, Mode::AddServer));
    assert_eq!(app.form_labels.len(), 3);
    assert_eq!(app.form_fields[2].value(), "51820");
}

#[test]
fn choose_c_opens_add_client_form() {
    let mut app = setup_app_with_network();
    app.mode = Mode::ChooseDeviceType;
    press(&mut app, key_char('c'));
    assert!(matches!(app.mode, Mode::AddClient));
    assert_eq!(app.form_labels.len(), 1);
}

#[test]
fn choose_esc_cancels() {
    let mut app = setup_app();
    app.mode = Mode::ChooseDeviceType;
    press(&mut app, key(KeyCode::Esc));
    assert!(matches!(app.mode, Mode::Normal));
}

#[test]
fn info_panel_q_quits() {
    let mut app = setup_app();
    app.panel = Panel::OverallInfo;
    press(&mut app, key_char('q'));
    assert!(app.should_quit);
}

#[test]
fn info_panel_ctrl_o_starts_export_dir_editing() {
    let mut app = setup_app();
    app.panel = Panel::OverallInfo;
    press(&mut app, key_ctrl('o'));
    assert!(app.editing_export_dir);
    assert_eq!(app.export_dir_backup, "output");
}

#[test]
fn export_dir_esc_restores_backup() {
    let mut app = setup_app();
    app.panel = Panel::OverallInfo;
    app.editing_export_dir = true;
    app.export_dir_backup = "original".to_string();
    app.export_dir = TextInput::with_value("modified");
    press(&mut app, key(KeyCode::Esc));
    assert!(!app.editing_export_dir);
    assert_eq!(app.export_dir.value(), "original");
}

#[test]
fn export_dir_enter_commits() {
    let mut app = setup_app();
    app.panel = Panel::OverallInfo;
    app.editing_export_dir = true;
    app.export_dir = TextInput::with_value("new_dir");
    press(&mut app, key(KeyCode::Enter));
    assert!(!app.editing_export_dir);
    assert_eq!(app.export_dir.value(), "new_dir");
}

#[test]
fn export_dir_enter_rejects_empty() {
    let mut app = setup_app();
    app.panel = Panel::OverallInfo;
    app.editing_export_dir = true;
    app.export_dir = TextInput::with_value("  ");
    press(&mut app, key(KeyCode::Enter));
    assert!(app.editing_export_dir);
    assert!(app.status.contains("empty"));
}

#[test]
fn export_dir_char_input() {
    let mut app = setup_app();
    app.panel = Panel::OverallInfo;
    app.editing_export_dir = true;
    app.export_dir = TextInput::new();
    press(&mut app, key_char('x'));
    assert_eq!(app.export_dir.value(), "x");
}

#[test]
fn export_dir_ctrl_u_clears() {
    let mut app = setup_app();
    app.panel = Panel::OverallInfo;
    app.editing_export_dir = true;
    app.export_dir = TextInput::with_value("some_dir");
    press(&mut app, key_ctrl('u'));
    assert_eq!(app.export_dir.value(), "");
}

#[test]
fn tab_while_editing_export_dir_cancels_edit() {
    let mut app = setup_app();
    app.panel = Panel::OverallInfo;
    app.editing_export_dir = true;
    app.export_dir_backup = "original".to_string();
    app.export_dir = TextInput::with_value("modified");
    press(&mut app, key(KeyCode::Tab));
    assert!(!app.editing_export_dir);
    assert_eq!(app.export_dir.value(), "original");
    assert_eq!(app.panel, Panel::DeviceList);
}

#[test]
fn device_list_q_quits() {
    let mut app = setup_app_with_devices();
    app.panel = Panel::DeviceList;
    press(&mut app, key_char('q'));
    assert!(app.should_quit);
}

#[test]
fn device_list_down_increments_index() {
    let mut app = setup_app_with_devices();
    app.panel = Panel::DeviceList;
    assert_eq!(app.device_index, 0);
    press(&mut app, key(KeyCode::Down));
    assert_eq!(app.device_index, 1);
    assert_eq!(app.selected_device_name.as_deref(), Some("client1"));
}

#[test]
fn device_list_j_increments_index() {
    let mut app = setup_app_with_devices();
    app.panel = Panel::DeviceList;
    press(&mut app, key_char('j'));
    assert_eq!(app.device_index, 1);
}

#[test]
fn device_list_up_at_zero_is_noop() {
    let mut app = setup_app_with_devices();
    app.panel = Panel::DeviceList;
    press(&mut app, key(KeyCode::Up));
    assert_eq!(app.device_index, 0);
}

#[test]
fn device_list_up_decrements_index() {
    let mut app = setup_app_with_devices();
    app.panel = Panel::DeviceList;
    app.device_index = 1;
    press(&mut app, key(KeyCode::Up));
    assert_eq!(app.device_index, 0);
}

#[test]
fn device_list_home_goes_to_first() {
    let mut app = setup_app_with_devices();
    app.panel = Panel::DeviceList;
    app.device_index = 1;
    press(&mut app, key(KeyCode::Home));
    assert_eq!(app.device_index, 0);
}

#[test]
fn device_list_end_goes_to_last() {
    let mut app = setup_app_with_devices();
    app.panel = Panel::DeviceList;
    press(&mut app, key(KeyCode::End));
    assert_eq!(app.device_index, 1);
}

#[test]
fn device_list_a_opens_choose_device_type() {
    let mut app = setup_app_with_devices();
    app.panel = Panel::DeviceList;
    press(&mut app, key_char('a'));
    assert!(matches!(app.mode, Mode::ChooseDeviceType));
}

#[test]
fn device_list_pageup_scrolls_detail() {
    let mut app = setup_app_with_devices();
    app.panel = Panel::DeviceList;
    app.detail_scroll = 5;
    press(&mut app, key(KeyCode::PageUp));
    assert_eq!(app.detail_scroll, 4);
}

#[test]
fn device_list_pagedown_scrolls_detail() {
    let mut app = setup_app_with_devices();
    app.panel = Panel::DeviceList;
    press(&mut app, key(KeyCode::PageDown));
    assert_eq!(app.detail_scroll, 1);
}

#[test]
fn config_preview_q_quits() {
    let mut app = setup_app();
    app.panel = Panel::ConfigPreview;
    press(&mut app, key_char('q'));
    assert!(app.should_quit);
}

#[test]
fn config_preview_down_scrolls() {
    let mut app = setup_app();
    app.panel = Panel::ConfigPreview;
    press(&mut app, key(KeyCode::Down));
    assert_eq!(app.config_scroll, 1);
}

#[test]
fn config_preview_up_scrolls() {
    let mut app = setup_app();
    app.panel = Panel::ConfigPreview;
    app.config_scroll = 3;
    press(&mut app, key(KeyCode::Up));
    assert_eq!(app.config_scroll, 2);
}

#[test]
fn config_preview_k_scrolls_up() {
    let mut app = setup_app();
    app.panel = Panel::ConfigPreview;
    app.config_scroll = 3;
    press(&mut app, key_char('k'));
    assert_eq!(app.config_scroll, 2);
}

#[test]
fn ctrl_i_opens_init_form_when_no_network() {
    let mut app = setup_app();
    press(&mut app, key_ctrl('i'));
    assert!(matches!(app.mode, Mode::InitNetwork));
    assert!(!app.force_init);
    assert_eq!(app.form_fields[0].value(), "10.0.0.0/24");
    assert_eq!(app.form_fields[1].value(), "[1,10]");
}

#[test]
fn ctrl_i_opens_reinit_confirm_when_network_exists() {
    let mut app = setup_app_with_network();
    press(&mut app, key_ctrl('i'));
    assert!(matches!(app.mode, Mode::ConfirmReinit));
}

#[test]
fn ctrl_e_opens_edit_network_when_initialized() {
    let mut app = setup_app_with_network();
    press(&mut app, key_ctrl('e'));
    assert!(matches!(app.mode, Mode::EditNetworkConfig));
    assert_eq!(app.form_labels.len(), 2);
    assert_eq!(app.form_fields[0].value(), "10.0.0.0/24");
    assert_eq!(app.form_fields[1].value(), "[1,10]");
}

#[test]
fn ctrl_e_shows_error_when_not_initialized() {
    let mut app = setup_app();
    press(&mut app, key_ctrl('e'));
    assert!(matches!(app.mode, Mode::Normal));
    assert!(app.status.contains("not initialized"));
}

#[test]
fn device_list_down_at_last_is_noop() {
    let mut app = setup_app_with_devices();
    app.panel = Panel::DeviceList;
    app.device_index = 1;
    press(&mut app, key(KeyCode::Down));
    assert_eq!(app.device_index, 1);
}

#[test]
fn s_key_saves_selected_config() {
    let mut app = setup_app_with_devices();
    app.export_dir = TextInput::with_value("out");
    app.panel = Panel::DeviceList;
    app.device_index = 0;
    match app.handle_key(key_char('s'), &env()) {
        Request::SaveConfig { dir, name, content } => {
            assert_eq!(dir, "out");
            assert_eq!(name, "srv1");
            assert!(content.starts_with("[Interface]"));
        },
        _ => panic!("expected a save request"),
    }
    app.finish_save_config(SaveOutcome::Saved);
    assert_eq!(app.status, "Config saved to: out/srv1.conf");
    assert_eq!(app.selected_device_name.as_deref(), Some("srv1"));
}

#[test]
fn s_key_empty_export_dir_shows_error() {
    let mut app = setup_app_with_devices();
    app.export_dir = TextInput::with_value("");
    app.panel = Panel::DeviceList;
    app.device_index = 0;
    press(&mut app, key_char('s'));
    assert!(app.status.contains("empty"));
}

#[test]
fn g_key_generates_all_configs() {
    let mut app = setup_app_with_devices();
    app.export_dir = TextInput::with_value("all_out");
    app.panel = Panel::DeviceList;
    match app.handle_key(key_char('g'), &env()) {
        Request::SaveAll { dir, configs } => {
            assert_eq!(dir, "all_out");
            assert_eq!(configs.len(), 2);
        },
        _ => panic!("expected a save request"),
    }
    app.finish_save_all(Ok(2));
    assert_eq!(app.status, "Generated 2 config files to: all_out/");
}

#[test]
fn g_key_empty_export_dir_shows_error() {
    let mut app = setup_app_with_devices();
    app.export_dir = TextInput::with_value("");
    app.panel = Panel::DeviceList;
    press(&mut app, key_char('g'));
    assert!(app.status.contains("empty"));
}

#[test]
fn save_config_failures_are_reported() {
    let mut app = setup_app_with_devices();
    app.panel = Panel::DeviceList;
    let _ = app.handle_key(key_char('s'), &env());
    app.finish_save_config(SaveOutcome::DirectoryFailed("denied".to_string()));
    assert_eq!(app.status, "Error creating output dir: denied");
    let _ = app.handle_key(key_char('s'), &env());
    app.finish_save_config(SaveOutcome::WriteFailed("full".to_string()));
    assert_eq!(app.status, "Error saving: full");
}

#[test]
fn form_tab_cycles_forward() {
    let mut app = setup_app();
    app.form_fields = vec![TextInput::new(), TextInput::new()];
    app.form_labels = vec!["F1", "F2"];
    app.form_focus = FormFocus::Field(0);
    app.mode = Mode::InitNetwork;
    press(&mut app, key(KeyCode::Tab));
    assert_eq!(app.form_focus, FormFocus::Field(1));
    press(&mut app, key(KeyCode::Tab));
    assert_eq!(app.form_focus, FormFocus::Submit);
    press(&mut app, key(KeyCode::Tab));
    assert_eq!(app.form_focus, FormFocus::Cancel);
    press(&mut app, key(KeyCode::Tab));
    assert_eq!(app.form_focus, FormFocus::Field(0));
}

#[test]
fn form_backtab_cycles_backward() {
    let mut app = setup_app();
    app.form_fields = vec![TextInput::new(), TextInput::new()];
    app.form_labels = vec!["F1", "F2"];
    app.form_focus = FormFocus::Field(0);
    app.mode = Mode::InitNetwork;
    press(&mut app, key(KeyCode::BackTab));
    assert_eq!(app.form_focus, FormFocus::Cancel);
    press(&mut app, key(KeyCode::BackTab));
    assert_eq!(app.form_focus, FormFocus::Submit);
    press(&mut app, key(KeyCode::BackTab));
    assert_eq!(app.form_focus, FormFocus::Field(1));
    press(&mut app, key(KeyCode::BackTab));
    assert_eq!(app.form_focus, FormFocus::Field(0));
}

#[test]
fn form_esc_cancels() {
    let mut app = setup_app();
    app.mode = Mode::InitNetwork;
    press(&mut app, key(KeyCode::Esc));
    assert!(matches!(app.mode, Mode::Normal));
}

#[test]
fn form_enter_on_cancel_returns_to_normal() {
    let mut app = setup_app();
    app.form_fields = vec![TextInput::new()];
    app.mode = Mode::InitNetwork;
    app.form_focus = FormFocus::Cancel;
    press(&mut app, key(KeyCode::Enter));
    assert!(matches!(app.mode, Mode::Normal));
}

#[test]
fn form_enter_on_field_advances_to_next_field() {
    let mut app = setup_app();
    app.form_fields = vec![TextInput::new(), TextInput::new()];
    app.form_labels = vec!["F1", "F2"];
    app.form_focus = FormFocus::Field(0);
    app.mode = Mode::InitNetwork;
    press(&mut app, key(KeyCode::Enter));
    assert_eq!(app.form_focus, FormFocus::Field(1));
}

#[test]
fn form_enter_on_last_field_advances_to_submit() {
    let mut app = setup_app();
    app.form_fields = vec![TextInput::new(), TextInput::new()];
    app.form_labels = vec!["F1", "F2"];
    app.form_focus = FormFocus::Field(1);
    app.mode = Mode::InitNetwork;
    press(&mut app, key(KeyCode::Enter));
    assert_eq!(app.form_focus, FormFocus::Submit);
}

#[test]
fn form_char_input_updates_field() {
    let mut app = setup_app();
    app.form_fields = vec![TextInput::new()];
    app.form_labels = vec!["F1"];
    app.form_focus = FormFocus::Field(0);
    app.mode = Mode::InitNetwork;
    press(&mut app, key_char('x'));
    press(&mut app, key_char('y'));
    assert_eq!(app.form_fields[0].value(), "xy");
}

#[test]
fn form_ctrl_u_clears_field() {
    let mut app = setup_app();
    app.form_fields = vec![TextInput::with_value("hello")];
    app.form_labels = vec!["F1"];
    app.form_focus = FormFocus::Field(0);
    app.mode = Mode::InitNetwork;
    press(&mut app, key_ctrl('u'));
    assert_eq!(app.form_fields[0].value(), "");
}

#[test]
fn form_backspace_deletes_char() {
    let mut app = setup_app();
    app.form_fields = vec![TextInput::with_value("abc")];
    app.form_labels = vec!["F1"];
    app.form_focus = FormFocus::Field(0);
    app.mode = Mode::InitNetwork;
    press(&mut app, key(KeyCode::Backspace));
    assert_eq!(app.form_fields[0].value(), "ab");
}

#[test]
fn submit_init_form_initializes_network() {
    let mut app = setup_app();
    app.form_fields = vec![TextInput::with_value("10.0.0.0/24"), TextInput::with_value("[1,10]")];
    app.form_labels = vec!["Subnet", "Server Range"];
    app.form_focus = FormFocus::Submit;
    app.mode = Mode::InitNetwork;
    press(&mut app, key(KeyCode::Enter));
    assert!(matches!(app.mode, Mode::Normal));
    assert!(app.network_info.is_some());
    assert_eq!(app.status, "Network initialized successfully!");
}

#[test]
fn submit_init_form_invalid_range_stays_in_form() {
    let mut app = setup_app();
    app.form_fields = vec![TextInput::with_value("10.0.0.0/24"), TextInput::with_value("invalid")];
    app.form_labels = vec!["Subnet", "Server Range"];
    app.form_focus = FormFocus::Submit;
    app.mode = Mode::InitNetwork;
    press(&mut app, key(KeyCode::Enter));
    assert!(matches!(app.mode, Mode::InitNetwork));
    assert_eq!(app.status, "Invalid server range 'invalid'. Use [START,END]");
}

#[test]
fn submit_add_server_form() {
    let mut app = setup_app_with_network();
    app.form_fields = vec![
        TextInput::with_value("myserver"),
        TextInput::with_value("1.2.3.4"),
        TextInput::with_value("51820"),
    ];
    app.form_labels = vec!["Name", "Public IP", "Port"];
    app.form_focus = FormFocus::Submit;
    app.mode = Mode::AddServer;
    press(&mut app, key(KeyCode::Enter));
    assert!(matches!(app.mode, Mode::Normal));
    assert_eq!(app.servers.len(), 1);
    assert_eq!(app.servers[0].name, "myserver");
}

#[test]
fn submit_add_server_form_invalid_port_stays() {
    let mut app = setup_app_with_network();
    app.form_fields = vec![
        TextInput::with_value("myserver"),
        TextInput::with_value("1.2.3.4"),
        TextInput::with_value("not_a_port"),
    ];
    app.form_labels = vec!["Name", "Public IP", "Port"];
    app.form_focus = FormFocus::Submit;
    app.mode = Mode::AddServer;
    press(&mut app, key(KeyCode::Enter));
    assert!(matches!(app.mode, Mode::AddServer));
    assert!(app.status.contains("Invalid port"));
}

#[test]
fn submit_add_client_form() {
    let mut app = setup_app_with_network();
    app.form_fields = vec![TextInput::with_value("myclient")];
    app.form_labels = vec!["Name"];
    app.form_focus = FormFocus::Submit;
    app.mode = Mode::AddClient;
    press(&mut app, key(KeyCode::Enter));
    assert!(matches!(app.mode, Mode::Normal));
    assert_eq!(app.clients.len(), 1);
    assert_eq!(app.clients[0].name, "myclient");
}

#[test]
fn submit_edit_network_form() {
    let mut app = setup_app_with_network();
    app.form_fields = vec![TextInput::with_value("10.0.0.0/16"), TextInput::with_value("[1,20]")];
    app.form_labels = vec!["Subnet", "Server Range"];
    app.form_focus = FormFocus::Submit;
    app.mode = Mode::EditNetworkConfig;
    press(&mut app, key(KeyCode::Enter));
    assert!(matches!(app.mode, Mode::Normal));
    let info = app.network_info.as_ref().unwrap();
    assert_eq!(info.subnet, "10.0.0.0/16");
}

#[test]
fn submit_edit_server_form() {
    let mut app = setup_app_with_devices();
    app.form_fields = vec![TextInput::with_value("5.6.7.8"), TextInput::with_value("12345")];
    app.form_labels = vec!["Public IP", "Port"];
    app.form_focus = FormFocus::Submit;
    app.mode = Mode::EditServer { name: "srv1".to_string() };
    press(&mut app, key(KeyCode::Enter));
    assert!(matches!(app.mode, Mode::Normal));
    assert_eq!(app.servers[0].public_ip, "5.6.7.8");
    assert_eq!(app.servers[0].listen_port, 12345);
}

#[test]
fn submit_edit_client_form() {
    let mut app = setup_app_with_devices();
    app.form_fields = vec![TextInput::with_value("new_name")];
    app.form_labels = vec!["New Name"];
    app.form_focus = FormFocus::Submit;
    app.mode = Mode::EditClient { name: "client1".to_string() };
    press(&mut app, key(KeyCode::Enter));
    assert!(matches!(app.mode, Mode::Normal));
    assert_eq!(app.clients[0].name, "new_name");
}

#[test]
fn submit_add_server_duplicate_name_stays_in_form() {
    let mut app = setup_app_with_devices();
    app.form_fields = vec![
        TextInput::with_value("srv1"),
        TextInput::with_value("5.6.7.8"),
        TextInput::with_value("51821"),
    ];
    app.form_labels = vec!["Name", "Public IP", "Port"];
    app.form_focus = FormFocus::Submit;
    app.mode = Mode::AddServer;
    press(&mut app, key(KeyCode::Enter));
    assert!(matches!(app.mode, Mode::AddServer));
    assert_eq!(app.status, "Error: Name 'srv1' already exists");
}

#[test]
fn submit_add_client_duplicate_name_stays_in_form() {
    let mut app = setup_app_with_devices();
    app.form_fields = vec![TextInput::with_value("client1")];
    app.form_labels = vec!["Name"];
    app.form_focus = FormFocus::Submit;
    app.mode = Mode::AddClient;
    press(&mut app, key(KeyCode::Enter));
    assert!(matches!(app.mode, Mode::AddClient));
    assert!(app.status.contains("Error"));
}

#[test]
fn submit_edit_client_to_existing_name_stays_in_form() {
    let mut app = setup_app_with_devices();
    app.form_fields = vec![TextInput::with_value("srv1")];
    app.form_labels = vec!["New Name"];
    app.form_focus = FormFocus::Submit;
    app.mode = Mode::EditClient { name: "client1".to_string() };
    press(&mut app, key(KeyCode::Enter));
    assert!(matches!(app.mode, Mode::EditClient { .. }));
    assert!(app.status.contains("Error"));
}

#[test]
fn confirm_n_cancels() {
    let mut app = setup_app_with_devices();
    app.mode = Mode::ConfirmDelete { name: "srv1".to_string(), device_type: "server".to_string() };
    press(&mut app, key_char('n'));
    assert!(matches!(app.mode, Mode::Normal));
}

#[test]
fn confirm_esc_cancels() {
    let mut app = setup_app_with_devices();
    app.mode = Mode::ConfirmReinit;
    press(&mut app, key(KeyCode::Esc));
    assert!(matches!(app.mode, Mode::Normal));
}

#[test]
fn confirm_reinit_y_opens_init_form_with_force() {
    let mut app = setup_app_with_network();
    app.mode = Mode::ConfirmReinit;
    press(&mut app, key_char('y'));
    assert!(app.force_init);
    assert!(matches!(app.mode, Mode::InitNetwork));
    assert_eq!(app.form_labels.len(), 2);
}

#[test]
fn confirm_delete_y_deletes_server() {
    let mut app = setup_app_with_devices();
    let initial_count = app.device_count();
    app.mode = Mode::ConfirmDelete { name: "srv1".to_string(), device_type: "server".to_string() };
    press(&mut app, key_char('y'));
    assert!(matches!(app.mode, Mode::Normal));
    assert_eq!(app.device_count(), initial_count - 1);
    assert!(app.servers.is_empty());
}

#[test]
fn confirm_delete_y_deletes_client() {
    let mut app = setup_app_with_devices();
    let initial_count = app.device_count();
    app.device_index = 1;
    app.mode = Mode::ConfirmDelete { name: "client1".to_string(), device_type: "client".to_string() };
    press(&mut app, key_char('y'));
    assert!(matches!(app.mode, Mode::Normal));
    assert_eq!(app.device_count(), initial_count - 1);
    assert!(app.clients.is_empty());
    assert_eq!(app.device_index, 0);
}

#[test]
fn device_list_e_opens_edit_for_server() {
    let mut app = setup_app_with_devices();
    app.panel = Panel::DeviceList;
    app.device_index = 0;
    press(&mut app, key_char('e'));
    assert!(matches!(app.mode, Mode::EditServer { .. }));
    assert_eq!(app.form_fields[0].value(), "1.2.3.4");
    assert_eq!(app.form_fields[1].value(), "51820");
}

#[test]
fn device_list_e_opens_edit_for_client() {
    let mut app = setup_app_with_devices();
    app.panel = Panel::DeviceList;
    app.device_index = 1;
    press(&mut app, key_char('e'));
    assert!(matches!(app.mode, Mode::EditClient { .. }));
}

#[test]
fn device_list_d_opens_confirm_delete_for_server() {
    let mut app = setup_app_with_devices();
    app.panel = Panel::DeviceList;
    app.device_index = 0;
    press(&mut app, key_char('d'));
    if let Mode::ConfirmDelete { name, device_type } = &app.mode {
        assert_eq!(name, "srv1");
        assert_eq!(device_type, "server");
    } else {
        panic!("expected a confirmation");
    }
}

#[test]
fn device_list_d_opens_confirm_delete_for_client() {
    let mut app = setup_app_with_devices();
    app.panel = Panel::DeviceList;
    app.device_index = 1;
    press(&mut app, key_char('d'));
    if let Mode::ConfirmDelete { name, device_type } = &app.mode {
        assert_eq!(name, "client1");
        assert_eq!(device_type, "client");
    } else {
        panic!("expected a confirmation");
    }
}

#[test]
fn device_list_e_noop_when_empty() {
    let mut app = setup_app();
    app.panel = Panel::DeviceList;
    press(&mut app, key_char('e'));
    assert!(matches!(app.mode, Mode::Normal));
}

#[test]
fn device_list_d_noop_when_empty() {
    let mut app = setup_app();
    app.panel = Panel::DeviceList;
    press(&mut app, key_char('d'));
    assert!(matches!(app.mode, Mode::Normal));
}

#[test]
fn add_server_form_requires_initialized_network() {
    let mut app = setup_app();
    app.mode = Mode::ChooseDeviceType;
    press(&mut app, key_char('s'));
    assert!(matches!(app.mode, Mode::Normal));
    assert!(app.status.contains("not initialized"));
}

#[test]
fn add_client_form_requires_initialized_network() {
    let mut app = setup_app();
    app.mode = Mode::ChooseDeviceType;
    press(&mut app, key_char('c'));
    assert!(matches!(app.mode, Mode::Normal));
    assert!(app.status.contains("not initialized"));
}

#[test]
fn handle_operation_result_sets_status_from_success() {
    let mut app = setup_app();
    let result = OperationResult {
        messages: vec![Message { kind: MessageKind::Success, text: "Operation completed".to_string() }],
        backup_path: None,
        save_needed: true,
    };
    app.handle_operation_result(&result);
    assert_eq!(app.status, "Operation completed");
}

#[test]
fn handle_operation_result_appends_to_logs() {
    let mut app = setup_app();
    let result = OperationResult {
        messages: vec![
            Message { kind: MessageKind::Success, text: "done".to_string() },
            Message { kind: MessageKind::Info, text: "details".to_string() },
        ],
        backup_path: None,
        save_needed: true,
    };
    app.handle_operation_result(&result);
    assert_eq!(app.logs.len(), 2);
    assert_eq!(app.logs[0].1, "done");
    assert_eq!(app.logs[1].1, "details");
}

#[test]
fn handle_operation_result_no_success_leaves_status_unchanged() {
    let mut app = setup_app();
    app.status = "previous status".to_string();
    let result = OperationResult {
        messages: vec![Message { kind: MessageKind::Info, text: "info only".to_string() }],
        backup_path: None,
        save_needed: true,
    };
    app.handle_operation_result(&result);
    assert_eq!(app.status, "previous status");
    assert_eq!(app.logs.len(), 1);
}

#[test]
fn persist_failure_is_reported_and_keeps_form() {
    let mut app = setup_app_with_network();
    app.form_fields = vec![TextInput::with_value("c9")];
    app.form_labels = vec!["Name"];
    app.form_focus = FormFocus::Submit;
    app.mode = Mode::AddClient;
    match app.handle_key(key(KeyCode::Enter), &env()) {
        Request::Persist { backup } => assert!(backup.is_none()),
        _ => panic!("expected a write request"),
    }
    app.finish_persist(Err("Failed to write data.json".to_string()));
    assert_eq!(app.status, "Error: Failed to write data.json");
    assert!(matches!(app.mode, Mode::AddClient));
}

#[test]
fn reinit_asks_for_backup() {
    let mut app = setup_app_with_devices();
    app.force_init = true;
    app.open_init_form();
    let e = Env { data_file_exists: true, backup_path: "data/data-7.json.bak".to_string() };
    app.form_focus = FormFocus::Submit;
    match app.handle_key(key(KeyCode::Enter), &e) {
        Request::Persist { backup } => assert_eq!(backup.as_deref(), Some("data/data-7.json.bak")),
        _ => panic!("expected a write request"),
    }
    app.finish_persist(Ok(()));
    assert!(!app.force_init);
    assert_eq!(app.device_count(), 0);
}
