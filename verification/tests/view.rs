use wireguard_manager::manager::types::{ClientEntry, DeviceInfo, NetworkInfo, ServerEntry};
use wireguard_manager::names::NameMap;
use wireguard_manager::tui::app::Mode;
use wireguard_manager::tui::view::{
    capacity_label, centered, choose_device_lines, config_line_segments, config_preview_lines,
    confirm_delete_lines, confirm_reinit_lines, device_detail_lines, device_table_rows, form_size, form_title,
    help_text_lines, hint_segments, log_view_lines, not_initialized_lines, overview_lines,
    preview_title, shadow_area, status_line, Area, Hue, Segment, Tone,
};

fn texts(line: &[Segment]) -> Vec<String> {
    line.iter().map(|s| s.text.clone()).collect()
}

fn tones(line: &[Segment]) -> Vec<Tone> {
    line.iter().map(|s| s.tone).collect()
}

fn plain(hue: Hue) -> Tone {
    Tone { hue, bold: false }
}

fn bold(hue: Hue) -> Tone {
    Tone { hue, bold: true }
}

#[test]
fn detail_lines_for_server() {
    let info = DeviceInfo::Server {
        name: "srv1".to_string(),
        ip: "10.0.0.1".to_string(),
        public_ip: "1.2.3.4".to_string(),
        listen_port: 51820,
        private_key: "priv".to_string(),
        public_key: "pub".to_string(),
        preshared_keys_count: 3,
    };
    let lines = device_detail_lines(&info);
    assert_eq!(lines.len(), 7);
    assert_eq!(texts(&lines[0]), vec!["\u{25A0} Server: ", "srv1"]);
    assert_eq!(tones(&lines[0]), vec![bold(Hue::Cyan), bold(Hue::Primary)]);
    assert_eq!(texts(&lines[3]), vec!["Port:         ", "51820"]);
    assert_eq!(tones(&lines[3]), vec![plain(Hue::Secondary), plain(Hue::Primary)]);
    assert_eq!(texts(&lines[6]), vec!["PSK Count:    ", "3"]);
}

#[test]
fn detail_lines_for_client() {
    let info = DeviceInfo::Client {
        name: "laptop".to_string(),
        ip: "10.0.0.11".to_string(),
        private_key: "priv".to_string(),
        public_key: "pub".to_string(),
    };
    let lines = device_detail_lines(&info);
    assert_eq!(lines.len(), 4);
    assert_eq!(texts(&lines[0]), vec!["\u{25CF} Client: ", "laptop"]);
    assert_eq!(tones(&lines[0])[0], bold(Hue::Magenta));
    assert_eq!(texts(&lines[1]), vec!["Internal IP:  ", "10.0.0.11"]);
    assert_eq!(texts(&lines[3]), vec!["Public Key:   ", "pub"]);
}

#[test]
fn help_lists_every_binding() {
    let lines = help_text_lines();
    assert_eq!(lines.len(), 26);
    assert_eq!(texts(&lines[0]), vec![" Navigation"]);
    assert_eq!(tones(&lines[0]), vec![bold(Hue::Orange)]);
    assert_eq!(texts(&lines[1]), vec!["  TAB / SHIFT+TAB  ", "Switch Panel"]);
    assert_eq!(tones(&lines[1]), vec![bold(Hue::Teal), plain(Hue::Secondary)]);
    assert!(lines[4].is_empty());
    assert_eq!(texts(&lines[25]), vec!["  CTRL+C           ", "Force Quit"]);
}

#[test]
fn config_section_header_is_orange_bold() {
    let line = config_line_segments("[Interface]");
    assert_eq!(texts(&line), vec!["[Interface]"]);
    assert_eq!(tones(&line), vec![bold(Hue::Orange)]);
}

#[test]
fn config_section_header_with_surrounding_spaces() {
    let line = config_line_segments("  [Peer]  ");
    assert_eq!(texts(&line), vec!["  [Peer]  "]);
    assert_eq!(tones(&line), vec![bold(Hue::Orange)]);
}

#[test]
fn config_setting_splits_at_first_equals() {
    let line = config_line_segments("PresharedKey = abc=");
    assert_eq!(texts(&line), vec!["PresharedKey ", "=", " abc="]);
    assert_eq!(tones(&line), vec![plain(Hue::Teal), plain(Hue::Muted), plain(Hue::Primary)]);
}

#[test]
fn config_other_line_is_primary() {
    let line = config_line_segments("# comment");
    assert_eq!(texts(&line), vec!["# comment"]);
    assert_eq!(tones(&line), vec![plain(Hue::Primary)]);
    let open = config_line_segments("[unclosed");
    assert_eq!(tones(&open), vec![plain(Hue::Primary)]);
}

#[test]
fn preview_splits_lines_like_str_lines() {
    let lines = config_preview_lines("[Interface]\r\nAddress = 10.0.0.1/24\n\nx\n");
    assert_eq!(lines.len(), 4);
    assert_eq!(texts(&lines[0]), vec!["[Interface]"]);
    assert_eq!(texts(&lines[1]), vec!["Address ", "=", " 10.0.0.1/24"]);
    assert_eq!(texts(&lines[2]), vec![""]);
    assert_eq!(texts(&lines[3]), vec!["x"]);
    assert!(config_preview_lines("").is_empty());
}

#[test]
fn log_lines_wrap_after_the_stamp() {
    let logs = vec![("[ts]".to_string(), "abcdefg".to_string())];
    // 25 columns leave 3 for the message.
    let lines = log_view_lines(&logs, 25, 10);
    assert_eq!(lines.len(), 3);
    assert_eq!(texts(&lines[0]), vec!["[ts] ", "abc"]);
    assert_eq!(tones(&lines[0]), vec![plain(Hue::Muted), plain(Hue::Primary)]);
    assert_eq!(texts(&lines[1]), vec![" ".repeat(22), "def".to_string()]);
    assert_eq!(tones(&lines[1])[0], plain(Hue::Plain));
    assert_eq!(texts(&lines[2]), vec![" ".repeat(22), "g".to_string()]);
}

#[test]
fn log_lines_keep_the_newest() {
    let logs = vec![
        ("[1]".to_string(), "first".to_string()),
        ("[2]".to_string(), "".to_string()),
        ("[3]".to_string(), "third".to_string()),
    ];
    let lines = log_view_lines(&logs, 80, 2);
    assert_eq!(lines.len(), 2);
    assert_eq!(texts(&lines[0]), vec!["[2] ", ""]);
    assert_eq!(texts(&lines[1]), vec!["[3] ", "third"]);
    // No room after the stamp: one line per entry.
    assert_eq!(log_view_lines(&logs, 10, 5).len(), 3);
}

#[test]
fn capacity_label_counts_free_places() {
    assert_eq!(capacity_label(3, 10), "3/10 (7 free)");
    assert_eq!(capacity_label(12, 10), "12/10 (0 free)");
}

#[test]
fn hint_segments_separate_pairs() {
    let line = hint_segments(&[("A", "Add"), ("E", "Edit")]);
    assert_eq!(texts(&line), vec!["A", ":Add", "  ", "E", ":Edit"]);
    assert_eq!(tones(&line)[0], bold(Hue::Orange));
    assert_eq!(tones(&line)[1], plain(Hue::Muted));
    assert_eq!(tones(&line)[2], plain(Hue::Plain));
    assert!(hint_segments(&[]).is_empty());
}

#[test]
fn status_line_pads_to_the_right() {
    let line = status_line(40);
    assert_eq!(texts(&line), vec!["\u{2714} ".to_string(), "Ready".to_string(), " ".repeat(6), "Q:Quit  ?:Help  TAB:Panel".to_string()]);
    assert_eq!(status_line(10)[2].text, "");
}

#[test]
fn centered_box_in_area() {
    let a = centered(48, 7, Area { x: 0, y: 0, width: 100, height: 30 });
    assert_eq!(a, Area { x: 26, y: 11, width: 48, height: 7 });
    let small = centered(48, 7, Area { x: 2, y: 1, width: 20, height: 5 });
    assert_eq!(small, Area { x: 2, y: 1, width: 20, height: 5 });
}

#[test]
fn shadow_is_clipped_to_screen() {
    let s = shadow_area(Area { x: 10, y: 5, width: 20, height: 10 }, 25, 12);
    assert_eq!(s, Some(Area { x: 12, y: 6, width: 13, height: 6 }));
    assert_eq!(shadow_area(Area { x: 30, y: 5, width: 5, height: 5 }, 25, 12), None);
}

#[test]
fn form_size_grows_with_fields() {
    assert_eq!(form_size(3, 100), (56, 18));
    assert_eq!(form_size(2, 30), (26, 14));
}

#[test]
fn form_titles() {
    assert_eq!(form_title(&Mode::AddServer).as_deref(), Some("Add Server"));
    assert_eq!(form_title(&Mode::EditClient { name: "c1".to_string() }).as_deref(), Some("Edit Client: c1"));
    assert_eq!(form_title(&Mode::Normal), None);
}

#[test]
fn preview_titles() {
    assert_eq!(preview_title(&Some("srv1".to_string())), "Config: srv1.conf");
    assert_eq!(preview_title(&None), "Config Preview");
}

#[test]
fn dialog_texts() {
    let del = confirm_delete_lines("srv1", "server");
    assert_eq!(del.len(), 4);
    assert_eq!(texts(&del[1]), vec!["Delete server ", "'srv1'", "?"]);
    assert_eq!(tones(&del[1])[1], bold(Hue::Red));
    assert_eq!(texts(&del[3]), vec![" [Y] ", "Yes   ", " [N] ", "No"]);
    let re = confirm_reinit_lines();
    assert_eq!(texts(&re[2]), vec!["All existing devices will be removed!"]);
    let choose = choose_device_lines();
    assert_eq!(texts(&choose[3])[0], " [S] ");
    let ni = not_initialized_lines();
    assert_eq!(texts(&ni[1]), vec!["Press ", "[CTRL+I]", " to initialize the network"]);
}

#[test]
fn overview_shows_ranges() {
    let info = NetworkInfo {
        subnet: "10.0.0.0/24".to_string(),
        server_start_ip: 0x0A00_0001,
        server_end_ip: 0x0A00_000A,
        client_start_ip: 0x0A00_000B,
        client_end_ip: 0x0A00_00FE,
        server_range_offsets: (1, 10),
        client_start_offset: 11,
        max_host_offset: 254,
        server_count: 0,
        server_capacity: 10,
        client_count: 0,
        client_capacity: 244,
    };
    let lines = overview_lines(&info);
    assert_eq!(texts(&lines[0]), vec!["Subnet:       ", "10.0.0.0/24"]);
    assert_eq!(texts(&lines[1]), vec!["Server range: ", "10.0.0.1 - 10.0.0.10"]);
    assert_eq!(texts(&lines[2]), vec!["Client range: ", "10.0.0.11 - 10.0.0.254"]);
}

#[test]
fn hint_line_empty_pairs_returns_empty_line() {
    let line = hint_segments(&[]);
    assert!(line.is_empty());
}

#[test]
fn hint_line_single_pair() {
    let line = hint_segments(&[("Q", "Quit")]);
    assert_eq!(line.len(), 2);
    assert_eq!(line[0].text, "Q");
    assert_eq!(line[1].text, ":Quit");
}

#[test]
fn hint_line_multiple_pairs_have_separators() {
    let line = hint_segments(&[("Q", "Quit"), ("?", "Help")]);
    assert_eq!(line.len(), 5);
    assert_eq!(line[2].text, "  ");
    assert_eq!(line[3].text, "?");
    assert_eq!(line[4].text, ":Help");
}

#[test]
fn hint_line_key_style_is_orange_bold() {
    let line = hint_segments(&[("TAB", "Panel")]);
    assert_eq!(line[0].tone, bold(Hue::Orange));
}

#[test]
fn device_table_lists_servers_then_clients() {
    let server = |name: &str, ip: &str| ServerEntry {
        name: name.to_string(),
        ip: ip.to_string(),
        public_ip: "1.2.3.4".to_string(),
        listen_port: 51820,
        private_key: "priv".to_string(),
        public_key: "pub".to_string(),
        preshared_keys: NameMap::new(),
    };
    let client = |name: &str, ip: &str| ClientEntry {
        name: name.to_string(),
        ip: ip.to_string(),
        private_key: "priv".to_string(),
        public_key: "pub".to_string(),
    };
    let servers = vec![server("alpha", "10.0.0.1"), server("beta", "10.0.0.2")];
    let clients = vec![client("laptop", "10.0.0.3")];
    let rows = device_table_rows(&servers, &clients);
    assert_eq!(rows.len(), 3);
    assert_eq!(texts(&rows[0]), vec!["Server", "alpha", "10.0.0.1"]);
    assert_eq!(texts(&rows[1]), vec!["Server", "beta", "10.0.0.2"]);
    assert_eq!(texts(&rows[2]), vec!["Client", "laptop", "10.0.0.3"]);
    assert_eq!(tones(&rows[0]), vec![plain(Hue::Cyan), plain(Hue::Primary), plain(Hue::Primary)]);
    assert_eq!(tones(&rows[2]), vec![plain(Hue::Magenta), plain(Hue::Primary), plain(Hue::Primary)]);
    assert!(device_table_rows(&Vec::new(), &Vec::new()).is_empty());
}
