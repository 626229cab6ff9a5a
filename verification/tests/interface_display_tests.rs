use xjtuportal::display::{
    account_session_tables, char_display_width, session_table, config_load_exit_code, display_name, display_value, exit_code_for_error,
    pad_display, run_exit_code, terminal_display_width, token_preview,
};
use xjtuportal::error::PortalError;
use xjtuportal::interface::{
    mac_from_ifconfig_output, mac_from_sysfs, select_interface_for_ip, select_interface_ipv4,
    usable_ipv4, InterfaceAddress, IpAddr,
};
use xjtuportal::{AccountSessions, RunStatus};

fn addr(name: &str, ip: IpAddr) -> InterfaceAddress {
    InterfaceAddress { name: name.to_string(), addr: ip }
}

#[test]
fn usable_ipv4_excludes_special_addresses() {
    assert!(usable_ipv4(IpAddr::V4(10, 180, 0, 10)));
    assert!(!usable_ipv4(IpAddr::V4(127, 0, 0, 1)));
    assert!(!usable_ipv4(IpAddr::V4(169, 254, 1, 1)));
    assert!(!usable_ipv4(IpAddr::V4(0, 0, 0, 0)));
    assert!(!usable_ipv4(IpAddr::V6(0xfe80, 0, 0, 0, 0, 0, 0, 1)));
    assert_eq!(IpAddr::from_octets([1, 2, 3, 4]), IpAddr::V4(1, 2, 3, 4));
    assert_eq!(
        IpAddr::from_segments([1, 2, 3, 4, 5, 6, 7, 8]),
        IpAddr::V6(1, 2, 3, 4, 5, 6, 7, 8)
    );
}

#[test]
fn interface_selection_from_a_listing() {
    let list = vec![
        addr("lo", IpAddr::V4(127, 0, 0, 1)),
        addr("eth0", IpAddr::V4(169, 254, 3, 3)),
        addr("eth0", IpAddr::V6(0xfe80, 0, 0, 0, 0, 0, 0, 2)),
        addr("eth0", IpAddr::V4(10, 180, 0, 10)),
        addr("eth1", IpAddr::V4(10, 180, 0, 11)),
    ];
    assert_eq!(select_interface_ipv4("eth0", &list), Some(IpAddr::V4(10, 180, 0, 10)));
    assert_eq!(select_interface_ipv4("lo", &list), None);
    assert_eq!(select_interface_ipv4("wlan0", &list), None);
    assert_eq!(
        select_interface_for_ip(IpAddr::V4(10, 180, 0, 11), &list).as_deref(),
        Some("eth1")
    );
    assert_eq!(select_interface_for_ip(IpAddr::V4(1, 1, 1, 1), &list), None);
}

#[test]
fn mac_from_ifconfig_and_sysfs() {
    let output = "en0: flags=8863<UP> mtu 1500\n\toptions=400<CHANNEL_IO>\n\tether a4:83:e7:00:11:22 \n\tinet 10.0.0.2 netmask 0xffffff00\n";
    assert_eq!(mac_from_ifconfig_output(output).as_deref(), Some("a4:83:e7:00:11:22"));
    assert_eq!(mac_from_ifconfig_output("lo0: flags=8049<UP>\n\tinet 127.0.0.1\n"), None);
    assert_eq!(mac_from_ifconfig_output("\tether \n\tether 11:22:33:44:55:66\r\n").as_deref(), Some("11:22:33:44:55:66"));
    assert_eq!(mac_from_sysfs("aa:bb:cc:dd:ee:ff\n").as_deref(), Some("aa:bb:cc:dd:ee:ff"));
    assert_eq!(mac_from_sysfs(" \n"), None);
}

#[test]
fn display_widths_and_padding() {
    assert_eq!(char_display_width('a'), 1);
    assert_eq!(char_display_width('中'), 2);
    assert_eq!(char_display_width('\u{7}'), 0);
    assert_eq!(terminal_display_width("ab中文"), 6);
    assert_eq!(pad_display("中", 4), "中  ");
    assert_eq!(pad_display("abcdef", 3), "abcdef");
    assert_eq!(display_name(""), "未知");
    assert_eq!(display_name("phone"), "phone");
    assert_eq!(display_value(""), "-");
    assert_eq!(display_value("PC"), "PC");
}

#[test]
fn exit_codes() {
    assert_eq!(run_exit_code(RunStatus::Success), None);
    assert_eq!(run_exit_code(RunStatus::PartialFailure), Some(1));
    assert_eq!(exit_code_for_error(&PortalError::InvalidConfig("x".to_string())), 2);
    assert_eq!(exit_code_for_error(&PortalError::MissingToken), 1);
    assert_eq!(config_load_exit_code(&PortalError::InvalidConfig("x".to_string())), 2);
    let io = std::io::Error::new(std::io::ErrorKind::NotFound, "missing");
    assert_eq!(
        config_load_exit_code(&PortalError::ConfigRead { path: "c.toml".to_string(), source: io }),
        2
    );
    assert_eq!(config_load_exit_code(&PortalError::Decrypt), 1);
}

#[test]
fn token_preview_keeps_ten_characters() {
    assert_eq!(token_preview(None), None);
    assert_eq!(token_preview(Some("short")).as_deref(), Some("short"));
    assert_eq!(token_preview(Some("1234567890abcdef")).as_deref(), Some("1234567890"));
    assert_eq!(token_preview(Some("令牌令牌令牌令牌令牌令牌")).as_deref(), Some("令牌令牌令牌令牌令牌"));
}

fn named(name: &str, mac: &str, ip: &str, device: &str, start: &str) -> xjtuportal::NamedSession {
    xjtuportal::NamedSession {
        name: name.to_string(),
        mac: mac.to_string(),
        api_mac: mac.to_string(),
        device_type: device.to_string(),
        user_ip: ip.to_string(),
        start_time: start.to_string(),
        unique_id: "u".to_string(),
    }
}

#[test]
fn session_table_aligns_columns_and_fills_placeholders() {
    let lines = session_table(&vec![
        named("phone", "11:22:33:44:55:66", "10.180.0.3", "PC", "2026-05-15 12:01:00"),
        named("", "aa:bb:cc:dd:ee:ff", "", "", ""),
    ]);
    assert_eq!(lines.len(), 3);
    assert_eq!(lines[0], "名称       MAC                 IP               设备      登录时间");
    assert_eq!(lines[1], "phone      11:22:33:44:55:66   10.180.0.3       PC        2026-05-15 12:01:00");
    assert_eq!(lines[2], "未知       aa:bb:cc:dd:ee:ff   -                -         -");
}

#[test]
fn account_tables_are_separated_by_blank_lines() {
    let groups = vec![
        AccountSessions { account: "u1".to_string(), sessions: vec![] },
        AccountSessions {
            account: "u2".to_string(),
            sessions: vec![named("", "aa:bb:cc:dd:ee:ff", "1.2.3.4", "PC", "t")],
        },
    ];
    let lines = account_session_tables(&groups);
    assert_eq!(lines.len(), 6);
    assert_eq!(lines[0], "账号: u1");
    assert!(lines[1].starts_with("名称"));
    assert_eq!(lines[2], "");
    assert_eq!(lines[3], "账号: u2");
    assert!(lines[5].starts_with("未知"));
}
