use netcap::application_state::{
    default_db_dir, default_db_name, default_print_to_console, default_settings_dir,
    settings_file_path, Settings, SettingsSource, State, StateError,
};
use netcap::ip::{InternetProtocol, TransportProtocol};
use netcap::network::{active_interface_indices, find_interface, DisplayIpAddr, DisplayMacAddr, NetInterface};
use netcap::settings::create_settings;

#[test]
fn defaults() {
    assert_eq!(default_settings_dir(), "settings");
    assert_eq!(default_db_dir(), ".");
    assert_eq!(default_db_name(), "main.db");
    assert!(!default_print_to_console());
    assert_eq!(settings_file_path(), "settings/settings.json");
    create_settings();
}

#[test]
fn new_settings_file() {
    let s = Settings::new_file_settings();
    assert_eq!(s.path, "settings/settings.json");
    assert_eq!(s.db_dir, ".");
    assert_eq!(s.db_name, "main.db");
    assert!(s.print_to_console);
    assert!(matches!(Settings::create_new_plan(Some(true)), Err(StateError::AlreadyExists)));
    assert!(Settings::create_new_plan(Some(false)).is_ok());
    assert!(Settings::create_new_plan(None).is_ok());
}

#[test]
fn loading_settings() {
    assert_eq!(Settings::get_plan(Ok(false)).ok(), Some(SettingsSource::CreateThenRead));
    assert_eq!(Settings::get_plan(Ok(true)).ok(), Some(SettingsSource::Read));
    match Settings::get_plan(Err("denied".to_string())) {
        Err(StateError::Io(m)) => assert_eq!(m, "denied"),
        _ => panic!("expected an I/O error"),
    }
}

#[test]
fn state_starts_without_captures() {
    let st = State::init(Settings::new_file_settings());
    assert_eq!(st.capture_count, 0);
    assert_eq!(st.settings.db_name, "main.db");
}

#[test]
fn protocols() {
    assert_eq!(InternetProtocol::from_ether_type(0x0800), InternetProtocol::Ipv4);
    assert_eq!(InternetProtocol::from_ether_type(0x86DD), InternetProtocol::Ipv6);
    assert_eq!(TransportProtocol::from_next_header(6), TransportProtocol::Tcp);
    assert_eq!(TransportProtocol::from_next_header(17), TransportProtocol::Udp);
    assert_eq!(TransportProtocol::from_next_header(1), TransportProtocol::Icmp);
    assert_eq!(TransportProtocol::from_next_header(58), TransportProtocol::IcmpV6);
    assert_eq!(TransportProtocol::from_next_header(47), TransportProtocol::Unknown(47));
    assert_eq!(TransportProtocol::from_next_header(0), TransportProtocol::Unknown(0));
}

fn iface(index: u32, name: &str, is_up: bool, ips: &[&str]) -> NetInterface {
    NetInterface {
        index,
        name: name.to_string(),
        description: String::new(),
        is_up,
        ips: ips.iter().map(|s| s.to_string()).collect(),
        mac: None,
        flags: 0,
    }
}

#[test]
fn interfaces() {
    let list = vec![
        iface(1, "lo", true, &["127.0.0.1/8"]),
        iface(2, "eth0", false, &["10.0.0.2/24"]),
        iface(3, "wlan0", true, &[]),
        iface(4, "eth1", true, &["192.168.1.2/24", "fe80::1/64"]),
        iface(5, "eth1", true, &["1.1.1.1/32"]),
    ];
    assert_eq!(active_interface_indices(&list), vec![0, 3, 4]);
    assert_eq!(find_interface(&list, "eth1"), Some(3));
    assert_eq!(find_interface(&list, "eth9"), None);
    assert_eq!(DisplayIpAddr(list[3].ips.clone()).render(), "192.168.1.2/24, fe80::1/64");
    assert_eq!(DisplayIpAddr(Vec::new()).render(), "");
    assert_eq!(DisplayMacAddr(Some([0xde, 0xad, 0xbe, 0xef, 0x00, 0x0a])).render(), "de:ad:be:ef:00:0a");
    assert_eq!(DisplayMacAddr(None).render(), "N/A");
}
