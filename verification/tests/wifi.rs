use pipeshell::wifi::{parse_qr_code_string, split_fields, split_nonempty_fields, WifiType};

#[test]
fn wifi_type_from_wpa() {
    assert!(matches!(WifiType::from("WPA"), WifiType::WPA));
}

#[test]
fn wifi_type_from_wep() {
    assert!(matches!(WifiType::from("WEP"), WifiType::WEP));
}

#[test]
fn wifi_type_from_anything_else_is_blank() {
    assert!(matches!(WifiType::from("wpa"), WifiType::Blank));
    assert!(matches!(WifiType::from(""), WifiType::Blank));
    assert!(matches!(WifiType::from("WPA2"), WifiType::Blank));
}

#[test]
fn split_keeps_empty_fields() {
    assert_eq!(split_fields("a;;b", ';'), vec!["a", "", "b"]);
    assert_eq!(split_fields("", ';'), vec![""]);
    assert_eq!(split_fields("x:y", ':'), vec!["x", "y"]);
    assert_eq!(split_fields("tail;", ';'), vec!["tail", ""]);
}

#[test]
fn split_nonempty_drops_empty_fields() {
    assert_eq!(split_nonempty_fields("a;;b;", ';'), vec!["a", "b"]);
    assert_eq!(split_nonempty_fields("", ';'), Vec::<String>::new());
    assert_eq!(split_nonempty_fields(";;;", ';'), Vec::<String>::new());
}

#[test]
fn parse_well_formed_wifi_payload() {
    let code = "WIFI:S:homenet;T:WPA;P:hunter2;;".to_string();
    let wifi = parse_qr_code_string(&code).expect("a well-formed payload parses");
    assert_eq!(wifi.ssid_name, "homenet");
    assert!(matches!(wifi.wifi_type, WifiType::WPA));
    assert_eq!(wifi.password, "hunter2");
}

#[test]
fn parse_wep_payload() {
    let code = "WIFI:S:oldnet;T:WEP;P:12345;;".to_string();
    let wifi = parse_qr_code_string(&code).expect("a well-formed payload parses");
    assert!(matches!(wifi.wifi_type, WifiType::WEP));
}

#[test]
fn parse_unknown_type_is_blank() {
    let code = "WIFI:S:opennet;T:;P:;;".to_string();
    let wifi = parse_qr_code_string(&code).expect("empty type and password still parse");
    assert!(matches!(wifi.wifi_type, WifiType::Blank));
    assert_eq!(wifi.password, "");
}

#[test]
fn parse_empty_payload_is_rejected() {
    assert!(parse_qr_code_string(&String::new()).is_none());
}

#[test]
fn parse_payload_without_wifi_marker_is_rejected() {
    assert!(parse_qr_code_string(&"MECARD:N:Doe;A:x;B:y;;".to_string()).is_none());
}

#[test]
fn parse_payload_with_too_few_fields_is_rejected() {
    assert!(parse_qr_code_string(&"WIFI".to_string()).is_none());
    assert!(parse_qr_code_string(&"WIFI:S:net;T:WPA".to_string()).is_none());
}

#[test]
fn parse_payload_with_missing_parts_is_rejected() {
    assert!(parse_qr_code_string(&"WIFI:S;T:WPA;P:x".to_string()).is_none());
}
