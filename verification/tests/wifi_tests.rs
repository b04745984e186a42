use esp_qq_bot::wifi::{
    check_wifi_status, find_channel, wifi_configuration, AccessPointInfo, ApIpStatus, ApStatus,
    ClientConnectionStatus, ClientIpStatus, ClientStatus, WifiError, WifiStatus,
};

fn ap(ssid: &str, channel: u8) -> AccessPointInfo {
    AccessPointInfo { ssid: ssid.to_string(), channel }
}

#[test]
fn finds_first_matching_channel() {
    let aps = vec![ap("other", 3), ap("SSID", 6), ap("SSID", 11)];
    assert_eq!(find_channel(&aps, &"SSID".to_string()), Some(6));
    assert_eq!(find_channel(&aps, &"missing".to_string()), None);
    assert_eq!(find_channel(&vec![], &"SSID".to_string()), None);
}

#[test]
fn configuration_with_found_channel() {
    let aps = vec![ap("SSID", 9)];
    let c = wifi_configuration(&aps, &"SSID".to_string(), &"PASS".to_string());
    assert_eq!(c.client.ssid, "SSID");
    assert_eq!(c.client.password, "PASS");
    assert_eq!(c.client.channel, Some(9));
    assert_eq!(c.access_point.ssid, "aptest");
    assert_eq!(c.access_point.channel, 9);
}

#[test]
fn configuration_without_found_channel() {
    let aps = vec![ap("x", 4)];
    let c = wifi_configuration(&aps, &"SSID".to_string(), &"PASS".to_string());
    assert_eq!(c.client.channel, None);
    assert_eq!(c.access_point.channel, 1);
}

#[test]
fn connected_status_gives_address() {
    let s = WifiStatus {
        client: ClientStatus::Started(ClientConnectionStatus::Connected(ClientIpStatus::Done([192, 168, 1, 5]))),
        access_point: ApStatus::Started(ApIpStatus::Done),
    };
    assert_eq!(check_wifi_status(s), Ok([192, 168, 1, 5]));
}

#[test]
fn other_status_is_unexpected() {
    let s = WifiStatus {
        client: ClientStatus::Started(ClientConnectionStatus::Connected(ClientIpStatus::Waiting)),
        access_point: ApStatus::Started(ApIpStatus::Done),
    };
    assert_eq!(check_wifi_status(s), Err(WifiError::UnexpectedStatus(s)));
    let s2 = WifiStatus {
        client: ClientStatus::Started(ClientConnectionStatus::Connected(ClientIpStatus::Done([1, 2, 3, 4]))),
        access_point: ApStatus::Starting,
    };
    assert_eq!(check_wifi_status(s2), Err(WifiError::UnexpectedStatus(s2)));
}
