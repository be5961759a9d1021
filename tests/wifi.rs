use labar::wifi::{collect_networks, network_list, parse_i32, wifi_enabled};

fn chars(s: &str) -> Vec<char> {
    s.chars().collect()
}

#[test]
fn decimal_parsing_matches_std() {
    for s in ["0", "42", "-7", "+13", "2147483647", "-2147483648", "2147483648", "", "-", "+", "4a", " 1", "99999999999", "007"] {
        assert_eq!(parse_i32(&chars(s)), s.parse::<i32>().ok(), "input {:?}", s);
    }
}

#[test]
fn listing_is_parsed_deduplicated_and_ranked() {
    let output = "Home:AA\\:BB:40:WPA2\n\
                  Cafe:CC\\:DD:90:--\n\
                  Home:EE\\:FF:99:WPA2\n\
                  --:11\\:22:80:WPA2\n\
                  :33\\:44:70:\n\
                  Office:55\\:66:x:WPA1\n\
                  short:line\n";
    let nets = network_list(output, " Home \n", "Home\nWork\n");
    let ssids: Vec<&str> = nets.iter().map(|n| n.ssid.as_str()).collect();
    assert_eq!(ssids, vec!["Home", "Cafe", "Office"]);
    assert!(nets[0].connected);
    assert!(nets[0].known);
    assert!(nets[0].secured);
    assert_eq!(nets[0].bssid, "AA:BB");
    assert_eq!(nets[0].signal, 40);
    assert!(!nets[1].secured);
    assert!(!nets[1].known);
    assert_eq!(nets[1].signal, 90);
    assert_eq!(nets[2].signal, 50);
}

#[test]
fn equal_rank_keeps_listing_order() {
    let output = "A:1:60:WPA2\nB:2:70:WPA2\nC:3:60:WPA2\n";
    let collected: Vec<String> = collect_networks(output, "", "").into_iter().map(|n| n.ssid).collect();
    assert_eq!(collected, vec!["A", "B", "C"]);
    let ranked: Vec<String> = network_list(output, "", "").into_iter().map(|n| n.ssid).collect();
    assert_eq!(ranked, vec!["B", "A", "C"]);
    assert!(network_list("", "", "").is_empty());
}

#[test]
fn radio_status() {
    assert!(wifi_enabled("enabled\n"));
    assert!(!wifi_enabled("disabled\n"));
}
