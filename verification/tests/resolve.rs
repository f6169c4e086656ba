use hosts_manager::dns_lookup::{first_address, is_ip, plan_lookup, ResolveError, DNS_PORT};

const SAMPLES: [(&str, bool); 78] = [
    ("", false),
    (" ", false),
    ("0.0.0.0", true),
    ("127.0.0.1", true),
    ("255.255.255.255", true),
    ("256.0.0.1", false),
    ("999.999.999.999", false),
    ("1.2.3", false),
    ("1.2.3.4.5", false),
    ("1.2.3.", false),
    (".1.2.3", false),
    ("1..2.3", false),
    ("01.2.3.4", false),
    ("1.2.3.04", false),
    ("00.0.0.0", false),
    ("1.2.3.4 ", false),
    (" 1.2.3.4", false),
    ("1.2.3.a", false),
    ("1.2.3.-4", false),
    ("+1.2.3.4", false),
    ("1.2.3.1000", false),
    ("1.2.3.0256", false),
    ("\u{661}.2.3.4", false),
    ("8.8.8.8", true),
    ("::", true),
    ("::1", true),
    ("1::", true),
    (":", false),
    (":::", false),
    ("::::", false),
    ("1:2:3:4:5:6:7:8", true),
    ("1:2:3:4:5:6:7", false),
    ("1:2:3:4:5:6:7:8:9", false),
    ("1:2:3:4:5:6:7::", true),
    ("::2:3:4:5:6:7:8", true),
    ("1:2:3:4:5:6:7:8::", false),
    ("::1:2:3:4:5:6:7:8", false),
    ("1:2:3:4::5:6:7:8", false),
    ("1:2:3:4::5:6:7", true),
    ("1::2::3", false),
    ("1:::2", false),
    (":1", false),
    ("1:", false),
    ("1::2:", false),
    (":1::2", false),
    ("fe80::1ff:fe23:4567:890a", true),
    ("FE80::1FF:FE23:4567:890A", true),
    ("fe80::1ff:fe23:4567:890g", false),
    ("12345::", false),
    ("::12345", false),
    ("0000:0000:0000:0000:0000:0000:0000:0000", true),
    ("::ffff:1.2.3.4", true),
    ("::1.2.3.4", true),
    ("1.2.3.4::", false),
    ("1.2.3.4::1", false),
    ("::1.2.3.4:5", false),
    ("::1.2.3", false),
    ("::1.2.3.256", false),
    ("::01.2.3.4", false),
    ("1:2:3:4:5:6:1.2.3.4", true),
    ("1:2:3:4:5:1.2.3.4", false),
    ("1:2:3:4:5:6:7:1.2.3.4", false),
    ("1:2:3:4:5::1.2.3.4", true),
    ("1:2:3:4:5:6::1.2.3.4", false),
    ("::1:2:3:4:5:1.2.3.4", true),
    ("::1:2:3:4:5:6:1.2.3.4", false),
    ("1::1.2.3.4", true),
    ("1:1.2.3.4::", false),
    ("fe80::1%eth0", false),
    ("[::1]", false),
    ("::1 ", false),
    ("localhost", false),
    ("bogus.invalid", false),
    ("1.2.3.4:53", false),
    ("a::b", true),
    ("g::", false),
    ("::0.0.0.0", true),
    ("0::0", true),
];

#[test]
fn is_ip_decides_each_text_of_a_table() {
    for (text, expected) in SAMPLES {
        assert_eq!(is_ip(text), expected, "{:?}", text);
    }
}

#[test]
fn is_ip_takes_dotted_quads() {
    assert!(is_ip("0.0.0.0"));
    assert!(is_ip("192.168.1.5"));
    assert!(is_ip("255.255.255.255"));
}

#[test]
fn is_ip_refuses_what_is_no_dotted_quad() {
    assert!(!is_ip("999.999.999.999"));
    assert!(!is_ip("256.1.1.1"));
    assert!(!is_ip("1.2.3"));
    assert!(!is_ip("1.2.3.4.5"));
    assert!(!is_ip("01.2.3.4"));
    assert!(!is_ip("1.2.3.4 "));
    assert!(!is_ip(""));
}

#[test]
fn is_ip_takes_the_forms_of_an_ipv6_address() {
    assert!(is_ip("::"));
    assert!(is_ip("::1"));
    assert!(is_ip("1::"));
    assert!(is_ip("1:2:3:4:5:6:7:8"));
    assert!(is_ip("1:2:3:4:5:6:7::"));
    assert!(is_ip("2001:db8::ff00:42:8329"));
    assert!(is_ip("::ffff:192.0.2.128"));
    assert!(is_ip("1:2:3:4:5:6:1.2.3.4"));
    assert!(is_ip("ABCD:ef01::"));
}

#[test]
fn is_ip_refuses_what_is_no_ipv6_address() {
    assert!(!is_ip(":"));
    assert!(!is_ip(":::"));
    assert!(!is_ip("1:2:3:4:5:6:7"));
    assert!(!is_ip("1:2:3:4:5:6:7:8:9"));
    assert!(!is_ip("1:2:3:4:5:6:7:8::"));
    assert!(!is_ip("1::2::3"));
    assert!(!is_ip("12345::"));
    assert!(!is_ip("1.2.3.4::"));
    assert!(!is_ip("1:2:3:4:5:6::1.2.3.4"));
    assert!(!is_ip("fe80::1%eth0"));
}

#[test]
fn an_empty_server_asks_for_the_default_resolver() {
    let plan = plan_lookup("example.org", "").unwrap();
    assert_eq!(plan.hostname, "example.org");
    assert_eq!(plan.server, None);
    assert_eq!(plan.port, 53);
    assert_eq!(DNS_PORT, 53);
}

#[test]
fn an_address_asks_for_that_server() {
    let plan = plan_lookup("example.org", "9.9.9.9").unwrap();
    assert_eq!(plan.hostname, "example.org");
    assert_eq!(plan.server, Some("9.9.9.9".to_string()));
    assert_eq!(plan.port, 53);
    let plan = plan_lookup("h", "2620:fe::fe").unwrap();
    assert_eq!(plan.server, Some("2620:fe::fe".to_string()));
}

#[test]
fn a_server_that_is_no_address_is_refused_before_any_lookup() {
    match plan_lookup("bogus.invalid", "999.999.999.999") {
        Err(ResolveError::InvalidDnsServer(text)) => assert_eq!(text, "999.999.999.999"),
        other => panic!("{:?}", other),
    }
    match plan_lookup("example.org", "dns.example.org") {
        Err(e) => assert_eq!(
            e.message(),
            "Invalid DNS server IP 'dns.example.org': invalid IP address syntax"
        ),
        other => panic!("{:?}", other),
    }
    assert!(plan_lookup("example.org", " ").is_err());
}

#[test]
fn the_first_address_is_the_result() {
    let got = first_address(
        "example.org",
        Ok(vec!["93.184.216.34".to_string(), "2606:2800:220:1::1".to_string()]),
    );
    assert_eq!(got.unwrap(), "93.184.216.34");
}

#[test]
fn no_address_is_an_error_of_its_own() {
    match first_address("example.org", Ok(vec![])) {
        Err(ResolveError::NoAddress) => {}
        other => panic!("{:?}", other),
    }
    assert_eq!(ResolveError::NoAddress.message(), "No IP addresses found for hostname");
}

#[test]
fn a_failed_lookup_keeps_its_reason() {
    match first_address("nowhere.invalid", Err("no record found".to_string())) {
        Err(ResolveError::LookupFailed { hostname, reason }) => {
            assert_eq!(hostname, "nowhere.invalid");
            assert_eq!(reason, "no record found");
        }
        other => panic!("{:?}", other),
    }
    let e = ResolveError::LookupFailed {
        hostname: "nowhere.invalid".to_string(),
        reason: "no record found".to_string(),
    };
    assert_eq!(e.message(), "Failed to resolve hostname 'nowhere.invalid': no record found");
}
