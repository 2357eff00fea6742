use bestbind::addr::is_valid_ip;

#[test]
fn accepts_plain_ipv4() {
    assert!(is_valid_ip("1.2.3.4"));
    assert!(is_valid_ip("0.0.0.0"));
    assert!(is_valid_ip("255.255.255.255"));
    assert!(is_valid_ip("192.168.1.1"));
    assert!(is_valid_ip("10.0.0.1"));
}

#[test]
fn rejects_malformed_ipv4() {
    assert!(!is_valid_ip(""));
    assert!(!is_valid_ip("1.2.3"));
    assert!(!is_valid_ip("1.2.3.4.5"));
    assert!(!is_valid_ip("256.1.1.1"));
    assert!(!is_valid_ip("01.1.1.1"));
    assert!(!is_valid_ip("1..2.3"));
    assert!(!is_valid_ip("1.2.3."));
    assert!(!is_valid_ip(".1.2.3"));
    assert!(!is_valid_ip("a.b.c.d"));
    assert!(!is_valid_ip("1.2.3.4 "));
    assert!(!is_valid_ip(" 1.2.3.4"));
    assert!(!is_valid_ip("1.2.3.1000"));
}

#[test]
fn accepts_ipv6_forms() {
    assert!(is_valid_ip("::"));
    assert!(is_valid_ip("::1"));
    assert!(is_valid_ip("1:2:3:4:5:6:7:8"));
    assert!(is_valid_ip("2001:db8::1"));
    assert!(is_valid_ip("fe80::"));
    assert!(is_valid_ip("1:2:3:4:5:6:7::"));
    assert!(is_valid_ip("::ffff:192.168.1.1"));
    assert!(is_valid_ip("1:2:3:4:5:6:1.2.3.4"));
    assert!(is_valid_ip("ABCD:EF01:2345:6789:abcd:ef01:2345:6789"));
    assert!(is_valid_ip("::8:9"));
    assert!(is_valid_ip("0:0:0:0:0:0:0:0"));
}

#[test]
fn rejects_malformed_ipv6() {
    assert!(!is_valid_ip(":"));
    assert!(!is_valid_ip(":::"));
    assert!(!is_valid_ip("1::2::3"));
    assert!(!is_valid_ip("1:2:3:4:5:6:7"));
    assert!(!is_valid_ip("1:2:3:4:5:6:7:8:9"));
    assert!(!is_valid_ip("1:2:3:4:5:6:7:8::"));
    assert!(!is_valid_ip("12345::"));
    assert!(!is_valid_ip("g::1"));
    assert!(!is_valid_ip(":1:2:3"));
    assert!(!is_valid_ip("1:2:3:"));
    assert!(!is_valid_ip("1:2:3:4:5:6:7:1.2.3.4"));
    assert!(!is_valid_ip("1:2:3:4:5:6::1.2.3.4"));
    assert!(!is_valid_ip("::1.2.3.4.5"));
    assert!(!is_valid_ip("fe80::1%eth0"));
    assert!(!is_valid_ip("1.2.3.4::"));
}

#[test]
fn compressed_and_mixed_forms() {
    assert!(is_valid_ip("1::"));
    assert!(is_valid_ip("1:2:3:4:5:6::7"));
    assert!(is_valid_ip("::1:2:3:4:5:6:7"));
    assert!(is_valid_ip("1:2::3:1.2.3.4"));
    assert!(!is_valid_ip("::1:2:3:4:5:6:7:8"));
    assert!(!is_valid_ip("1:2:3:4:5:1.2.3.4::"));
    assert!(!is_valid_ip("abcde::f"));
    assert!(!is_valid_ip("1.2.3.4:5"));
}
