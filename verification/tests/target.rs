use rust_scanner::error::ParseError;
use rust_scanner::target::{str_to_ip_addr, ScanTarget};

#[test]
fn test_str_to_ip_addr_ok() {
    let ip = str_to_ip_addr("127.0.0.1");
    assert!(ip.is_ok());
    let ip = str_to_ip_addr("::1");
    assert!(ip.is_ok());
}

#[test]
fn test_str_to_ip_addr_err() {
    let ip = str_to_ip_addr("159.526.215.215");
    assert!(ip.is_err());
    let ip = str_to_ip_addr("azerty");
    assert!(ip.is_err());
}

fn v6(text: &str) -> [u16; 8] {
    match str_to_ip_addr(text) {
        Ok(ScanTarget::V6(a, b, c, d, e, f, g, h)) => [a, b, c, d, e, f, g, h],
        other => panic!("{} is read as {:?}", text, other),
    }
}

fn refused(text: &str) {
    assert_eq!(str_to_ip_addr(text), Err(ParseError::InvalidTarget), "{}", text);
}

#[test]
fn dotted_quad_is_read_octet_by_octet() {
    assert_eq!(str_to_ip_addr("127.0.0.1"), Ok(ScanTarget::V4(127, 0, 0, 1)));
    assert_eq!(str_to_ip_addr("0.0.0.0"), Ok(ScanTarget::V4(0, 0, 0, 0)));
    assert_eq!(str_to_ip_addr("255.255.255.255"), Ok(ScanTarget::V4(255, 255, 255, 255)));
    assert_eq!(str_to_ip_addr("192.168.1.20"), Ok(ScanTarget::V4(192, 168, 1, 20)));
    assert_eq!(str_to_ip_addr("1.2.3.4"), Ok(ScanTarget::V4(1, 2, 3, 4)));
}

#[test]
fn out_of_range_octets_are_refused() {
    refused("256.256.256.256");
    refused("159.526.215.215");
    refused("1.2.3.256");
    refused("1.2.3.1000");
    refused("300.1.1.1");
}

#[test]
fn malformed_dotted_quads_are_refused() {
    refused("");
    refused("not-an-ip");
    refused("azerty");
    refused("1.2.3");
    refused("1.2.3.4.5");
    refused("1.2.3.");
    refused(".1.2.3");
    refused("1..2.3");
    refused("1.2.3.4 ");
    refused(" 1.2.3.4");
    refused("1.2.3.a");
    refused("1.2.3.-4");
    refused("1.2.3.+4");
    refused("127.1");
    refused("0x7f.0.0.1");
    refused("localhost");
}

#[test]
fn octets_with_a_leading_zero_are_refused() {
    refused("01.2.3.4");
    refused("1.2.3.04");
    refused("1.2.3.00");
    refused("127.000.000.001");
    assert_eq!(str_to_ip_addr("10.0.0.0"), Ok(ScanTarget::V4(10, 0, 0, 0)));
}

#[test]
fn full_ipv6_literal_is_read_group_by_group() {
    assert_eq!(v6("1:2:3:4:5:6:7:8"), [1, 2, 3, 4, 5, 6, 7, 8]);
    assert_eq!(
        v6("2001:0db8:85a3:0000:0000:8a2e:0370:7334"),
        [0x2001, 0x0db8, 0x85a3, 0, 0, 0x8a2e, 0x0370, 0x7334]
    );
    assert_eq!(
        v6("FFFF:ffff:FfFf:ffff:ffff:ffff:ffff:ffff"),
        [0xffff, 0xffff, 0xffff, 0xffff, 0xffff, 0xffff, 0xffff, 0xffff]
    );
    assert_eq!(v6("0:0:0:0:0:0:0:0"), [0, 0, 0, 0, 0, 0, 0, 0]);
    assert_eq!(v6("aBcD:0:0:0:0:0:0:1"), [0xabcd, 0, 0, 0, 0, 0, 0, 1]);
}

#[test]
fn double_colon_stands_for_the_zero_groups() {
    assert_eq!(v6("::1"), [0, 0, 0, 0, 0, 0, 0, 1]);
    assert_eq!(v6("::"), [0, 0, 0, 0, 0, 0, 0, 0]);
    assert_eq!(v6("1::"), [1, 0, 0, 0, 0, 0, 0, 0]);
    assert_eq!(v6("fe80::1"), [0xfe80, 0, 0, 0, 0, 0, 0, 1]);
    assert_eq!(v6("2001:db8::8a2e:370:7334"), [0x2001, 0xdb8, 0, 0, 0, 0x8a2e, 0x370, 0x7334]);
    assert_eq!(v6("1:2:3:4:5:6:7::"), [1, 2, 3, 4, 5, 6, 7, 0]);
    assert_eq!(v6("::2:3:4:5:6:7:8"), [0, 2, 3, 4, 5, 6, 7, 8]);
    assert_eq!(v6("1:2:3::6:7:8"), [1, 2, 3, 0, 0, 6, 7, 8]);
    assert_eq!(v6("1::8"), [1, 0, 0, 0, 0, 0, 0, 8]);
}

#[test]
fn dotted_quad_may_close_an_ipv6_literal() {
    assert_eq!(v6("::ffff:192.168.1.20"), [0, 0, 0, 0, 0, 0xffff, 0xc0a8, 0x0114]);
    assert_eq!(v6("::1.2.3.4"), [0, 0, 0, 0, 0, 0, 0x0102, 0x0304]);
    assert_eq!(v6("1:2:3:4:5:6:1.2.3.4"), [1, 2, 3, 4, 5, 6, 0x0102, 0x0304]);
    assert_eq!(v6("1:2:3:4:5::1.2.3.4"), [1, 2, 3, 4, 5, 0, 0x0102, 0x0304]);
    assert_eq!(v6("64:ff9b::255.255.255.255"), [0x64, 0xff9b, 0, 0, 0, 0, 0xffff, 0xffff]);
}

#[test]
fn malformed_ipv6_literals_are_refused() {
    refused(":");
    refused(":::");
    refused("1:2:3:4:5:6:7");
    refused("1:2:3:4:5:6:7:8:9");
    refused("1:2:3:4:5:6:7:8::");
    refused("::1:2:3:4:5:6:7:8");
    refused("1::2::3");
    refused("1:::2");
    refused(":1::2");
    refused("1::2:");
    refused(":1:2:3:4:5:6:7:8");
    refused("1:2:3:4:5:6:7:");
    refused("12345::");
    refused("::12345");
    refused("g::");
    refused("::-1");
    refused("1:2:3:4:5:6:7:8 ");
    refused("::1%eth0");
    refused("[::1]");
    refused("::1/128");
}

#[test]
fn misplaced_dotted_quads_are_refused() {
    refused("1.2.3.4::");
    refused("1.2.3.4::1");
    refused("::1.2.3.4:5");
    refused("1:2:3:1.2.3.4");
    refused("1:2:3:4:5:6:7:1.2.3.4");
    refused("1:2:3:4:5:6::1.2.3.4");
    refused("::1.2.3");
    refused("::1.2.3.256");
    refused("::01.2.3.4");
    refused("1.2.3.4:1:2:3:4:5:6");
}

#[test]
fn every_kind_of_address_reads_back_from_its_literal() {
    let octets: [u8; 6] = [0, 1, 9, 10, 100, 255];
    for a in octets {
        for d in octets {
            let text = format!("{}.{}.{}.{}", a, 7, 42, d);
            assert_eq!(str_to_ip_addr(&text), Ok(ScanTarget::V4(a, 7, 42, d)));
        }
    }
    let groups: [u16; 6] = [0, 1, 0xf, 0x10, 0xabc, 0xffff];
    for a in groups {
        for h in groups {
            let text = format!("{:x}:{:x}:{:x}:{:x}:{:x}:{:x}:{:x}:{:x}", a, 2, 3, 4, 5, 6, 7, h);
            assert_eq!(str_to_ip_addr(&text), Ok(ScanTarget::V6(a, 2, 3, 4, 5, 6, 7, h)));
        }
    }
}
