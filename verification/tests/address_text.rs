use dyndns::ipv4::{parse_ipv4, INVALID_IPV4_SYNTAX};
use dyndns::{PublicAddress, ResolutionError};

#[test]
fn parses_plain_addresses() {
    assert_eq!(parse_ipv4("1.2.3.4"), Some((1, 2, 3, 4)));
    assert_eq!(parse_ipv4("0.0.0.0"), Some((0, 0, 0, 0)));
    assert_eq!(parse_ipv4("255.255.255.255"), Some((255, 255, 255, 255)));
    assert_eq!(parse_ipv4("192.168.0.1"), Some((192, 168, 0, 1)));
    assert_eq!(parse_ipv4("10.0.200.99"), Some((10, 0, 200, 99)));
    assert_eq!(parse_ipv4("9.10.100.249"), Some((9, 10, 100, 249)));
}

#[test]
fn rejects_octets_out_of_range() {
    assert_eq!(parse_ipv4("256.1.1.1"), None);
    assert_eq!(parse_ipv4("1.256.1.1"), None);
    assert_eq!(parse_ipv4("1.1.300.1"), None);
    assert_eq!(parse_ipv4("1.1.1.999"), None);
    assert_eq!(parse_ipv4("1.1.1.1000"), None);
    assert_eq!(parse_ipv4("65536.1.1.1"), None);
    assert_eq!(parse_ipv4("1.1.1.4294967297"), None);
}

#[test]
fn rejects_padded_octets() {
    assert_eq!(parse_ipv4("01.2.3.4"), None);
    assert_eq!(parse_ipv4("1.02.3.4"), None);
    assert_eq!(parse_ipv4("1.2.003.4"), None);
    assert_eq!(parse_ipv4("1.2.3.04"), None);
    assert_eq!(parse_ipv4("00.0.0.0"), None);
    assert_eq!(parse_ipv4("0.0.0.000"), None);
    assert_eq!(parse_ipv4("0000.0.0.0"), None);
}

#[test]
fn rejects_wrong_numbers_of_octets() {
    assert_eq!(parse_ipv4(""), None);
    assert_eq!(parse_ipv4("1"), None);
    assert_eq!(parse_ipv4("1.2"), None);
    assert_eq!(parse_ipv4("1.2.3"), None);
    assert_eq!(parse_ipv4("1.2.3.4.5"), None);
    assert_eq!(parse_ipv4("1.2.3."), None);
    assert_eq!(parse_ipv4(".1.2.3"), None);
    assert_eq!(parse_ipv4("1..2.3"), None);
    assert_eq!(parse_ipv4("1.2.3.4."), None);
    assert_eq!(parse_ipv4("..."), None);
    assert_eq!(parse_ipv4("."), None);
}

#[test]
fn rejects_anything_but_digits_and_dots() {
    assert_eq!(parse_ipv4("whargarbl"), None);
    assert_eq!(parse_ipv4("1.2.3.4\n"), None);
    assert_eq!(parse_ipv4(" 1.2.3.4"), None);
    assert_eq!(parse_ipv4("1.2.3.4 "), None);
    assert_eq!(parse_ipv4("1.2.3.4a"), None);
    assert_eq!(parse_ipv4("a.b.c.d"), None);
    assert_eq!(parse_ipv4("1,2,3,4"), None);
    assert_eq!(parse_ipv4("+1.2.3.4"), None);
    assert_eq!(parse_ipv4("-1.2.3.4"), None);
    assert_eq!(parse_ipv4("1.2.3.-4"), None);
    assert_eq!(parse_ipv4("0x1.2.3.4"), None);
    assert_eq!(parse_ipv4("1.2.3.4/24"), None);
    assert_eq!(parse_ipv4("1.2.3.4:80"), None);
    assert_eq!(parse_ipv4("::1"), None);
    assert_eq!(parse_ipv4("1\u{2e}2.3.4"), Some((1, 2, 3, 4)));
    assert_eq!(parse_ipv4("1\u{ff0e}2.3.4"), None);
    assert_eq!(parse_ipv4("\u{661}.2.3.4"), None);
    assert_eq!(parse_ipv4("\u{ff11}.2.3.4"), None);
    assert_eq!(parse_ipv4("1.2.3.4\u{0}"), None);
    assert_eq!(parse_ipv4("1.2.3.4\u{e9}"), None);
}

#[test]
fn every_octet_is_read_back_at_every_place() {
    for n in 0..=255u8 {
        assert_eq!(parse_ipv4(&format!("{}.0.0.0", n)), Some((n, 0, 0, 0)));
        assert_eq!(parse_ipv4(&format!("0.{}.0.0", n)), Some((0, n, 0, 0)));
        assert_eq!(parse_ipv4(&format!("0.0.{}.0", n)), Some((0, 0, n, 0)));
        assert_eq!(parse_ipv4(&format!("0.0.0.{}", n)), Some((0, 0, 0, n)));
        assert_eq!(parse_ipv4(&format!("{}.{}.{}.{}", n, 255 - n, n / 2, n)), Some((n, 255 - n, n / 2, n)));
    }
}

#[test]
fn numbers_past_an_octet_are_refused() {
    for n in 256..=1200u32 {
        assert_eq!(parse_ipv4(&format!("{}.0.0.0", n)), None);
        assert_eq!(parse_ipv4(&format!("0.0.0.{}", n)), None);
    }
}

#[test]
fn padded_numbers_are_refused() {
    for n in 0..=99u32 {
        assert_eq!(parse_ipv4(&format!("0{}.0.0.0", n)), None);
        assert_eq!(parse_ipv4(&format!("1.1.1.{:03}", n)), None);
    }
    for n in 100..=255u32 {
        assert_eq!(parse_ipv4(&format!("1.1.1.{:03}", n)), Some((1, 1, 1, n as u8)));
    }
}

#[test]
fn address_from_text_keeps_the_text() {
    assert_eq!(
        PublicAddress::from_text("203.0.113.7".to_string()),
        Ok(PublicAddress::IP4Address("203.0.113.7".to_string()))
    );
}

#[test]
fn address_from_other_text_is_a_parse_error() {
    assert_eq!(INVALID_IPV4_SYNTAX, "invalid IPv4 address syntax");
    assert_eq!(
        PublicAddress::from_text("203.0.113".to_string()),
        Err(ResolutionError::ParseError {
            text: "203.0.113".to_string(),
            diagnostic: "invalid IPv4 address syntax".to_string(),
        })
    );
    assert_eq!(
        PublicAddress::from_text(String::new()).unwrap_err().message(),
        "Failed parsing  as ipv4 address: invalid IPv4 address syntax"
    );
}
