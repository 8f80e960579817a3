use plant_minder::addr::Ipv6Addr;
use plant_minder::text::{find_byte, find_pair, parse_hex_group, strip_colon_space, strip_done, trim_bytes};

fn parse(text: &str) -> Option<Ipv6Addr> {
    Ipv6Addr::parse(text.as_bytes())
}

#[test]
fn parse_full_address() {
    let a = parse("fde0:dc9c:b343:1:9b57:cf1a:c2d3:49d5").unwrap();
    assert_eq!(a.segments(), [0xfde0, 0xdc9c, 0xb343, 0x1, 0x9b57, 0xcf1a, 0xc2d3, 0x49d5]);
    assert_eq!(a.first_segment(), 0xfde0);
    assert_eq!(a.to_bits(), 0xfde0_dc9c_b343_0001_9b57_cf1a_c2d3_49d5);
}

#[test]
fn parse_compressed_addresses() {
    assert_eq!(parse("::").unwrap().to_bits(), 0);
    assert_eq!(parse("::1").unwrap().to_bits(), 1);
    assert!(parse("::1").unwrap().is_loopback());
    assert_eq!(parse("fd00::1").unwrap().segments(), [0xfd00, 0, 0, 0, 0, 0, 0, 1]);
    assert_eq!(parse("fd00::").unwrap().segments(), [0xfd00, 0, 0, 0, 0, 0, 0, 0]);
    assert_eq!(parse("1:2:3:4:5:6:7::").unwrap().segments(), [1, 2, 3, 4, 5, 6, 7, 0]);
    assert_eq!(parse("::2:3:4:5:6:7:8").unwrap().segments(), [0, 2, 3, 4, 5, 6, 7, 8]);
    assert_eq!(parse("FD00:a::B:c").unwrap().segments(), [0xfd00, 0xa, 0, 0, 0, 0, 0xb, 0xc]);
}

#[test]
fn parse_rejects_what_is_no_address() {
    for text in [
        "", ":", ":::", "1", "1:2", "1:2:3:4:5:6:7", "1:2:3:4:5:6:7:8:9", "1:2:3:4:5:6:7:8::",
        "::1:2:3:4:5:6:7:8", "1::2::3", "12345::", "g::", "fd00::1 ", " fd00::1", "fd00:::1",
        ":1:2:3:4:5:6:7:8", "1:2:3:4:5:6:7:", "fd00::1%eth0",
    ] {
        assert_eq!(parse(text), None, "{:?}", text);
    }
}

#[test]
fn parse_known_addresses() {
    let cases: [(&str, Option<u128>); 10] = [
        ("fe80::1:2", Some(0xfe80_0000_0000_0000_0000_0000_0001_0002)),
        ("1:2:3:4:5:6:7:8", Some(0x0001_0002_0003_0004_0005_0006_0007_0008)),
        ("::ffff", Some(0xffff)),
        ("0::0", Some(0)),
        ("00001::", None),
        ("fd1f:a298:dbd1:e329:1c45:9c98:b941:1a5a", Some(0xfd1f_a298_dbd1_e329_1c45_9c98_b941_1a5a)),
        ("abcd:ef01:2345:6789:abcd:ef01:2345:6789", Some(0xabcd_ef01_2345_6789_abcd_ef01_2345_6789)),
        ("ffff:ffff:ffff:ffff:ffff:ffff:ffff:ffff", Some(u128::MAX)),
        ("1:2:3:4:5:6:7:8:9", None),
        ("1::2::3", None),
    ];
    for (text, bits) in cases {
        assert_eq!(parse(text).map(|a| a.to_bits()), bits, "{:?}", text);
    }
}

#[test]
fn segments_and_bits_round_trip() {
    let segments = [0xfdc9, 0xfdb2, 0x9fe8, 0x1, 0, 0, 0xffff, 0x8000];
    let a = Ipv6Addr::from_segments(segments);
    assert_eq!(a.segments(), segments);
    assert_eq!(Ipv6Addr::from_bits(a.to_bits()), a);
    assert_eq!(a.first_segment(), 0xfdc9);
    assert!(a.same_prefix(&Ipv6Addr::from_segments([0xfdc9, 9, 9, 9, 9, 9, 9, 9])));
    assert!(!a.same_prefix(&Ipv6Addr::from_segments([0xfdca, 0xfdb2, 0x9fe8, 0x1, 0, 0, 0xffff, 0x8000])));
    assert!(!a.is_loopback());
    assert!(Ipv6Addr::loopback().is_loopback());
    assert_eq!(Ipv6Addr::loopback().segments(), [0, 0, 0, 0, 0, 0, 0, 1]);
}

#[test]
fn scanning_finds_first_occurrences() {
    assert_eq!(find_byte(b"ab:cd:ef", b':'), 2);
    assert_eq!(find_byte(b"abcdef", b':'), 6);
    assert_eq!(find_byte(b"", b':'), 0);
    assert_eq!(find_pair(b"a:b: c: d", b':', b' '), 3);
    assert_eq!(find_pair(b"a:b:c", b':', b' '), 5);
    assert_eq!(find_pair(b":", b':', b' '), 1);
    assert_eq!(find_pair(b"x: ", b':', b' '), 1);
}

#[test]
fn trimming_and_stripping() {
    assert_eq!(trim_bytes(b" \t fd00::1\r\n"), b"fd00::1");
    assert_eq!(trim_bytes(b"\r\n"), b"");
    assert_eq!(trim_bytes(b"a b"), b"a b");
    assert_eq!(strip_done(b"abcDoneDone"), b"abc");
    assert_eq!(strip_done(b"abcDone\r\n"), b"abcDone\r\n");
    assert_eq!(strip_done(b"Don"), b"Don");
    assert_eq!(strip_done(b"Done"), b"");
    assert_eq!(strip_colon_space(b": : fd00::1"), b"fd00::1");
    assert_eq!(strip_colon_space(b":fd00"), b":fd00");
}

#[test]
fn hex_groups() {
    assert_eq!(parse_hex_group(b"c04f"), Some(0xc04f));
    assert_eq!(parse_hex_group(b"C04F"), Some(0xc04f));
    assert_eq!(parse_hex_group(b"0"), Some(0));
    assert_eq!(parse_hex_group(b"ffff"), Some(0xffff));
    assert_eq!(parse_hex_group(b""), None);
    assert_eq!(parse_hex_group(b"10000"), None);
    assert_eq!(parse_hex_group(b"co4f"), None);
    assert_eq!(parse_hex_group(b"+1"), None);
}
