use dynv6_update::address::Ipv6Address;

fn text(segments: [u16; 8]) -> String {
    Ipv6Address::new(segments).to_text()
}

#[test]
fn zero_run_is_compressed() {
    assert_eq!(text([0x2001, 0xdb8, 0, 0, 0, 0, 0, 5]), "2001:db8::5");
    assert_eq!(text([0xfe80, 0, 0, 0, 0, 0, 0, 1]), "fe80::1");
    assert_eq!(text([0xfe80, 0xffff, 0, 0, 0, 0, 0, 0xabcd]), "fe80:ffff::abcd");
}

#[test]
fn unspecified_and_loopback() {
    assert_eq!(text([0; 8]), "::");
    assert_eq!(text([0, 0, 0, 0, 0, 0, 0, 1]), "::1");
}

#[test]
fn run_at_either_end() {
    assert_eq!(text([1, 0, 0, 0, 0, 0, 0, 0]), "1::");
    assert_eq!(text([0, 0, 0, 0, 0, 0, 1, 2]), "::1:2");
    assert_eq!(text([0x2001, 0xdb8, 1, 2, 3, 4, 0, 0]), "2001:db8:1:2:3:4::");
}

#[test]
fn single_zero_is_written_out() {
    assert_eq!(text([0x2001, 0xdb8, 0, 1, 1, 1, 1, 1]), "2001:db8:0:1:1:1:1:1");
    assert_eq!(text([0, 2, 3, 4, 5, 6, 7, 8]), "0:2:3:4:5:6:7:8");
    assert_eq!(text([1, 2, 3, 4, 5, 6, 7, 0]), "1:2:3:4:5:6:7:0");
    assert_eq!(text([1, 0, 2, 0, 3, 0, 4, 0]), "1:0:2:0:3:0:4:0");
}

#[test]
fn longest_run_is_compressed() {
    assert_eq!(text([0x2001, 0, 0, 1, 0, 0, 0, 1]), "2001:0:0:1::1");
    assert_eq!(text([0x2001, 0, 0, 0, 1, 0, 0, 1]), "2001::1:0:0:1");
}

#[test]
fn leftmost_of_equal_runs_is_compressed() {
    assert_eq!(text([0x2001, 0xdb8, 0, 0, 1, 0, 0, 1]), "2001:db8::1:0:0:1");
    assert_eq!(text([0, 0, 1, 0, 0, 1, 0, 0]), "::1:0:0:1:0:0");
}

#[test]
fn segments_have_no_leading_zeros() {
    assert_eq!(text([1, 0x12, 0x123, 0x1234, 0xf, 0xf0, 0xf00, 0xf000]), "1:12:123:1234:f:f0:f00:f000");
    assert_eq!(text([0x100, 0x1000, 0x10, 0x101, 0x1001, 0xa0b, 0xabcd, 0xef]), "100:1000:10:101:1001:a0b:abcd:ef");
    assert_eq!(
        text([0xffff, 0xffff, 0xffff, 0xffff, 0xffff, 0xffff, 0xffff, 0xffff]),
        "ffff:ffff:ffff:ffff:ffff:ffff:ffff:ffff"
    );
}

#[test]
fn mapped_addresses_end_in_dotted_decimal() {
    assert_eq!(text([0, 0, 0, 0, 0, 0xffff, 0xc000, 0x0221]), "::ffff:192.0.2.33");
    assert_eq!(text([0, 0, 0, 0, 0, 0xffff, 0, 0]), "::ffff:0.0.0.0");
    assert_eq!(text([0, 0, 0, 0, 0, 0xffff, 0xffff, 0xffff]), "::ffff:255.255.255.255");
    assert_eq!(text([0, 0, 0, 0, 0, 0xffff, 0x0a64, 0x6309]), "::ffff:10.100.99.9");
}

#[test]
fn nearly_mapped_addresses_stay_hexadecimal() {
    assert_eq!(text([0, 0, 0, 0, 0, 0xfffe, 0xc000, 0x0221]), "::fffe:c000:221");
    assert_eq!(text([0, 0, 0, 0, 1, 0xffff, 0xc000, 0x0221]), "::1:ffff:c000:221");
    assert_eq!(text([0, 0, 0, 0, 0, 0, 0xc000, 0x0221]), "::c000:221");
}
