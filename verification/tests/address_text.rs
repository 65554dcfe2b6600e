use zond_daemon::address_text::{dotted_text, v6_text};

fn v6(groups: [u16; 8]) -> u128 {
    groups.iter().fold(0u128, |acc, g| (acc << 16) | *g as u128)
}

#[test]
fn an_ipv4_address_is_dotted_decimal() {
    assert_eq!(dotted_text(0), "0.0.0.0");
    assert_eq!(dotted_text(0xc000_0201), "192.0.2.1");
    assert_eq!(dotted_text(u32::MAX), "255.255.255.255");
    assert_eq!(dotted_text(0x0a00_0100), "10.0.1.0");
}

#[test]
fn the_unspecified_and_loopback_addresses() {
    assert_eq!(v6_text(0), "::");
    assert_eq!(v6_text(1), "::1");
    assert_eq!(v6_text(1 << 112), "1::");
}

#[test]
fn the_longest_run_of_zeros_is_compressed() {
    assert_eq!(v6_text(v6([0x2001, 0xdb8, 0, 0, 0, 0, 0, 1])), "2001:db8::1");
    assert_eq!(v6_text(v6([1, 0, 0, 2, 0, 0, 0, 3])), "1:0:0:2::3");
    assert_eq!(v6_text(v6([0xfe80, 0, 0, 0, 0, 0, 0, 1])), "fe80::1");
}

#[test]
fn of_two_runs_as_long_the_first_is_compressed() {
    assert_eq!(v6_text(v6([1, 0, 0, 2, 0, 0, 3, 4])), "1::2:0:0:3:4");
}

#[test]
fn a_single_zero_group_is_written_out() {
    assert_eq!(v6_text(v6([1, 0, 2, 3, 4, 5, 6, 7])), "1:0:2:3:4:5:6:7");
    assert_eq!(v6_text(u128::MAX), "ffff:ffff:ffff:ffff:ffff:ffff:ffff:ffff");
}

#[test]
fn an_ipv4_mapped_address_is_written_with_its_ipv4_address() {
    assert_eq!(v6_text(v6([0, 0, 0, 0, 0, 0xffff, 0xc000, 0x0201])), "::ffff:192.0.2.1");
    assert_eq!(v6_text(v6([0, 0, 0, 0, 0, 0xffff, 0, 0])), "::ffff:0.0.0.0");
    assert_eq!(v6_text(v6([0, 0, 0, 0, 0, 0, 0xc000, 0x0201])), "::c000:201");
}

#[test]
fn groups_are_lower_case_without_leading_zeros() {
    assert_eq!(v6_text(v6([0xABCD, 0x00ef, 0x0001, 0x0010, 0x0100, 0x1000, 0xa, 0xb])), "abcd:ef:1:10:100:1000:a:b");
}
