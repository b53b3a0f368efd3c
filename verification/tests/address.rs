use network_decisions::IpAddr;

fn v6(groups: [u16; 8]) -> String {
    let mut octets: u128 = 0;
    for group in groups {
        octets = octets * 0x1_0000 + u128::from(group);
    }
    IpAddr::V6(octets).to_text()
}

#[test]
fn ipv4_is_dotted_decimal() {
    assert_eq!(IpAddr::v4(1, 2, 3, 4).to_text(), "1.2.3.4");
    assert_eq!(IpAddr::v4(0, 0, 0, 0).to_text(), "0.0.0.0");
    assert_eq!(IpAddr::v4(255, 100, 10, 0).to_text(), "255.100.10.0");
}

#[test]
fn ipv6_groups_are_lower_case_hexadecimal() {
    assert_eq!(
        v6([0x1234, 0x5678, 0x9abc, 0xdef0, 0xf, 0x10, 0xfff, 0xffff]),
        "1234:5678:9abc:def0:f:10:fff:ffff"
    );
    assert_eq!(IpAddr::V6(1 << 112).to_text(), "1::");
}

#[test]
fn the_longest_zero_run_is_compressed() {
    assert_eq!(v6([0; 8]), "::");
    assert_eq!(v6([0, 0, 0, 0, 0, 0, 0, 1]), "::1");
    assert_eq!(v6([0x2001, 0xdb8, 0, 0, 0, 0, 2, 1]), "2001:db8::2:1");
    assert_eq!(v6([1, 0, 0, 2, 0, 0, 0, 3]), "1:0:0:2::3");
    assert_eq!(v6([1, 0, 0, 0, 2, 0, 0, 0]), "1::2:0:0:0");
    assert_eq!(v6([0, 0, 1, 2, 0, 0, 0, 0]), "0:0:1:2::");
}

#[test]
fn of_equal_zero_runs_the_first_is_compressed() {
    assert_eq!(v6([1, 0, 0, 2, 3, 0, 0, 4]), "1::2:3:0:0:4");
}

#[test]
fn a_single_zero_group_is_written() {
    assert_eq!(v6([1, 0, 2, 3, 4, 5, 6, 7]), "1:0:2:3:4:5:6:7");
    assert_eq!(v6([0, 1, 2, 3, 4, 5, 6, 0]), "0:1:2:3:4:5:6:0");
}

#[test]
fn an_ipv4_mapped_address_ends_in_ipv4_text() {
    assert_eq!(v6([0, 0, 0, 0, 0, 0xffff, 0x0102, 0x0304]), "::ffff:1.2.3.4");
    assert_eq!(v6([0, 0, 0, 0, 0, 0, 0x0102, 0x0304]), "::102:304");
    assert_eq!(v6([0, 0, 0, 0, 1, 0xffff, 0x0102, 0x0304]), "::1:ffff:102:304");
}
