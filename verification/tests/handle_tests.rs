use serde_ipc::handle::{format_handle, pack, parse_handle, split};

#[test]
fn pack_puts_service_in_the_high_half() {
    assert_eq!(pack(1, 2), (1u64 << 32) + 2);
    assert_eq!(pack(0xdead_beef, 0x0bad_f00d), 0xdead_beef_0bad_f00d);
    assert_eq!(pack(0, 0), 0);
    assert_eq!(pack(u32::MAX, u32::MAX), u64::MAX);
}

#[test]
fn split_undoes_pack() {
    assert_eq!(split(pack(7, 9)), (7, 9));
    assert_eq!(split(0xdead_beef_0bad_f00d), (0xdead_beef, 0x0bad_f00d));
    assert_eq!(split(5), (0, 5));
    assert_eq!(split(u64::MAX), (u32::MAX, u32::MAX));
}

#[test]
fn format_writes_plain_decimal() {
    assert_eq!(format_handle(0), "0");
    assert_eq!(format_handle(7), "7");
    assert_eq!(format_handle(10), "10");
    assert_eq!(format_handle(4294967298), "4294967298");
    assert_eq!(format_handle(u64::MAX), "18446744073709551615");
}

#[test]
fn parse_reads_decimal_with_optional_plus() {
    assert_eq!(parse_handle("0"), Some(0));
    assert_eq!(parse_handle("42"), Some(42));
    assert_eq!(parse_handle("+42"), Some(42));
    assert_eq!(parse_handle("007"), Some(7));
    assert_eq!(parse_handle("18446744073709551615"), Some(u64::MAX));
}

#[test]
fn parse_refuses_what_is_no_number() {
    assert_eq!(parse_handle(""), None);
    assert_eq!(parse_handle("+"), None);
    assert_eq!(parse_handle("-1"), None);
    assert_eq!(parse_handle("12a"), None);
    assert_eq!(parse_handle(" 12"), None);
    assert_eq!(parse_handle("1 2"), None);
    assert_eq!(parse_handle("++1"), None);
    assert_eq!(parse_handle("١٢"), None);
    assert_eq!(parse_handle("12é"), None);
}

#[test]
fn parse_refuses_overflow() {
    assert_eq!(parse_handle("18446744073709551616"), None);
    assert_eq!(parse_handle("99999999999999999999999"), None);
}

#[test]
fn parse_agrees_with_std() {
    for text in ["0", "1", "+1", "-0", "", "+", "0000", "4294967296", "18446744073709551615",
        "18446744073709551616", "1e3", "0x10", "12 "]
    {
        assert_eq!(parse_handle(text), text.parse::<u64>().ok(), "{}", text);
    }
}

#[test]
fn format_then_parse_is_identity() {
    for handle in [0u64, 1, 9, 10, 99, 100, 1 << 32, (1 << 32) + 1, u64::MAX - 1, u64::MAX] {
        assert_eq!(parse_handle(&format_handle(handle)), Some(handle));
        assert_eq!(format_handle(handle), handle.to_string());
    }
}
