use counter_server::address::{balance_report, balance_text, Address, AddressError};
use counter_server::counter::{Counter, SharedCounter};
use counter_server::response::{add_one, count_text, search_text, show_count, visit_user, welcome_text};

#[test]
fn count_text_layout() {
    assert_eq!(count_text(5, 12), "global_count: 5\nlocal_count: 12");
    assert_eq!(count_text(0, 0), "global_count: 0\nlocal_count: 0");
    assert_eq!(
        count_text(1234567890, 100),
        "global_count: 1234567890\nlocal_count: 100"
    );
}

#[test]
fn count_text_largest_value() {
    let expected = format!("global_count: {}\nlocal_count: 9", usize::MAX);
    assert_eq!(count_text(usize::MAX, 9), expected);
}

#[test]
fn show_count_reports_without_changing() {
    let g = SharedCounter::new();
    let local = Counter::new();
    assert_eq!(show_count(&g, &local), "global_count: 0\nlocal_count: 0");
    assert_eq!(g.read_global(), 0);
}

#[test]
fn add_one_bumps_both_counts() {
    let g = SharedCounter::new();
    let mut local = Counter::new();
    assert_eq!(add_one(&g, &mut local), "global_count: 1\nlocal_count: 1");
    assert_eq!(add_one(&g, &mut local), "global_count: 2\nlocal_count: 2");
    g.increment_global();
    assert_eq!(show_count(&g, &local), "global_count: 3\nlocal_count: 2");
}

#[test]
fn welcome_greets_by_name_and_id() {
    assert_eq!(welcome_text("bob", 42), "Welcome bob, user_id 42!");
    assert_eq!(welcome_text("", 0), "Welcome , user_id 0!");
}

#[test]
fn visit_counts_in_global() {
    let g = SharedCounter::new();
    assert_eq!(visit_user(&g, "ann", 7), "Welcome ann, user_id 7!");
    assert_eq!(g.read_global(), 1);
}

#[test]
fn search_echoes_query() {
    assert_eq!(search_text("rust"), "Searching for: rust");
}

#[test]
fn parse_all_zero_key() {
    let a = Address::parse("11111111111111111111111111111111").unwrap();
    assert_eq!(a.to_bytes(), [0u8; 32]);
}

#[test]
fn parse_and_write_back() {
    let text = "SysvarC1ock11111111111111111111111111111111";
    let a = Address::parse(text).unwrap();
    assert_ne!(a.to_bytes(), [0u8; 32]);
    assert_eq!(a.to_text(), text);
}

#[test]
fn bytes_written_in_base58() {
    let a = Address::from_bytes([0u8; 32]);
    assert_eq!(a.to_text(), "11111111111111111111111111111111");
}

#[test]
fn parse_rejects_bad_characters() {
    assert_eq!(Address::parse("0OIl0OIl0OIl0OIl0OIl0OIl0OIl0OIl"), Err(AddressError::Malformed));
}

#[test]
fn parse_rejects_wrong_length() {
    assert_eq!(Address::parse("111"), Err(AddressError::Malformed));
    assert_eq!(Address::parse(&"1".repeat(45)), Err(AddressError::Malformed));
    assert_eq!(Address::parse(""), Err(AddressError::Malformed));
}

#[test]
fn balance_text_layout() {
    assert_eq!(balance_text("abc", 1500), "Balance for abc: 1500");
    assert_eq!(balance_text("abc", u64::MAX), "Balance for abc: 18446744073709551615");
}

#[test]
fn balance_report_writes_address() {
    let a = Address::from_bytes([0u8; 32]);
    assert_eq!(
        balance_report(&a, 0),
        "Balance for 11111111111111111111111111111111: 0"
    );
}
