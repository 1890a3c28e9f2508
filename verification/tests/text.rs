use one_proxy::text::{decimal_string, message_with_number};

#[test]
fn decimal_renders_like_display() {
    for n in [0u64, 7, 10, 99, 255, 1000, 1234567890, u64::MAX] {
        assert_eq!(decimal_string(n), n.to_string());
    }
}

#[test]
fn message_appends_the_number() {
    assert_eq!(message_with_number("wrong rsv byte ", 3), "wrong rsv byte 3");
}
