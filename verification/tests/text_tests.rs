use esmart_mqtt::text::{around_decimal, append_decimal, join3, prefixed_decimal};

#[test]
fn decimal_of_small_and_large_numbers() {
    assert_eq!(prefixed_decimal("x", 0), "x0");
    assert_eq!(prefixed_decimal("x", 9), "x9");
    assert_eq!(prefixed_decimal("x", 10), "x10");
    assert_eq!(prefixed_decimal("", 305), "305");
    assert_eq!(prefixed_decimal("id_", 65535), "id_65535");
}

#[test]
fn decimal_matches_std_formatting() {
    for n in [0u16, 1, 7, 42, 100, 999, 1000, 4096, 12345, 65535] {
        let mut s = String::from("a");
        append_decimal(&mut s, n);
        assert_eq!(s, format!("a{n}"));
    }
}

#[test]
fn around_and_join() {
    assert_eq!(around_decimal("Room ", 12, " Temperature"), "Room 12 Temperature");
    assert_eq!(join3("a", "", "c"), "ac");
}
