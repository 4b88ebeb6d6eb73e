use virtual_machine::text::{chars_of, push_decimal, push_hex_upper, str_eq};

#[test]
fn str_eq_compares_whole_strings() {
    assert!(str_eq("", ""));
    assert!(str_eq("Push", "Push"));
    assert!(!str_eq("Push", "Pus"));
    assert!(!str_eq("Pus", "Push"));
    assert!(!str_eq("Push", "push"));
    assert!(!str_eq("Push", "Pusi"));
    assert!(!str_eq("", "A"));
    assert!(str_eq("héllo ✓", "héllo ✓"));
    assert!(!str_eq("héllo ✓", "hello ✓"));
}

#[test]
fn chars_of_lists_every_character() {
    assert_eq!(chars_of(""), Vec::<char>::new());
    assert_eq!(chars_of("A b"), vec!['A', ' ', 'b']);
    assert_eq!(chars_of("é✓"), vec!['é', '✓']);
}

#[test]
fn push_decimal_writes_without_leading_zeros() {
    for (n, text) in [(0u16, "0"), (7, "7"), (9, "9"), (10, "10"), (42, "42"), (100, "100"), (4096, "4096"), (65535, "65535")] {
        let mut s = String::new();
        push_decimal(&mut s, n);
        assert_eq!(s, text);
    }
}

#[test]
fn push_decimal_appends_to_what_is_there() {
    let mut s = String::from("A: ");
    push_decimal(&mut s, 12);
    push_decimal(&mut s, 0);
    assert_eq!(s, "A: 120");
}

#[test]
fn push_hex_upper_writes_upper_case_without_prefix() {
    for (n, text) in [(0u16, "0"), (9, "9"), (10, "A"), (15, "F"), (16, "10"), (255, "FF"), (0xabc, "ABC"), (0xbeef, "BEEF"), (0xffff, "FFFF")] {
        let mut s = String::new();
        push_hex_upper(&mut s, n);
        assert_eq!(s, text);
    }
}

#[test]
fn number_rendering_agrees_with_the_standard_formatter_on_every_value() {
    for n in 0..=0xffffu16 {
        let mut d = String::new();
        push_decimal(&mut d, n);
        assert_eq!(d, format!("{}", n));
        let mut h = String::new();
        push_hex_upper(&mut h, n);
        assert_eq!(h, format!("{:X}", n));
    }
}
