use gojo::text::{chars_of, push_int, push_nat};

#[test]
fn the_characters_of_a_string() {
    assert_eq!(chars_of(""), Vec::<char>::new());
    assert_eq!(chars_of("a\u{e7}\n"), vec!['a', '\u{e7}', '\n']);
}

#[test]
fn decimal_numerals_of_naturals() {
    let mut out = String::from("n=");
    push_nat(&mut out, 0);
    push_nat(&mut out, 7);
    push_nat(&mut out, 10);
    push_nat(&mut out, 18446744073709551615);
    assert_eq!(out, "n=071018446744073709551615");
}

#[test]
fn decimal_numerals_of_integers() {
    let mut out = String::new();
    push_int(&mut out, -1);
    push_int(&mut out, 0);
    push_int(&mut out, 305);
    push_int(&mut out, i64::MIN);
    assert_eq!(out, "-10305-9223372036854775808");
}
