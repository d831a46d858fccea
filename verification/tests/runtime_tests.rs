use gojo::runtime::{
    fib, for_continues, g_add, g_mul, json_field, lookup_field, render_field, validate,
    FieldLookup, Operand, FIELD_ERROR,
};

fn text(s: &str) -> Operand {
    Operand::Text(s.to_string())
}

#[test]
fn add_dispatches_on_the_kinds_of_its_operands() {
    assert_eq!(g_add(Operand::Int(2), Operand::Int(3)), Some(Operand::Int(5)));
    assert_eq!(g_add(Operand::Int(-1), Operand::Int(2)), Some(Operand::Int(1)));
    assert_eq!(g_add(text("ab"), text("cd")), Some(text("abcd")));
    assert_eq!(g_add(text("n="), Operand::Int(5)), Some(text("n=5")));
    assert_eq!(g_add(text("n="), Operand::Int(-120)), Some(text("n=-120")));
    assert_eq!(g_add(text(""), Operand::Int(i64::MIN)), Some(text("-9223372036854775808")));
    assert_eq!(g_add(text(""), Operand::Int(i64::MAX)), Some(text("9223372036854775807")));
    assert_eq!(g_add(text(""), Operand::Int(0)), Some(text("0")));
    assert_eq!(g_add(Operand::Int(1), text("x")), None);
}

#[test]
fn mul_dispatches_on_the_kinds_of_its_operands() {
    assert_eq!(g_mul(Operand::Int(6), Operand::Int(-7)), Some(Operand::Int(-42)));
    assert_eq!(g_mul(Operand::Int(-1), Operand::Int(2)), Some(Operand::Int(-2)));
    assert_eq!(g_mul(text("ab"), Operand::Int(3)), Some(text("ababab")));
    assert_eq!(g_mul(text("ab"), Operand::Int(0)), Some(text("")));
    assert_eq!(g_mul(text(""), Operand::Int(4)), Some(text("")));
    assert_eq!(g_mul(text("ab"), text("cd")), None);
    assert_eq!(g_mul(Operand::Int(3), text("ab")), None);
}

#[test]
fn a_field_of_json_text() {
    assert_eq!(json_field("{\"a\":5}", "a"), "5");
    assert_eq!(json_field("not json", "a"), "HATA");
    assert_eq!(json_field("{}", "missing"), "HATA");
    assert_eq!(json_field("{\"a\":\"x y\"}", "a"), "x y");
    assert_eq!(json_field("{\"a\":[1,{\"b\":null}]}", "a"), "[1,{\"b\":null}]");
    assert_eq!(json_field("[1,2]", "0"), "HATA");
    assert_eq!(json_field("\"a\"", "a"), "HATA");
    assert_eq!(FIELD_ERROR, "HATA");
}

#[test]
fn a_lookup_tells_its_four_outcomes_apart() {
    assert_eq!(lookup_field("{", "a"), FieldLookup::Unreadable);
    assert_eq!(lookup_field("{\"b\":1}", "a"), FieldLookup::Missing);
    assert_eq!(lookup_field("{\"a\":\"HATA\"}", "a"), FieldLookup::Text("HATA".to_string()));
    assert_eq!(lookup_field("{\"a\": true}", "a"), FieldLookup::Other("true".to_string()));
    assert_eq!(lookup_field("{\"a\":\"1\"}", "a"), FieldLookup::Text("1".to_string()));
    assert_eq!(lookup_field("{\"a\":1}", "a"), FieldLookup::Other("1".to_string()));
}

#[test]
fn a_lookup_is_rendered_as_its_text() {
    assert_eq!(render_field(FieldLookup::Unreadable), "HATA");
    assert_eq!(render_field(FieldLookup::Missing), "HATA");
    assert_eq!(render_field(FieldLookup::Text("t".to_string())), "t");
    assert_eq!(render_field(FieldLookup::Other("{\"k\":1}".to_string())), "{\"k\":1}");
}

#[test]
fn validation_hands_the_string_back() {
    assert_eq!(validate(&"Internet".to_string()), Ok("Internet".to_string()));
    assert_eq!(validate(&String::new()), Ok(String::new()));
}

#[test]
fn fibonacci_numbers() {
    let first: Vec<i64> = (0..10).map(fib).collect();
    assert_eq!(first, vec![0, 1, 1, 2, 3, 5, 8, 13, 21, 34]);
    assert_eq!(fib(20), 6765);
    assert_eq!(fib(-3), -3);
}

#[test]
fn a_for_loop_goes_on_in_the_direction_of_its_step() {
    assert!(for_continues(0, 5, 1));
    assert!(for_continues(4, 5, 3));
    assert!(!for_continues(5, 5, 1));
    assert!(for_continues(5, 0, -1));
    assert!(!for_continues(0, 0, -1));
    assert!(!for_continues(0, 5, -1));
    assert!(!for_continues(5, 0, 1));
    assert!(!for_continues(0, 5, 0));
    assert!(!for_continues(5, 0, 0));
}
