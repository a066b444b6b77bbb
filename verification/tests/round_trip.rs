use scheme_core::datum::{datum_equal, Datum};
use scheme_core::printer::print_string;
use scheme_core::reader::read_all;
use scheme_core::vm::Machine;
use std::rc::Rc;

fn reread(d: &Datum) -> Datum {
    let text = print_string(d);
    let mut mach = Machine::new();
    let forms = read_all(&mut mach, &text).expect("reading printed text failed");
    assert_eq!(forms.len(), 1);
    forms.into_iter().next().unwrap()
}

fn check_round_trip(d: Datum) {
    let back = reread(&d);
    assert!(datum_equal(&back, &d), "round trip changed {}", print_string(&d));
}

fn sym(s: &str) -> Datum {
    Datum::Symbol(Rc::new(s.chars().collect()))
}

fn text(s: &str) -> Datum {
    Datum::Str(Rc::new(s.chars().collect()))
}

fn list(elems: Vec<Datum>) -> Datum {
    let mut out = Datum::EmptyList;
    for e in elems.into_iter().rev() {
        out = Datum::Pair(Rc::new(e), Rc::new(out));
    }
    out
}

#[test]
fn booleans_round_trip() {
    check_round_trip(Datum::Boolean(true));
    check_round_trip(Datum::Boolean(false));
}

#[test]
fn numbers_round_trip() {
    check_round_trip(Datum::Number(0));
    check_round_trip(Datum::Number(42));
    check_round_trip(Datum::Number(-7));
    check_round_trip(Datum::Number(i64::MAX));
    check_round_trip(Datum::Number(i64::MIN));
}

#[test]
fn characters_round_trip() {
    check_round_trip(Datum::Character('a'));
    check_round_trip(Datum::Character('Z'));
}

#[test]
fn strings_round_trip() {
    check_round_trip(text(""));
    check_round_trip(text("hello"));
    check_round_trip(text("say \"hi\" \\ done"));
}

#[test]
fn symbols_round_trip() {
    check_round_trip(sym("foo"));
    check_round_trip(sym("set!"));
    check_round_trip(sym("+"));
}

#[test]
fn empty_list_round_trips() {
    check_round_trip(Datum::EmptyList);
}

#[test]
fn proper_lists_round_trip() {
    check_round_trip(list(vec![Datum::Number(1), Datum::Boolean(true), sym("x")]));
    check_round_trip(list(vec![
        list(vec![Datum::Number(1), Datum::Number(2)]),
        text("s"),
        Datum::EmptyList,
    ]));
}

#[test]
fn dotted_pair_round_trips() {
    check_round_trip(Datum::Pair(Rc::new(Datum::Number(1)), Rc::new(Datum::Number(2))));
}

#[test]
fn printed_representations() {
    assert_eq!(print_string(&Datum::Boolean(true)), "#t");
    assert_eq!(print_string(&Datum::Number(-12)), "-12");
    assert_eq!(print_string(&Datum::Character('q')), "#\\q");
    assert_eq!(print_string(&text("a\"b")), "\"a\\\"b\"");
    assert_eq!(print_string(&Datum::EmptyList), "()");
    assert_eq!(
        print_string(&Datum::Pair(Rc::new(Datum::Number(1)), Rc::new(Datum::Number(2)))),
        "(1 . 2)"
    );
}

#[test]
fn plus_signed_numeral_reads_as_number() {
    let mut mach = Machine::new();
    let forms = read_all(&mut mach, "+4").unwrap();
    assert_eq!(print_string(&forms[0]), "4");
    let forms = read_all(&mut mach, "+").unwrap();
    assert_eq!(print_string(&forms[0]), "+");
}

#[test]
fn vector_syntax_reads() {
    let mut mach = Machine::new();
    let forms = read_all(&mut mach, "#(1 2 3)").unwrap();
    assert_eq!(forms.len(), 1);
    assert_eq!(print_string(&forms[0]), "#(1 2 3)");
}
