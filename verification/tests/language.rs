use scheme_core::datum::{datum_equal, Datum};
use scheme_core::error::RuntimeError;
use scheme_core::interpreter::Interpreter;
use scheme_core::printer::print_string;

fn run1(src: &str) -> Result<Datum, RuntimeError> {
    let mut it = Interpreter::new();
    it.run(src)
}

fn show(src: &str) -> String {
    let d = run1(src).expect("evaluation failed");
    print_string(&d)
}

#[test]
fn arithmetic_sum() {
    assert_eq!(show("(+ 1 2 3)"), "6");
}

#[test]
fn arithmetic_negate() {
    assert_eq!(show("(- 5)"), "-5");
}

#[test]
fn arithmetic_empty_product() {
    assert_eq!(show("(*)"), "1");
}

#[test]
fn arithmetic_empty_sum() {
    assert_eq!(show("(+)"), "0");
}

#[test]
fn arithmetic_nested() {
    assert_eq!(show("(* 2 (+ 3 4) (- 10 9))"), "14");
}

#[test]
fn if_false_takes_alternative() {
    assert_eq!(show("(if #f 1 2)"), "2");
}

#[test]
fn if_empty_list_is_truthy() {
    assert_eq!(show("(if '() 1 2)"), "1");
}

#[test]
fn equal_structural() {
    assert_eq!(show("(equal? '(1 2 3) (list 1 2 3))"), "#t");
}

#[test]
fn eqv_is_identity_on_pairs() {
    assert_eq!(show("(eqv? '(1) '(1))"), "#f");
}

#[test]
fn eqv_on_numbers_and_symbols() {
    assert_eq!(show("(eqv? 3 3)"), "#t");
    assert_eq!(show("(eqv? 'a 'a)"), "#t");
    assert_eq!(show("(eq? \"s\" \"s\")"), "#f");
}

#[test]
fn lexical_scope_inner_shadow() {
    assert_eq!(show("((lambda (x) ((lambda (x) x) 2)) 1)"), "2");
}

#[test]
fn define_and_reference() {
    assert_eq!(show("(define x 41) (+ x 1)"), "42");
}

#[test]
fn define_shadows_in_current_frame() {
    assert_eq!(show("(define x 1) (define x 2) x"), "2");
}

#[test]
fn set_on_unbound_name_errors() {
    match run1("(set! nowhere 1)") {
        Err(RuntimeError::Unbound(_)) => {}
        other => panic!("expected an unbound error, got {:?}", other),
    }
}

#[test]
fn set_mutates_nearest_binding() {
    assert_eq!(show("(define x 1) (set! x 7) x"), "7");
}

#[test]
fn define_procedure_form() {
    assert_eq!(show("(define (add2 n) (+ n 2)) (add2 40)"), "42");
}

#[test]
fn lambda_rest_parameter() {
    assert_eq!(show("((lambda args args) 1 2 3)"), "(1 2 3)");
    assert_eq!(show("((lambda (a . rest) rest) 1 2 3)"), "(2 3)");
}

#[test]
fn begin_returns_last() {
    assert_eq!(show("(begin 1 2 3)"), "3");
}

#[test]
fn letrec_mutual_recursion() {
    let src = "(letrec ((even? (lambda (n) (if (= n 0) #t (odd? (- n 1))))) \
                        (odd? (lambda (n) (if (= n 0) #f (even? (- n 1)))))) \
                 (even? 10))";
    assert_eq!(show(src), "#t");
}

#[test]
fn tail_calls_do_not_grow_the_stack() {
    let src = "(letrec ((even? (lambda (n) (if (= n 0) #t (odd? (- n 1))))) \
                        (odd? (lambda (n) (if (= n 0) #f (even? (- n 1)))))) \
                 (even? 100000))";
    assert_eq!(show(src), "#t");
}

#[test]
fn eval_special_form() {
    assert_eq!(show("(eval '(+ 1 2))"), "3");
}

#[test]
fn quote_preserves_datum() {
    assert_eq!(show("(quote (1 #t x \"s\"))"), "(1 #t x \"s\")");
}

#[test]
fn self_evaluating_values() {
    let mut it = Interpreter::new();
    let d = Datum::Number(5);
    let r = it.run_datum(&d).unwrap();
    assert!(datum_equal(&r, &d));
    let s = Datum::Str(std::rc::Rc::new("hi".chars().collect()));
    let r = it.run_datum(&s).unwrap();
    assert!(datum_equal(&r, &s));
}

#[test]
fn macro_my_or_expands_recursively() {
    let src = "(define-syntax my-or (syntax-rules () ((_) #f) ((_ a b ...) (if a a (my-or b ...))))) \
               (my-or #f #f 3 #f)";
    assert_eq!(show(src), "3");
}

#[test]
fn macro_swap_is_hygienic() {
    let src = "(define-syntax let (syntax-rules () ((_ ((n v) ...) body ...) ((lambda (n ...) body ...) v ...)))) \
               (define-syntax swap (syntax-rules () ((_ a b) (let ((tmp a)) (set! a b) (set! b tmp))))) \
               (define tmp 1) (define x 2) (define y 3) \
               (swap tmp y) \
               (list tmp y)";
    assert_eq!(show(src), "(3 1)");
}

#[test]
fn macro_introduced_binding_does_not_capture() {
    let src = "(define x 5) \
               (define-syntax probe (syntax-rules () ((_ v) (letrec ((x 99)) v)))) \
               (probe x)";
    assert_eq!(show(src), "5");
}

#[test]
fn macro_no_matching_clause_errors() {
    let src = "(define-syntax one (syntax-rules () ((_ a) a))) (one)";
    match run1(src) {
        Err(RuntimeError::MatchFailure) => {}
        other => panic!("expected a match failure, got {:?}", other),
    }
}

#[test]
fn hash_table_set_and_ref() {
    assert_eq!(show("(define h (make-hash-table)) (hash-set! h 'k 42) (hash-ref h 'k)"), "42");
    assert_eq!(show("(define h (make-hash-table)) (hash-set! h 'k 42) (hash-ref h 'missing)"), "#f");
}

#[test]
fn hash_table_unhashable_key() {
    match run1("(define h (make-hash-table)) (hash-set! h car 1)") {
        Err(RuntimeError::UnsupportedKey) => {}
        other => panic!("expected an unsupported key error, got {:?}", other),
    }
    assert_eq!(show("(define h (make-hash-table)) (hash-ref h car)"), "#f");
}

#[test]
fn substring_in_range() {
    assert_eq!(show("(substring \"hello\" 1 4)"), "\"ell\"");
}

#[test]
fn substring_out_of_range_is_domain_error() {
    match run1("(substring \"hi\" 0 5)") {
        Err(RuntimeError::Domain) => {}
        other => panic!("expected a domain error, got {:?}", other),
    }
}

#[test]
fn list_primitives() {
    assert_eq!(show("(car '(1 2))"), "1");
    assert_eq!(show("(cdr '(1 2))"), "(2)");
    assert_eq!(show("(cons 1 2)"), "(1 . 2)");
    assert_eq!(show("(length '(a b c))"), "3");
    assert_eq!(show("(reverse '(1 2 3))"), "(3 2 1)");
    assert_eq!(show("(append '(1 2) '(3) '(4 5))"), "(1 2 3 4 5)");
    assert_eq!(show("(null? '())"), "#t");
    assert_eq!(show("(null? '(1))"), "#f");
}

#[test]
fn string_primitives() {
    assert_eq!(show("(string-length \"hello\")"), "5");
    assert_eq!(show("(string-append \"foo\" \"bar\")"), "\"foobar\"");
    assert_eq!(show("(string=? \"a\" \"a\")"), "#t");
    assert_eq!(show("(string-contains \"hello\" \"ll\")"), "2");
    assert_eq!(show("(string-contains \"hello\" \"zz\")"), "#f");
    assert_eq!(show("(string-prefix? \"he\" \"hello\")"), "#t");
    assert_eq!(show("(string-split \"a,b,,c\" #\\,)"), "(\"a\" \"b\" \"\" \"c\")");
    assert_eq!(show("(string->list \"ab\")"), "(#\\a #\\b)");
    assert_eq!(show("(list->string '(#\\a #\\b))"), "\"ab\"");
    assert_eq!(show("(string->number \"-42\")"), "-42");
    assert_eq!(show("(string->symbol \"sym\")"), "sym");
    assert_eq!(show("(symbol->string 'sym)"), "\"sym\"");
}

#[test]
fn string_to_number_accepts_leading_plus() {
    assert_eq!(show("(string->number \"+4\")"), "4");
    assert_eq!(show("(string->number \"-0\")"), "0");
}

#[test]
fn string_to_number_rejects_non_numerals() {
    match run1("(string->number \"4x\")") {
        Err(RuntimeError::Domain) => {}
        other => panic!("expected a domain error, got {:?}", other),
    }
}

#[test]
fn predicates() {
    assert_eq!(show("(boolean? #t)"), "#t");
    assert_eq!(show("(char? #\\a)"), "#t");
    assert_eq!(show("(number? 3)"), "#t");
    assert_eq!(show("(pair? '(1))"), "#t");
    assert_eq!(show("(procedure? car)"), "#t");
    assert_eq!(show("(string? \"s\")"), "#t");
    assert_eq!(show("(symbol? 'a)"), "#t");
    assert_eq!(show("(vector? #(1 2))"), "#t");
    assert_eq!(show("(number? 'a)"), "#f");
}

#[test]
fn type_errors() {
    match run1("(car 5)") {
        Err(RuntimeError::Type) => {}
        other => panic!("expected a type error, got {:?}", other),
    }
    match run1("(+ 1 'a)") {
        Err(RuntimeError::Type) => {}
        other => panic!("expected a type error, got {:?}", other),
    }
}

#[test]
fn arity_errors() {
    match run1("(car)") {
        Err(RuntimeError::Arity) => {}
        other => panic!("expected an arity error, got {:?}", other),
    }
    match run1("((lambda (x) x) 1 2)") {
        Err(RuntimeError::Arity) => {}
        other => panic!("expected an arity error, got {:?}", other),
    }
}

#[test]
fn unbound_symbol_errors() {
    match run1("unknown-name") {
        Err(RuntimeError::Unbound(_)) => {}
        other => panic!("expected an unbound error, got {:?}", other),
    }
}

#[test]
fn malformed_lambda_is_syntax_error() {
    match run1("(lambda 5 x)") {
        Err(RuntimeError::Syntax) => {}
        other => panic!("expected a syntax error, got {:?}", other),
    }
}

#[test]
fn arithmetic_overflow_is_domain_error() {
    match run1("(+ 9223372036854775807 1)") {
        Err(RuntimeError::Domain) => {}
        other => panic!("expected a domain error, got {:?}", other),
    }
}

#[test]
fn global_environment_persists_across_runs() {
    let mut it = Interpreter::new();
    it.run("(define counter 1)").unwrap();
    it.run("(set! counter (+ counter 1))").unwrap();
    let d = it.run("counter").unwrap();
    assert_eq!(print_string(&d), "2");
}

#[test]
fn definitions_persist_after_a_failed_run() {
    let mut it = Interpreter::new();
    assert!(it.run("(define kept 9) (car 5)").is_err());
    let d = it.run("kept").unwrap();
    assert_eq!(print_string(&d), "9");
}
