use dhall::normalize::{show_integer, show_natural, show_text, whnf};
use dhall::record::insert_recordlit_entry;
use dhall::text::{trim_indent, InterpolatedText};
use dhall::{BinOp, Builtin, Expr, TypeMessage, V};

fn name(s: &str) -> String {
    s.to_string()
}

fn num(n: u64) -> Expr {
    Expr::NaturalLit(n)
}

fn var(s: &str) -> Expr {
    Expr::Var(V(name(s), 0))
}

fn line(s: &str) -> InterpolatedText {
    InterpolatedText { chunks: Vec::new(), tail: name(s) }
}

fn heads(lines: &Vec<InterpolatedText>) -> Vec<String> {
    lines.iter().map(|l| l.head()).collect()
}

fn show(e: &Expr) -> String {
    format!("{:?}", e)
}

#[test]
fn shared_indent_is_removed() {
    let mut lines = vec![line("    foo"), line("      bar"), line("    ")];
    trim_indent(&mut lines);
    assert_eq!(heads(&lines), vec![name("foo"), name("  bar"), name("")]);
}

#[test]
fn the_indent_is_that_of_the_last_line() {
    let mut lines = vec![line("    foo"), line("  ")];
    trim_indent(&mut lines);
    assert_eq!(heads(&lines), vec![name("  foo"), name("")]);
}

#[test]
fn empty_lines_do_not_count() {
    let mut lines = vec![line("  a"), line(""), line("  b")];
    trim_indent(&mut lines);
    assert_eq!(heads(&lines), vec![name("a"), name(""), name("b")]);
}

#[test]
fn a_line_without_indent_keeps_all_lines() {
    let mut lines = vec![line("  a"), line("b"), line("  c")];
    trim_indent(&mut lines);
    assert_eq!(heads(&lines), vec![name("  a"), name("b"), name("  c")]);
    let mut lines = vec![line("  a"), line("b")];
    trim_indent(&mut lines);
    assert_eq!(heads(&lines), vec![name("  a"), name("b")]);
}

#[test]
fn tabs_and_spaces_are_different_indents() {
    let mut lines = vec![line("\t a"), line("\t\tb"), line("\t c")];
    trim_indent(&mut lines);
    assert_eq!(heads(&lines), vec![name(" a"), name("\tb"), name(" c")]);
    let mut lines = vec![line(" \ta"), line("\t b")];
    trim_indent(&mut lines);
    assert_eq!(heads(&lines), vec![name(" \ta"), name("\t b")]);
}

#[test]
fn the_indent_is_taken_off_the_text_in_front_of_an_interpolation() {
    let first = InterpolatedText { chunks: vec![(name("  a "), var("x"))], tail: name(" b") };
    let mut lines = vec![first, line("  c")];
    trim_indent(&mut lines);
    assert_eq!(lines[0].chunks[0].0, "a ");
    assert_eq!(lines[0].tail, " b");
    assert_eq!(lines[1].tail, "c");
    // a line that starts with an interpolation has no indent
    let first = InterpolatedText { chunks: vec![(name(""), var("x"))], tail: name("  b") };
    let mut lines = vec![first, line("  c")];
    trim_indent(&mut lines);
    assert_eq!(lines[1].tail, "  c");
}

#[test]
fn a_single_line_loses_its_indent() {
    let mut lines = vec![line("   x")];
    trim_indent(&mut lines);
    assert_eq!(heads(&lines), vec![name("x")]);
    assert!(!lines[0].is_empty());
    assert!(line("").is_empty());
}

#[test]
fn a_new_field_is_added_at_the_end() {
    let mut fields = vec![(name("a"), num(1))];
    insert_recordlit_entry(&mut fields, name("b"), num(2));
    assert_eq!(fields.len(), 2);
    assert_eq!(fields[1].0, "b");
    assert_eq!(show(&fields[1].1), show(&num(2)));
}

#[test]
fn a_second_field_of_one_label_is_merged() {
    let mut fields = vec![(name("a"), num(1)), (name("b"), num(2))];
    insert_recordlit_entry(&mut fields, name("a"), num(3));
    assert_eq!(fields.len(), 2);
    assert_eq!(fields[0].0, "a");
    let expected = Expr::BinOp(BinOp::RecursiveRecordMerge, Box::new(num(1)), Box::new(num(3)));
    assert_eq!(show(&fields[0].1), show(&expected));
    assert_eq!(show(&fields[1].1), show(&num(2)));
}

#[test]
fn numbers_in_decimal() {
    assert_eq!(show_natural(0), "0");
    assert_eq!(show_natural(7), "7");
    assert_eq!(show_natural(10), "10");
    assert_eq!(show_natural(1234567890), "1234567890");
    assert_eq!(show_natural(u64::MAX), "18446744073709551615");
    assert_eq!(show_integer(0), "+0");
    assert_eq!(show_integer(42), "+42");
    assert_eq!(show_integer(-42), "-42");
    assert_eq!(show_integer(i64::MAX), "+9223372036854775807");
    assert_eq!(show_integer(i64::MIN), "-9223372036854775808");
}

#[test]
fn show_reduces_to_a_text() {
    let e = Expr::App(Box::new(Expr::Builtin(Builtin::NaturalShow)), Box::new(num(42)));
    match whnf(&e, 10) {
        Some(Expr::TextLit(chunks, tail)) => {
            assert!(chunks.is_empty());
            assert_eq!(tail, "42");
        }
        other => panic!("{:?}", other),
    }
    let e = Expr::App(
        Box::new(Expr::Builtin(Builtin::IntegerShow)),
        Box::new(Expr::IntegerLit(-3)),
    );
    match whnf(&e, 10) {
        Some(Expr::TextLit(_, tail)) => assert_eq!(tail, "-3"),
        other => panic!("{:?}", other),
    }
}

#[test]
fn indexed_list() {
    let natural = || Expr::Builtin(Builtin::Natural);
    let apply = |b: Builtin, l: Expr| {
        Expr::App(
            Box::new(Expr::App(Box::new(Expr::Builtin(b)), Box::new(natural()))),
            Box::new(l),
        )
    };
    let xs = Expr::NEListLit(Box::new(num(7)), vec![num(8), num(9)]);
    let entry = |i: u64, v: u64| {
        Expr::RecordLit(vec![(name("index"), num(i)), (name("value"), num(v))])
    };
    let expected = Expr::NEListLit(Box::new(entry(0, 7)), vec![entry(1, 8), entry(2, 9)]);
    assert_eq!(show(&whnf(&apply(Builtin::ListIndexed, xs), 10).unwrap()), show(&expected));
    let list_of = |t: Expr| Expr::App(Box::new(Expr::Builtin(Builtin::List)), Box::new(t));
    let empty = Expr::EmptyListLit(Box::new(list_of(natural())));
    let row = Expr::RecordType(vec![(name("index"), natural()), (name("value"), natural())]);
    let expected = Expr::EmptyListLit(Box::new(list_of(row)));
    assert_eq!(show(&whnf(&apply(Builtin::ListIndexed, empty), 10).unwrap()), show(&expected));
}

#[test]
fn descriptions() {
    assert_eq!(TypeMessage::NotAFunction(num(1)).description(), "Not a function");
    assert_eq!(TypeMessage::InvalidInputType(num(1)).description(), "Invalid function input");
    assert_eq!(TypeMessage::InvalidOutputType(num(1)).description(), "Invalid function output");
    assert_eq!(
        TypeMessage::TypeMismatch(num(1), num(2), num(3)).description(),
        "Wrong type of function argument"
    );
    assert_eq!(TypeMessage::Sort.description(), "Unhandled error");
}

#[test]
fn text_in_source_form() {
    assert_eq!(show_text(&name("")), "\"\"");
    assert_eq!(show_text(&name("abc")), "\"abc\"");
    assert_eq!(show_text(&name("a\"b")), "\"a\\\"b\"");
    assert_eq!(show_text(&name("a\\b")), "\"a\\\\b\"");
    assert_eq!(show_text(&name("$x")), "\"\\u0024x\"");
    assert_eq!(show_text(&name("a\nb\tc\r")), "\"a\\nb\\tc\\r\"");
    assert_eq!(show_text(&name("\u{8}\u{c}")), "\"\\b\\f\"");
    assert_eq!(show_text(&name("\u{1}\u{1f}\u{0}")), "\"\\u0001\\u001f\\u0000\"");
    assert_eq!(show_text(&name("é ✓")), "\"é ✓\"");
    assert_eq!(show_text(&name(" ~\u{7f}")), "\" ~\u{7f}\"");
}

#[test]
fn text_show_reduces_a_literal() {
    let show = |e: Expr| Expr::App(Box::new(Expr::Builtin(Builtin::TextShow)), Box::new(e));
    match whnf(&show(Expr::TextLit(Vec::new(), name("a\"b"))), 10) {
        Some(Expr::TextLit(chunks, tail)) => {
            assert!(chunks.is_empty());
            assert_eq!(tail, "\"a\\\"b\"");
        }
        other => panic!("{:?}", other),
    }
    let open = Expr::TextLit(vec![(name("a"), var("x"))], name("b"));
    let stuck = whnf(&show(dhall::syntax::clone_expr(&open)), 10).unwrap();
    assert_eq!(stuck, show(open));
}
