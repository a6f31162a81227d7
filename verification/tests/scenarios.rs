use borrow_repair::classify::PassMode;
use borrow_repair::engine::{make_borrows, plan, repair, RepairInput};
use borrow_repair::error::{BorrowerError, RepairError};
use borrow_repair::grammar::parse;

fn input(extracted: &str, original: &str, evidence: &str) -> RepairInput {
    RepairInput {
        extracted_code: extracted.to_string(),
        original_code: original.to_string(),
        mutable_call_evidence: evidence.to_string(),
        caller_name: "new_foo".to_string(),
        callee_name: "bar".to_string(),
    }
}

const PUSH_EXTRACTED: &str = "fn new_foo() {
    let mut v: Vec<i32> = Vec::new();
    bar(v);
}

fn bar(v: Vec<i32>) {
    v.push(1);
}
";

const PUSH_ORIGINAL: &str = "fn new_foo() {
    let mut v: Vec<i32> = Vec::new();
    v.push(1);
}
";

const PUSH_REPAIRED: &str = "fn new_foo() {
    let mut v: Vec<i32> = Vec::new();
    bar(&mut v);
}

fn bar(v: &mut Vec<i32>) {
    v.push(1);
}
";

const PRINT_EXTRACTED: &str = "fn new_foo() {
    let n: i32 = 5;
    bar(n);
}

fn bar(n: i32) {
    println!(\"{}\", n);
}
";

const PRINT_ORIGINAL: &str = "fn new_foo() {
    let n: i32 = 5;
    println!(\"{}\", n);
}
";

const TWICE_EXTRACTED: &str = "fn new_foo() {
    let s: String = String::from(\"hi\");
    bar(s);
    println!(\"{}\", s);
}

fn bar(s: String) {
    println!(\"{}\", s);
    println!(\"{}\", s);
}
";

const TWICE_ORIGINAL: &str = "fn new_foo() {
    let s: String = String::from(\"hi\");
    println!(\"{}\", s);
    println!(\"{}\", s);
    println!(\"{}\", s);
}
";

const TWICE_REPAIRED: &str = "fn new_foo() {
    let s: String = String::from(\"hi\");
    bar(&s);
    println!(\"{}\", s);
}

fn bar(s: &String) {
    println!(\"{}\", s);
    println!(\"{}\", s);
}
";

const ASSIGN_EXTRACTED: &str = "fn new_foo() {
    let mut x: i32 = 0;
    bar(x);
    println!(\"{}\", x);
}

fn bar(x: i32) {
    x += 1;
}
";

const ASSIGN_ORIGINAL: &str = "fn new_foo() {
    let mut x: i32 = 0;
    x += 1;
    println!(\"{}\", x);
}
";

const ASSIGN_REPAIRED: &str = "fn new_foo() {
    let mut x: i32 = 0;
    bar(&mut x);
    println!(\"{}\", x);
}

fn bar(x: &mut i32) {
    *x += 1;
}
";

#[test]
fn mutable_receiver_is_lent_for_writing() {
    let i = input(PUSH_EXTRACTED, PUSH_ORIGINAL, "v.push(1)");
    assert_eq!(repair(&i), Ok(PUSH_REPAIRED.to_string()));
    let p = plan(&i).unwrap();
    assert_eq!(p.len(), 1);
    assert_eq!(p.call_sites, 1);
    assert_eq!(p.mode_of("v"), Some(PassMode::MutableRef));
    assert_eq!(p.mode_of("w"), None);
    assert_eq!(p.entries[0].name, "v");
}

#[test]
fn single_read_is_passed_by_value() {
    let i = input(PRINT_EXTRACTED, PRINT_ORIGINAL, "");
    let p = plan(&i).unwrap();
    assert_eq!(p.mode_of("n"), Some(PassMode::Value));
    assert_eq!(repair(&i), Ok(PRINT_EXTRACTED.to_string()));
}

#[test]
fn reread_variable_is_lent_for_reading() {
    let i = input(TWICE_EXTRACTED, TWICE_ORIGINAL, "");
    let p = plan(&i).unwrap();
    assert_eq!(p.mode_of("s"), Some(PassMode::ImmutableRef));
    assert_eq!(repair(&i), Ok(TWICE_REPAIRED.to_string()));
}

#[test]
fn missing_callee_is_not_found() {
    let extracted = "fn new_foo() {
    let n: i32 = 5;
    bar(n);
}
";
    let i = input(extracted, PRINT_ORIGINAL, "");
    assert_eq!(repair(&i), Err(RepairError::FunctionNotFound));
    assert!(matches!(plan(&i), Err(RepairError::FunctionNotFound)));
}

#[test]
fn missing_caller_is_not_found() {
    let extracted = "fn bar(n: i32) {
    println!(\"{}\", n);
}
";
    let i = input(extracted, PRINT_ORIGINAL, "");
    assert_eq!(repair(&i), Err(RepairError::FunctionNotFound));
}

#[test]
fn evidence_wins_over_single_read() {
    // `n` is read once and never used again, which alone would move it.
    let i = input(PRINT_EXTRACTED, PRINT_ORIGINAL, "n.clear()");
    let p = plan(&i).unwrap();
    assert_eq!(p.mode_of("n"), Some(PassMode::MutableRef));
}

#[test]
fn reassignment_is_lent_for_writing_and_dereferenced() {
    let i = input(ASSIGN_EXTRACTED, ASSIGN_ORIGINAL, "");
    assert_eq!(plan(&i).unwrap().mode_of("x"), Some(PassMode::MutableRef));
    assert_eq!(repair(&i), Ok(ASSIGN_REPAIRED.to_string()));
}

#[test]
fn repaired_program_is_a_fixed_point() {
    for (extracted, original, evidence) in [
        (PUSH_EXTRACTED, PUSH_ORIGINAL, "v.push(1)"),
        (TWICE_EXTRACTED, TWICE_ORIGINAL, ""),
        (ASSIGN_EXTRACTED, ASSIGN_ORIGINAL, ""),
        (PRINT_EXTRACTED, PRINT_ORIGINAL, ""),
    ] {
        let first = repair(&input(extracted, original, evidence)).unwrap();
        let again = input(&first, original, evidence);
        assert_eq!(repair(&again), Ok(first.clone()));
        let before = plan(&input(extracted, original, evidence)).unwrap();
        let after = plan(&again).unwrap();
        assert_eq!(before.len(), after.len());
        for k in 0..before.len() {
            assert_eq!(before.entries[k].name, after.entries[k].name);
            assert_eq!(before.entries[k].mode, after.entries[k].mode);
        }
    }
}

#[test]
fn same_input_same_output() {
    let a = repair(&input(PUSH_EXTRACTED, PUSH_ORIGINAL, "v.push(1)"));
    let b = repair(&input(PUSH_EXTRACTED, PUSH_ORIGINAL, "v.push(1)"));
    assert_eq!(a, b);
    assert_eq!(a.unwrap().as_bytes(), PUSH_REPAIRED.as_bytes());
}

#[test]
fn shared_reference_is_upgraded_in_place() {
    let extracted = "fn new_foo() {
    let mut v: Vec<i32> = Vec::new();
    bar(&v);
}

fn bar(v: &Vec<i32>) {
    v.push(1);
}
";
    let i = input(extracted, PUSH_ORIGINAL, "v.push(1)");
    assert_eq!(repair(&i), Ok(PUSH_REPAIRED.to_string()));
}

#[test]
fn lifetime_is_kept_before_mut() {
    let extracted = "fn new_foo() {
    let mut v: Vec<i32> = Vec::new();
    bar(&v);
}

fn bar<'a>(v: &'a Vec<i32>) {
    v.push(1);
}
";
    let out = repair(&input(extracted, PUSH_ORIGINAL, "v.push(1)")).unwrap();
    assert!(out.contains("fn bar<'a>(v: &'a mut Vec<i32>) {"));
    assert!(out.contains("bar(&mut v);"));
}

#[test]
fn every_call_in_the_caller_is_rewritten() {
    let extracted = "fn new_foo() {
    let k = 0;
    let mut v: Vec<i32> = Vec::new();
    bar(v, 1);
    bar(v, 2);
}

fn bar(v: Vec<i32>, k: i32) {
    v.push(k);
}
";
    let original = "fn new_foo() {
    let k = 0;
    let mut v: Vec<i32> = Vec::new();
    v.push(1);
    v.push(2);
}
";
    let out = repair(&input(extracted, original, "v.push(k)")).unwrap();
    assert!(out.contains("bar(&mut v, 1);"));
    assert!(out.contains("bar(&mut v, 2);"));
    assert!(out.contains("fn bar(v: &mut Vec<i32>, k: i32) {"));
    // `k` does not occur in what was extracted: it is not captured.
    let p = plan(&input(extracted, original, "v.push(k)")).unwrap();
    assert_eq!(p.len(), 1);
    assert_eq!(p.call_sites, 2);
    assert_eq!(p.mode_of("k"), None);
}

#[test]
fn signature_is_repaired_without_any_call() {
    let extracted = "fn new_foo() {
    let mut v: Vec<i32> = Vec::new();
}

fn bar(v: Vec<i32>) {
    v.push(1);
}
";
    let out = repair(&input(extracted, PUSH_ORIGINAL, "v.push(1)")).unwrap();
    assert!(out.contains("fn bar(v: &mut Vec<i32>) {"));
    assert_eq!(plan(&input(extracted, PUSH_ORIGINAL, "v.push(1)")).unwrap().call_sites, 0);
}

#[test]
fn generic_types_are_one_parameter_each() {
    let extracted = "fn new_foo() {
    let m: HashMap<String, i32> = HashMap::new();
    let n: i32 = 1;
    bar(m, n);
    println!(\"{}\", m.len());
}

fn bar(m: HashMap<String, i32>, n: i32) {
    println!(\"{} {}\", m.len(), n);
    println!(\"{}\", m.len());
}
";
    let original = "fn new_foo() {
    let m: HashMap<String, i32> = HashMap::new();
    let n: i32 = 1;
    println!(\"{} {}\", m.len(), n);
    println!(\"{}\", m.len());
    println!(\"{}\", m.len());
}
";
    let i = input(extracted, original, "");
    let p = plan(&i).unwrap();
    assert_eq!(p.len(), 2);
    assert_eq!(p.mode_of("m"), Some(PassMode::ImmutableRef));
    assert_eq!(p.mode_of("n"), Some(PassMode::Value));
    let out = repair(&i).unwrap();
    assert!(out.contains("bar(&m, n);"));
    assert!(out.contains("fn bar(m: &HashMap<String, i32>, n: i32) {"));
}

#[test]
fn comments_and_strings_are_not_code() {
    let extracted = "fn new_foo() {
    let n: i32 = 5; // bar(n, n) }
    let t = \"} bar(\";
    /* a /* nested */ comment { */
    let c = '}';
    bar(n);
}

fn bar(n: i32) {
    println!(\"{}\", n);
}
";
    let original = "fn new_foo() {
    let n: i32 = 5;
    let t = \"} bar(\";
    let c = '}';
    println!(\"{}\", n);
}
";
    assert_eq!(repair(&input(extracted, original, "")), Ok(extracted.to_string()));
}

#[test]
fn evidence_about_another_function_is_ignored() {
    let i = input(PRINT_EXTRACTED, PRINT_ORIGINAL, "fn other() { w.push(1); }");
    assert_eq!(plan(&i).unwrap().mode_of("n"), Some(PassMode::Value));
    let j = input(PRINT_EXTRACTED, PRINT_ORIGINAL, "fn bar() { n.clear(); }");
    assert_eq!(plan(&j).unwrap().mode_of("n"), Some(PassMode::MutableRef));
}

#[test]
fn coarse_signal_covers_every_failure() {
    assert_eq!(
        make_borrows(input(PUSH_EXTRACTED, PUSH_ORIGINAL, "v.push(1)")),
        Ok(PUSH_REPAIRED.to_string())
    );
    assert_eq!(
        make_borrows(input("fn new_foo() {", PUSH_ORIGINAL, "")),
        Err(BorrowerError::BorrowerFailed)
    );
    assert_eq!(BorrowerError::from(RepairError::ParseError), BorrowerError::BorrowerFailed);
    assert_eq!(BorrowerError::from(RepairError::RenderError), BorrowerError::BorrowerFailed);
    assert_eq!(BorrowerError::BorrowerFailed.message(), "Borrower failed");
    assert_eq!(RepairError::FunctionNotFound.message(), "caller or callee not found");
}

#[test]
fn calls_of_the_repaired_program_fit_the_signature() {
    let extracted = "fn new_foo() {
    let k = 0;
    let mut v: Vec<i32> = Vec::new();
    bar(v, 1);
    bar(v, 2);
}

fn bar(v: Vec<i32>, k: i32) {
    v.push(k);
}
";
    let original = "fn new_foo() {
    let k = 0;
    let mut v: Vec<i32> = Vec::new();
    v.push(1);
    v.push(2);
}
";
    let out = repair(&input(extracted, original, "v.push(k)")).unwrap();
    let src = parse(out.chars().collect()).unwrap();
    let caller: Vec<char> = "new_foo".chars().collect();
    let callee: Vec<char> = "bar".chars().collect();
    let site = src.locate(&caller, &callee).unwrap();
    assert_eq!(site.calls.len(), 2);
    assert_eq!(site.params.len(), 2);
    for c in site.calls.iter() {
        assert!(src.call_fits(*c, 2));
    }
    assert!(src.arity_ok(&site));
}

#[test]
fn the_rest_of_the_program_is_left_alone() {
    let extracted = "use std::collections::HashMap;

/// Counts things.
struct Counter<'a> {
    hits: HashMap<&'a str, u32>,
}

impl<'a> Counter<'a> {
    fn new() -> Self {
        Counter { hits: HashMap::new() }
    }

    fn get(&self, key: &'a str) -> u32 {
        *self.hits.get(key).unwrap_or(&0)
    }
}

trait Shape {
    fn area(&self) -> f64;
}

fn helper<T: Clone, F: Fn(&T) -> T>(t: &T, f: F) -> T {
    f(t)
}

fn new_foo() {
    let mut names: Vec<String> = Vec::new();
    let label = String::from(\"a\");
    let pattern = r#\"\"}\"#;
    bar(names, label);
    println!(\"{} {}\", label, pattern);
}

fn bar(names: Vec<String>, label: String) {
    names.push(label.clone());
}
";
    let original = "fn new_foo() {
    let mut names: Vec<String> = Vec::new();
    let label = String::from(\"a\");
    let pattern = r#\"\"}\"#;
    names.push(label.clone());
    println!(\"{} {}\", label, pattern);
}
";
    let i = input(extracted, original, "names.push(label.clone())");
    let p = plan(&i).unwrap();
    assert_eq!(p.mode_of("names"), Some(PassMode::MutableRef));
    assert_eq!(p.mode_of("label"), Some(PassMode::ImmutableRef));
    let expected = extracted
        .replace("bar(names, label);", "bar(&mut names, &label);")
        .replace(
            "fn bar(names: Vec<String>, label: String) {",
            "fn bar(names: &mut Vec<String>, label: &String) {",
        );
    assert_eq!(repair(&i), Ok(expected));
}

#[test]
fn callee_may_stand_before_the_caller() {
    let extracted = "fn bar<T>(mut v: Vec<T>, item: T) -> usize
where
    T: Clone,
{
    v.push(item);
    v.len()
}

fn new_foo() -> usize {
    let v: Vec<u8> = Vec::new();
    let item: u8 = 7;
    let n = bar(
        v, // the list
        item,
    );
    n + v.len()
}
";
    let original = "fn new_foo() -> usize {
    let v: Vec<u8> = Vec::new();
    let item: u8 = 7;
    let n = {
        v.push(item);
        v.len()
    };
    n + v.len()
}
";
    let i = input(extracted, original, "v.push(item)");
    let out = repair(&i).unwrap();
    let expected = extracted
        .replace("mut v: Vec<T>", "mut v: &mut Vec<T>")
        .replace("        v, // the list", "        &mut v, // the list");
    assert_eq!(out, expected);
    let p = plan(&i).unwrap();
    assert_eq!(p.len(), 2);
    assert_eq!(p.mode_of("v"), Some(PassMode::MutableRef));
    assert_eq!(p.mode_of("item"), Some(PassMode::Value));
}

#[test]
fn carriage_returns_and_tabs_are_kept() {
    let extracted = "fn new_foo() {\r\n\tlet s: String = String::new();\r\n\tbar(s);\r\n\tdrop(s);\r\n}\r\nfn bar(s: String) {\r\n\tprintln!(\"{}\", s);\r\n}\r\n";
    let original =
        "fn new_foo() {\r\n\tlet s: String = String::new();\r\n\tprintln!(\"{}\", s);\r\n\tdrop(s);\r\n}\r\n";
    let out = repair(&input(extracted, original, "")).unwrap();
    let expected = extracted.replace("bar(s);", "bar(&s);").replace("bar(s: String)", "bar(s: &String)");
    assert_eq!(out, expected);
}

#[test]
fn calls_with_type_arguments_are_rewritten() {
    let extracted = "fn new_foo() {
    let mut v: Vec<u8> = Vec::new();
    bar::<u8>(v);
    bar(v);
}

fn bar<T>(v: Vec<T>) {
    v.clear();
}
";
    let original = "fn new_foo() {
    let mut v: Vec<u8> = Vec::new();
    v.clear();
    v.clear();
}
";
    let i = input(extracted, original, "v.clear()");
    assert_eq!(plan(&i).unwrap().call_sites, 2);
    let expected = extracted
        .replace("bar::<u8>(v);", "bar::<u8>(&mut v);")
        .replace("bar(v);", "bar(&mut v);")
        .replace("fn bar<T>(v: Vec<T>)", "fn bar<T>(v: &mut Vec<T>)");
    assert_eq!(repair(&i), Ok(expected));
}
