use borrow_repair::engine::{plan, repair, RepairInput};
use borrow_repair::error::RepairError;

fn request(extracted: &str, original: &str, evidence: &str) -> RepairInput {
    RepairInput {
        extracted_code: extracted.to_string(),
        original_code: original.to_string(),
        mutable_call_evidence: evidence.to_string(),
        caller_name: "new_foo".to_string(),
        callee_name: "bar".to_string(),
    }
}

const EXTRACTED: &str = "fn new_foo() {
    let mut v: Vec<i32> = Vec::new();
    bar(v);
}

fn bar(v: Vec<i32>) {
    v.push(1);
}
";

const ORIGINAL: &str = "fn new_foo() {
    let mut v: Vec<i32> = Vec::new();
    v.push(1);
}
";

#[test]
fn unbalanced_extracted_is_a_parse_error() {
    let broken = "fn new_foo() { bar(v; }\nfn bar(v: Vec<i32>) { v.push(1); }";
    assert_eq!(repair(&request(broken, ORIGINAL, "")), Err(RepairError::ParseError));
    assert_eq!(repair(&request("fn new_foo() {", ORIGINAL, "")), Err(RepairError::ParseError));
    assert_eq!(repair(&request("fn new_foo() { ] }", ORIGINAL, "")), Err(RepairError::ParseError));
    assert_eq!(repair(&request("}", ORIGINAL, "")), Err(RepairError::ParseError));
}

#[test]
fn unbalanced_original_is_a_parse_error() {
    assert_eq!(
        repair(&request(EXTRACTED, "fn new_foo() { v.push(1); ", "")),
        Err(RepairError::ParseError)
    );
    assert!(matches!(
        plan(&request(EXTRACTED, "fn new_foo() { v.push(1; }", "")),
        Err(RepairError::ParseError)
    ));
}

#[test]
fn unbalanced_evidence_is_a_parse_error() {
    assert_eq!(repair(&request(EXTRACTED, ORIGINAL, "v.push(1")), Err(RepairError::ParseError));
}

#[test]
fn unclosed_literals_and_comments_are_parse_errors() {
    let open_string = "fn new_foo() { let s = \"abc; }";
    let open_comment = "fn new_foo() { /* never closed }";
    let open_char = "fn new_foo() { let c = '\\n; }";
    let stray_quote = "fn new_foo() { let c = ' ; }";
    for text in [open_string, open_comment, open_char, stray_quote] {
        assert_eq!(repair(&request(text, ORIGINAL, "")), Err(RepairError::ParseError));
    }
}

#[test]
fn parse_error_comes_before_function_not_found() {
    // Neither function exists, and the original is broken as well.
    assert_eq!(repair(&request("fn f() {}", "fn g() {", "")), Err(RepairError::ParseError));
}

#[test]
fn renamed_parameter_is_a_capture_mismatch() {
    let extracted = "fn new_foo() {
    let mut v: Vec<i32> = Vec::new();
    bar(v);
}

fn bar(w: Vec<i32>) {
    w.push(1);
}
";
    assert_eq!(repair(&request(extracted, ORIGINAL, "")), Err(RepairError::CaptureMismatch));
}

#[test]
fn missing_original_caller_is_a_capture_mismatch() {
    let original = "fn something_else() { let mut v = Vec::new(); v.push(1); }";
    assert_eq!(repair(&request(EXTRACTED, original, "")), Err(RepairError::CaptureMismatch));
}

#[test]
fn wrong_argument_count_is_a_capture_mismatch() {
    let extracted = "fn new_foo() {
    let mut v: Vec<i32> = Vec::new();
    bar(v, 1);
}

fn bar(v: Vec<i32>) {
    v.push(1);
}
";
    assert_eq!(
        repair(&request(extracted, ORIGINAL, "v.push(1)")),
        Err(RepairError::CaptureMismatch)
    );
}

#[test]
fn pattern_parameter_is_a_capture_mismatch() {
    let extracted = "fn new_foo() {
    let p = (1, 2);
    bar(p);
}

fn bar((a, b): (i32, i32)) {
    println!(\"{}\", a + b);
}
";
    let original = "fn new_foo() {
    let p = (1, 2);
    println!(\"{}\", p.0 + p.1);
}
";
    assert_eq!(repair(&request(extracted, original, "")), Err(RepairError::CaptureMismatch));
}

#[test]
fn empty_signature_with_unknown_evidence_is_a_capture_mismatch() {
    let extracted = "fn new_foo() {
    bar();
}

fn bar() {
    println!(\"hi\");
}
";
    let original = "fn new_foo() {
    println!(\"hi\");
}
";
    assert_eq!(
        repair(&request(extracted, original, "z.push(1)")),
        Err(RepairError::CaptureMismatch)
    );
    assert_eq!(repair(&request(extracted, original, "")), Ok(extracted.to_string()));
}

#[test]
fn empty_signature_with_known_variable_is_inconsistent_evidence() {
    let extracted = "fn new_foo() {
    let mut z = Vec::new();
    bar();
}

fn bar() {
    println!(\"hi\");
}
";
    let original = "fn new_foo() {
    let mut z = Vec::new();
    println!(\"hi\");
}
";
    assert_eq!(
        repair(&request(extracted, original, "z.push(1)")),
        Err(RepairError::InconsistentMutabilityEvidence)
    );
}

#[test]
fn evidence_about_uncaptured_variable_is_inconsistent() {
    assert_eq!(
        repair(&request(EXTRACTED, ORIGINAL, "w.push(1)")),
        Err(RepairError::InconsistentMutabilityEvidence)
    );
    assert!(matches!(
        plan(&request(EXTRACTED, ORIGINAL, "v.push(1); w.push(2)")),
        Err(RepairError::InconsistentMutabilityEvidence)
    ));
}

#[test]
fn capture_mismatch_comes_before_inconsistent_evidence() {
    let extracted = "fn new_foo() {
    let mut v: Vec<i32> = Vec::new();
    bar(v);
}

fn bar(u: Vec<i32>) {
    u.push(1);
}
";
    assert_eq!(
        repair(&request(extracted, ORIGINAL, "w.push(1)")),
        Err(RepairError::CaptureMismatch)
    );
}

#[test]
fn every_failure_has_its_own_message() {
    let all = [
        RepairError::ParseError,
        RepairError::FunctionNotFound,
        RepairError::CaptureMismatch,
        RepairError::InconsistentMutabilityEvidence,
        RepairError::RenderError,
    ];
    for (i, a) in all.iter().enumerate() {
        for (j, b) in all.iter().enumerate() {
            assert_eq!(i == j, a.message() == b.message());
        }
    }
    assert_eq!(RepairError::ParseError.message(), "input is not well formed");
    assert_eq!(
        RepairError::CaptureMismatch.message(),
        "parameters do not match the original caller"
    );
    assert_eq!(
        RepairError::InconsistentMutabilityEvidence.message(),
        "evidence names an uncaptured variable"
    );
    assert_eq!(RepairError::RenderError.message(), "rewritten program is inconsistent");
}

#[test]
fn insertion_that_breaks_the_text_is_a_render_error() {
    // The `*` that the assignment needs would open a comment after the `/`.
    let extracted = "fn new_foo() {
    let mut x: i32 = 0;
    bar(x);
}

fn bar(x: i32) {
    let y = 1 /x += 1;
}
";
    let original = "fn new_foo() {
    let mut x: i32 = 0;
    x += 1;
}
";
    assert_eq!(repair(&request(extracted, original, "")), Err(RepairError::RenderError));
    assert!(plan(&request(extracted, original, "")).is_ok());
}

#[test]
fn stray_token_behind_the_last_function_is_a_parse_error() {
    let extracted = format!("{}@\n", EXTRACTED);
    assert_eq!(repair(&request(&extracted, ORIGINAL, "v.push(1)")), Err(RepairError::ParseError));
    let original = format!("{}@\n", ORIGINAL);
    assert_eq!(repair(&request(EXTRACTED, &original, "v.push(1)")), Err(RepairError::ParseError));
    assert!(matches!(
        plan(&request(&extracted, ORIGINAL, "v.push(1)")),
        Err(RepairError::ParseError)
    ));
    // Neither text needs an insertion; it is refused all the same.
    let mut settled = RepairInput {
        extracted_code: "fn a(){}fn b(){}@".to_string(),
        original_code: "fn a(){}".to_string(),
        mutable_call_evidence: String::new(),
        caller_name: "a".to_string(),
        callee_name: "b".to_string(),
    };
    assert_eq!(repair(&settled), Err(RepairError::ParseError));
    settled.extracted_code = "fn a(){}fn b(){}".to_string();
    assert_eq!(repair(&settled), Ok("fn a(){}fn b(){}".to_string()));
    let alone = RepairInput {
        extracted_code: "fn a(){}@".to_string(),
        original_code: String::new(),
        mutable_call_evidence: String::new(),
        caller_name: "a".to_string(),
        callee_name: "a".to_string(),
    };
    assert_eq!(repair(&alone), Err(RepairError::ParseError));
}

#[test]
fn tokens_between_the_functions_are_a_parse_error() {
    let between = EXTRACTED.replace("}\n\nfn bar", "}\n\n- fn bar");
    assert_ne!(between, EXTRACTED);
    assert_eq!(repair(&request(&between, ORIGINAL, "v.push(1)")), Err(RepairError::ParseError));
    let headless = EXTRACTED.replace("fn bar(v: Vec<i32>) {", "fn bar {");
    assert_eq!(repair(&request(&headless, ORIGINAL, "v.push(1)")), Err(RepairError::ParseError));
    let dangling = EXTRACTED.replace("    v.push(1);\n", "    v.push(1);\n    fn\n");
    assert_eq!(repair(&request(&dangling, ORIGINAL, "v.push(1)")), Err(RepairError::ParseError));
}

#[test]
fn binding_without_its_semicolon_is_a_parse_error() {
    let unfinished = EXTRACTED.replace("Vec::new();", "Vec::new()");
    assert_ne!(unfinished, EXTRACTED);
    assert_eq!(repair(&request(&unfinished, ORIGINAL, "v.push(1)")), Err(RepairError::ParseError));
    let run_on = EXTRACTED.replace("    bar(v);", "    bar(v)\n    let w = 1;");
    assert_eq!(repair(&request(&run_on, ORIGINAL, "v.push(1)")), Err(RepairError::ParseError));
    let original = ORIGINAL.replace("v.push(1);", "v.push(1) let w = 1;");
    assert_eq!(repair(&request(EXTRACTED, &original, "v.push(1)")), Err(RepairError::ParseError));
}

#[test]
fn evidence_is_a_list_of_calls_not_a_program() {
    assert!(repair(&request(EXTRACTED, ORIGINAL, "v.push(1)")).is_ok());
    assert!(repair(&request(EXTRACTED, ORIGINAL, "v.push(1); v.push(2)")).is_ok());
    assert!(repair(&request(EXTRACTED, ORIGINAL, "fn bar() { v.push(1); }")).is_ok());
}
