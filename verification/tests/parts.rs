use borrow_repair::classify::{choose_mode, PassMode};
use borrow_repair::lexer::{lex, lexeme, TokenKind};
use borrow_repair::rewrite::{render, Edit, EditKind};
use borrow_repair::grammar::parse;
use borrow_repair::source::tokenize;
use borrow_repair::text::{
    chars_of, copy_span, is_digit, is_ident_continue, is_ident_start, is_space, same_text,
    span_eq, span_is, string_of,
};

fn chars(s: &str) -> Vec<char> {
    s.chars().collect()
}

#[test]
fn strings_and_characters_convert_both_ways() {
    assert_eq!(chars_of("a\u{e9}b"), vec!['a', '\u{e9}', 'b']);
    assert_eq!(chars_of(""), Vec::<char>::new());
    assert_eq!(string_of(&vec!['a', 'b']), "ab");
    assert_eq!(string_of(&Vec::new()), "");
    assert_eq!(string_of(&chars_of("fn f() {}")), "fn f() {}");
}

#[test]
fn character_classes() {
    assert!(is_space(' ') && is_space('\n') && is_space('\t') && is_space('\r'));
    assert!(!is_space('a'));
    assert!(is_digit('0') && is_digit('9') && !is_digit('a'));
    assert!(is_ident_start('a') && is_ident_start('Z') && is_ident_start('_'));
    assert!(is_ident_start('\u{e9}'));
    assert!(!is_ident_start('1') && !is_ident_start('-'));
    assert!(is_ident_continue('1') && is_ident_continue('x') && !is_ident_continue('.'));
}

#[test]
fn pieces_of_text_compare_by_content() {
    let a = chars("hello world");
    let b = chars("say hello");
    assert!(span_eq(&a, 0, 5, &b, 4, 9));
    assert!(!span_eq(&a, 0, 5, &b, 3, 8));
    assert!(!span_eq(&a, 0, 5, &b, 4, 8));
    assert!(span_eq(&a, 3, 3, &b, 0, 0));
    assert!(span_is(&a, 6, 11, &chars("world")));
    assert!(!span_is(&a, 6, 11, &chars("worlds")));
    assert!(same_text(&chars("abc"), &chars("abc")));
    assert!(!same_text(&chars("abc"), &chars("abd")));
    assert_eq!(copy_span(&a, 6, 11), chars("world"));
    assert_eq!(copy_span(&a, 2, 2), Vec::<char>::new());
}

#[test]
fn tokens_have_kinds_and_bounds() {
    let text = chars("let x1 = 42u8+y;");
    let toks = lex(&text).unwrap();
    let got: Vec<(TokenKind, usize, usize)> =
        toks.iter().map(|t| (t.kind, t.start, t.end)).collect();
    assert_eq!(
        got,
        vec![
            (TokenKind::Ident, 0, 3),
            (TokenKind::Ident, 4, 6),
            (TokenKind::Punct, 7, 8),
            (TokenKind::Number, 9, 13),
            (TokenKind::Punct, 13, 14),
            (TokenKind::Ident, 14, 15),
            (TokenKind::Punct, 15, 16),
        ]
    );
}

#[test]
fn quotes_open_characters_or_lifetimes() {
    let kinds = |s: &str| -> Vec<TokenKind> {
        lex(&chars(s)).unwrap().iter().map(|t| t.kind).collect()
    };
    assert_eq!(kinds("&'a str"), vec![TokenKind::Punct, TokenKind::Lifetime, TokenKind::Ident]);
    assert_eq!(kinds("'x'"), vec![TokenKind::CharLit]);
    assert_eq!(kinds("'\\''"), vec![TokenKind::CharLit]);
    assert_eq!(kinds("'\\u{1F600}' a"), vec![TokenKind::CharLit, TokenKind::Ident]);
    assert_eq!(kinds("\"a\\\"b\" c"), vec![TokenKind::Str, TokenKind::Ident]);
    assert_eq!(kinds("'outer: loop"), vec![TokenKind::Lifetime, TokenKind::Punct, TokenKind::Ident]);
    assert!(lex(&chars("'")).is_none());
    assert_eq!(kinds("' '"), vec![TokenKind::CharLit]);
    assert!(lex(&chars("'-x")).is_none());
    assert!(lex(&chars("\"abc")).is_none());
    assert!(lex(&chars("\"abc\\")).is_none());
}

#[test]
fn comments_are_gaps() {
    let toks = lex(&chars("a // b c\n/* d /* e */ f */ g")).unwrap();
    assert_eq!(toks.len(), 2);
    assert_eq!((toks[0].start, toks[0].end), (0, 1));
    assert_eq!((toks[1].start, toks[1].end), (27, 28));
    assert!(lex(&chars("a /* b /* c */")).is_none());
    assert!(lex(&chars("a /*")).is_none());
    assert_eq!(lex(&chars("a // no line feed")).unwrap().len(), 1);
    assert_eq!(lex(&chars("")).unwrap().len(), 0);
    assert_eq!(lex(&chars("a / b")).unwrap().len(), 3);
}

#[test]
fn one_lexeme_at_a_time() {
    let text = chars("ab  \"s\" 'l 7");
    assert_eq!(lexeme(&text, 0), Some((Some(TokenKind::Ident), 2)));
    assert_eq!(lexeme(&text, 2), Some((None, 3)));
    assert_eq!(lexeme(&text, 4), Some((Some(TokenKind::Str), 7)));
    assert_eq!(lexeme(&text, 8), Some((Some(TokenKind::Lifetime), 10)));
    assert_eq!(lexeme(&text, 11), Some((Some(TokenKind::Number), 12)));
}

#[test]
fn brackets_must_match_by_kind() {
    assert!(tokenize(chars("fn f(a: [u8; 2]) { g(a[0]); }")).is_some());
    assert!(tokenize(chars("")).is_some());
    assert!(tokenize(chars("( ]")).is_none());
    assert!(tokenize(chars("(")).is_none());
    assert!(tokenize(chars(")")).is_none());
    assert!(tokenize(chars("{ ( } )")).is_none());
    assert!(tokenize(chars("a < b")).is_some());
    assert!(parse(chars("( ]")).is_none());
    assert!(parse(chars("fn f() { ( ] }")).is_none());
}

#[test]
fn definitions_parameters_and_calls() {
    let src = tokenize(chars(
        "fn outer<T: Fn(u8) -> u8>(f: T, mut m: Vec<(u8, u8)>) -> u8 where T: Copy { inner(1, (2, 3), [4, 5]); x.inner(9); 0 }\nfn decl(a: u8);\nfn inner(a: u8, b: (u8, u8), c: [u8; 2]) {}",
    ))
    .unwrap();
    let defs = src.defs();
    assert_eq!(defs.len(), 2);
    let outer = src.find_fn(&chars("outer")).unwrap();
    assert_eq!(outer, defs[0]);
    assert!(src.find_fn(&chars("decl")).is_none());
    assert!(src.find_fn(&chars("missing")).is_none());
    let params = src.params(&outer);
    assert_eq!(params.len(), 2);
    let name = |k: usize| -> String {
        let t = src.tokens[k];
        src.text[t.start..t.end].iter().collect()
    };
    assert_eq!(name(params[0].unwrap().name), "f");
    assert_eq!(name(params[1].unwrap().name), "m");
    assert_eq!(name(params[1].unwrap().ty), "Vec");
    let calls = src.calls(outer.body_open + 1, outer.body_close, &chars("inner"));
    assert_eq!(calls.len(), 1);
    assert!(src.call_fits(calls[0], 3));
    assert!(!src.call_fits(calls[0], 2));
    let site = src.locate(&chars("outer"), &chars("inner")).unwrap();
    assert_eq!(site.calls, calls);
    assert_eq!(site.names, vec![chars("a"), chars("b"), chars("c")]);
    assert!(src.arity_ok(&site));
    assert!(src.locate(&chars("outer"), &chars("decl")).is_none());
}

#[test]
fn variables_are_counted_without_fields() {
    let src = tokenize(chars("a + b.a + a.c + a")).unwrap();
    let n = src.tokens.len();
    assert_eq!(src.count(0, n, &chars("a")), 3);
    assert_eq!(src.count(0, 1, &chars("a")), 1);
    assert_eq!(src.count(3, 3, &chars("a")), 0);
    assert_eq!(src.count(5, 2, &chars("a")), 0);
    assert!(src.mentions(0, n, &chars("b")));
    assert!(!src.mentions(0, n, &chars("c")));
    assert!(!src.mentions(1, 5, &chars("a")));
}

#[test]
fn assignments_are_told_from_comparisons() {
    let src = tokenize(chars(
        "x = 1; x == 1; x += 1; x <<= 1; x <= 1; let x = 2; y.x = 3; match x { x => 0 }; x >>= 2; x != 3;",
    ))
    .unwrap();
    let hits: Vec<usize> =
        (0..src.tokens.len()).filter(|k| src.is_assign(*k, &chars("x"))).collect();
    let starts: Vec<usize> = hits.iter().map(|k| src.tokens[*k].start).collect();
    assert_eq!(starts, vec![0, 15, 23, 80]);
    assert!(src.reassigns(0, 3, &chars("x")));
    assert!(!src.reassigns(3, 8, &chars("x")));
    assert!(!src.reassigns(0, src.tokens.len(), &chars("y")));
}

#[test]
fn evidence_is_read_as_receivers() {
    let src = tokenize(chars(
        "v.push(1); a.b.c(); f(); w.len; fn bar() { s.clear(); } fn other() { t.clear(); }",
    ))
    .unwrap();
    assert_eq!(src.receivers(&chars("bar")), vec![chars("v"), chars("s")]);
    assert_eq!(src.receivers(&chars("other")), vec![chars("v"), chars("t")]);
    assert_eq!(src.receivers(&chars("third")), vec![chars("v")]);
    // A call inside the arguments of another is no entry of its own.
    let nested = tokenize(chars("names.push(label.clone()); f(w.pop()); xs[i.abs()]; if c { z.clear(); }"))
        .unwrap();
    assert_eq!(nested.receivers(&chars("bar")), vec![chars("names"), chars("z")]);
}

#[test]
fn mode_rule_in_priority_order() {
    assert_eq!(choose_mode(true, 1, false), PassMode::MutableRef);
    assert_eq!(choose_mode(true, 0, true), PassMode::MutableRef);
    assert_eq!(choose_mode(true, 7, true), PassMode::MutableRef);
    assert_eq!(choose_mode(false, 1, false), PassMode::Value);
    assert_eq!(choose_mode(false, 1, true), PassMode::ImmutableRef);
    assert_eq!(choose_mode(false, 2, false), PassMode::ImmutableRef);
    assert_eq!(choose_mode(false, 0, false), PassMode::ImmutableRef);
}

#[test]
fn insertions_go_in_front_of_their_position() {
    let text = chars("f(v)");
    let none: Vec<Edit> = Vec::new();
    assert_eq!(render(&text, &none), text);
    let some = vec![
        Edit { at: 2, kind: EditKind::RefMut },
        Edit { at: 0, kind: EditKind::Deref },
        Edit { at: 4, kind: EditKind::Ref },
        Edit { at: 3, kind: EditKind::Mut },
    ];
    assert_eq!(render(&text, &some), chars("*f(&mut vmut )&"));
    let twice = vec![Edit { at: 1, kind: EditKind::Ref }, Edit { at: 1, kind: EditKind::Deref }];
    assert_eq!(render(&chars("ab"), &twice), chars("a&*b"));
    let outside = vec![Edit { at: 9, kind: EditKind::Ref }];
    assert_eq!(render(&chars("ab"), &outside), chars("ab"));
}

#[test]
fn raw_strings_are_one_token() {
    let kinds = |s: &str| -> Vec<TokenKind> {
        lex(&chars(s)).unwrap().iter().map(|t| t.kind).collect()
    };
    assert_eq!(kinds("r\"C:\\\" x"), vec![TokenKind::Str, TokenKind::Ident]);
    assert_eq!(kinds("r#\"a \"quoted\" } b\"# x"), vec![TokenKind::Str, TokenKind::Ident]);
    assert_eq!(kinds("r##\"a \"# b\"## x"), vec![TokenKind::Str, TokenKind::Ident]);
    assert_eq!(kinds("br\"bytes\\\" x"), vec![TokenKind::Str, TokenKind::Ident]);
    assert_eq!(kinds("b\"bytes\" x"), vec![TokenKind::Ident, TokenKind::Str, TokenKind::Ident]);
    assert_eq!(kinds("r#foo"), vec![TokenKind::Ident, TokenKind::Punct, TokenKind::Ident]);
    assert_eq!(kinds("rest bar"), vec![TokenKind::Ident, TokenKind::Ident]);
    let toks = lex(&chars("r#\"ab\"# c")).unwrap();
    assert_eq!((toks[0].start, toks[0].end), (0, 7));
    assert!(lex(&chars("r#\"abc\"")).is_none());
    assert!(lex(&chars("r\"abc")).is_none());
    assert!(parse(chars("fn f() { let s = r#\"}\"#; }")).is_some());
}

#[test]
fn a_program_is_a_sequence_of_items() {
    let accepted = [
        "",
        "// only a comment\n",
        "#![allow(dead_code)] fn a() {}",
        "fn a() {}",
        "fn a() {} fn b() {}",
        "#![no_std]\n#[inline]\n#[cfg(test)]\npub(crate) fn a<T: Fn(u8) -> u8>(f: T) -> u8 where T: Copy { f(1) }",
        "pub const unsafe extern \"C\" fn a() {}",
        "use std::fmt;",
        "pub use std::{fmt, io::{self, Read}};\nfn a() {}",
        "const LIMIT: usize = 4;",
        "const ORIGIN: Point = Point { x: 0, y: 0 };\nfn a() {}",
        "pub(crate) static TABLE: [u8; 2] = if cfg!(test) { [0, 1] } else { [1, 0] };",
        "type Pair = (u8, u8);",
        "struct Unit;\nstruct Wrap(u8);\nstruct Point { x: i32, y: i32 }",
        "struct Holder<T = u8> { f: fn(T) -> T }",
        "enum E { A = 1, B }\nunion U { a: u8 }",
        "trait Shape { fn area(&self) -> f64; fn name(&self) -> String { String::new() } }",
        "impl Shape for Point { fn area(&self) -> f64 { 0.0 } }",
        "extern \"C\" { fn abs(x: i32) -> i32; }",
        "mod inner;\nmod outer { fn a() { fn nested() {} } }",
        "macro_rules! twice { ($e:expr) => { $e; $e }; }\nthread_local!(static X: u8 = 1);",
        "fn a() { let f: fn(u8) -> u8 = id; }",
        "fn a() { let x = 1; let y = if x > 0 { 1 } else { 2 }; g(x, y) }",
        "fn a() { if let Some(x) = f() { g(x); } else if let Some(y) = h() { g(y); } }",
        "fn a() { while let Some(x) = f() { g(x); } }",
        "fn a() { if c && let Some(x) = f() { g(x); } }",
        "fn a() { let Some(x) = f() else { return; }; g(x) }",
        "fn a() { #[allow(unused)] let x = 1; {} let y = 2; }",
        "fn a() { let f = |x: u8| { let y = x; y }; }",
        "impl S { fn b(&self) { let x = [1; 2]; } }",
        "pub struct S { pub(crate) a: u8, pub b: &'static str }\nimpl S { pub(crate) fn f(self) {} }",
        "fn a() { let x = b\"bytes\"; let y = b'c'; let z = 1 as f32; g(x, y, z) }",
        "fn a() { for i in 0..n { if !(i > 1) { continue; } } return x as u8 }",
        "fn a() -> impl Iterator<Item = u8> where Self: Sized { v.iter().map(|x| x + 1) }",
        "fn a() { match t { (a, b) if a > b => a, Some(x) if ok(x) => x, _ => 0 } }",
        "fn a() { let v = vec![1, 2]; html!(<p> any text at all </p>); w[0] as u8 }",
        "macro_rules! make { ($n:ident) => { fn $n() { let x = 1 } }; }\nfn a() {}",
        "#[derive(Debug)] struct S;\n#[cfg(test)] mod t { #[test] fn f() {} }",
        "extern \"C\" fn a(f: extern \"C\" fn(u8)) { unsafe { f(1) } }",
        "struct S { r#type: u8 }\nfn a(s: S) -> u8 { match s.r#type { n @ 1..=5 => n, _ => 0 } }",
        "fn a() { let r = ..; let s = &v[..]; let t = (.., 1); let u = S { a, ..d }; f(-1, !b, *p, &q) }",
        "fn a() -> ! { loop { ; } }\nuse a::{b::*, c::*};",
        "fn a(v: Vec<u8,>, w: (u8,)) -> Result<(), E> { g()?; h(|| (), |x| -x)?; Ok(()) }",
        "fn a<T: ?Sized>(t: &T) where T: Copy { x += 1; y /= 2; z %= 3; w ^= 4; if a <= b || c != d { return; } }",
        "fn a() { return; }\nfn b() { loop { break; } }\nfn c() -> bool { true }\nimpl S { fn d(self) -> Self { self } }",
    ];
    for text in accepted {
        assert!(parse(chars(text)).is_some(), "{}", text);
    }
    let refused = [
        "fn a() {} @",
        "fn a(){}fn b(){}@",
        "@ fn a() {}",
        "fn a() {} ;",
        "fn a() {} 1",
        "fn a() {} \"text\"",
        "fn a() {} fn",
        "fn a() {} fn b",
        "fn a() {} fn b()",
        "fn a();",
        "fn a() -> u8;",
        "fn () {}",
        "fn a {}",
        "fn a() {} struct",
        "fn a() {} struct S",
        "fn a() {} use std::fmt",
        "use std::{fmt, io}",
        "const ORIGIN: Point = Point { x: 0 }",
        "#![allow(dead_code)]",
        "# fn a() {}",
        "#[inline]",
        "fn a() { let f = fn; }",
        "fn a() { fn b; }",
        "impl S { fn b }",
        "trait T { fn b() }",
        "fn a() { if }",
        "fn a() { struct }",
        "fn a() { x as; }",
        "fn a() { f(mut) }",
        "fn a() { match }",
        "fn a() { a + / b }",
        "fn a() { a = % b; }",
        "impl",
        "fn a() {} use",
        "fn a() { @ }",
        "fn a() { x = ; }",
        "fn a() { f(, x); }",
        "fn a() { f(x,, y); }",
        "fn a() { (+ 1) }",
        "fn a() { x + ; }",
        "fn a() { f(x &) }",
        "fn a() { ` }",
        "fn a() { ~x }",
        "fn a() { $x }",
        "fn a() { # }",
        "fn a() { (.5) }",
        "fn a() { [> 1] }",
        "impl S { @ }",
        "struct S { a: }",
        "fn a() { x y }",
        "fn a() { f() g(); }",
        "fn a() { let v = Vec::new() bar(v); }",
        "fn a() { x = 1 y = 2; }",
        "fn a() { x = y z.push(1); }",
        "fn a() { v[0] w; }",
        "fn a() { f(\"a\" \"b\"); }",
        "fn a() { 1 2 }",
        "fn a() { g(x) 1 }",
        "struct S { a b: u8 }",
        "fn a() { let x = 1 let y = 2; }",
        "fn a() { bar(v) let y = 1; }",
        "fn a() { let x = 1 }",
        "fn a() { f(let x = 1); }",
        "fn a() { { let x = 1 } ; }",
        "impl S { fn b(&self) { g() let x = 1; } }",
        "let x = 1;",
        "x = 1;",
        "pub x;",
        "unsafe { }",
        "\"C\" fn a() {}",
        "a + b",
        "v.push(1)",
        "{ }",
        "fn a() {} { }",
    ];
    for text in refused {
        assert!(tokenize(chars(text)).is_some(), "{}", text);
        assert!(parse(chars(text)).is_none(), "{}", text);
    }
    assert!(parse(chars("#[inline")).is_none());
}

#[test]
fn calls_may_carry_type_arguments() {
    let src = tokenize(chars(
        "fn f() { bar(1); bar::<u8>(2); bar::<Vec<u8>, fn(u8) -> u8>(3, 4); x.bar::<u8>(5); bar::CONST; bar::<u8>; }",
    ))
    .unwrap();
    let calls = src.calls(0, src.tokens.len(), &chars("bar"));
    let starts: Vec<usize> = calls.iter().map(|k| src.tokens[*k].start).collect();
    assert_eq!(starts, vec![9, 17, 31]);
    assert!(src.call_fits(calls[0], 1));
    assert!(src.call_fits(calls[1], 1));
    assert!(src.call_fits(calls[2], 2));
    assert!(!src.call_fits(calls[2], 1));
}
