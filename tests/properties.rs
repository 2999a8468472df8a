use satukitan::builtins::{builtin_add, builtin_eq, builtin_sort, call_primitive};
use satukitan::value::{bool_token, lexeme_for_number, parse_number_token, Primitive};
use satukitan::value::Value;
use satukitan::completion::SatukitanHelper;
use satukitan::interpreter::{classify_line, validate_extension, LineAction};
use satukitan::{Interpreter, SatukitanError};

fn numbers(v: &Value) -> Vec<i64> {
    match v {
        Value::List(items) => items
            .iter()
            .map(|x| match x {
                Value::Number(n) => *n,
                other => panic!("expected number, got {:?}", other),
            })
            .collect(),
        other => panic!("expected list, got {:?}", other),
    }
}

fn list_of(ns: &[i64]) -> Value {
    Value::List(ns.iter().map(|n| Value::Number(*n)).collect())
}

#[test]
fn numerals_round_trip() {
    let words = ["rv", "ru", "ra", "ro", "re", "ri", "rya", "ryu", "ryo", "rye", "#ta"];
    for (n, w) in words.iter().enumerate() {
        let shown = lexeme_for_number(n as i64);
        assert_eq!(shown, *w);
        assert_eq!(parse_number_token(&shown), Some(n as i64));
    }
    for n in [-1i64, 11, 42, i64::MIN, i64::MAX] {
        let shown = lexeme_for_number(n);
        assert_eq!(shown, n.to_string());
        assert_eq!(parse_number_token(&shown), None);
    }
    assert_eq!(parse_number_token("rx"), None);
}

#[test]
fn boolean_words() {
    assert_eq!(bool_token("me"), Some(true));
    assert_eq!(bool_token("ga"), Some(false));
    assert_eq!(bool_token("mee"), None);
}

#[test]
fn sort_is_idempotent_and_ascending() {
    let once = builtin_sort(&vec![list_of(&[5, -3, 9, 0, 5, 2])]).expect("sort");
    assert_eq!(numbers(&once), vec![-3, 0, 2, 5, 5, 9]);
    let twice = builtin_sort(&vec![once]).expect("sort again");
    assert_eq!(numbers(&twice), vec![-3, 0, 2, 5, 5, 9]);
    let empty = builtin_sort(&vec![list_of(&[])]).expect("sort empty");
    assert_eq!(numbers(&empty), Vec::<i64>::new());
}

#[test]
fn sort_rejects_non_numbers() {
    let err = builtin_sort(&vec![Value::List(vec![Value::Number(1), Value::Bool(true)])]).unwrap_err();
    match err {
        SatukitanError::Eval(m) => assert_eq!(m, "fanitas: expected number, found boolean"),
        other => panic!("unexpected {:?}", other),
    }
    let err = builtin_sort(&vec![Value::Number(1)]).unwrap_err();
    match err {
        SatukitanError::Eval(m) => assert_eq!(m, "fanitas: expected list, found number"),
        other => panic!("unexpected {:?}", other),
    }
}

#[test]
fn structural_equality_on_nested_lists() {
    let a = Value::List(vec![Value::Number(1), list_of(&[2, 3]), Value::String("s".to_string())]);
    let b = Value::List(vec![Value::Number(1), list_of(&[2, 3]), Value::String("s".to_string())]);
    let c = Value::List(vec![Value::Number(1), list_of(&[2, 4]), Value::String("s".to_string())]);
    assert!(a.structural_eq(&a));
    assert!(a.structural_eq(&b) && b.structural_eq(&a));
    assert!(!a.structural_eq(&c) && !c.structural_eq(&a));
    assert!(Value::Nil.structural_eq(&Value::Nil));
    assert!(!Value::Number(1).structural_eq(&Value::Bool(true)));
    let r = builtin_eq(&vec![list_of(&[1, 2]), list_of(&[1, 2]), list_of(&[1, 2])]).expect("eq");
    assert!(matches!(r, Value::Bool(true)));
    let r = builtin_eq(&vec![list_of(&[1, 2]), list_of(&[1])]).expect("eq");
    assert!(matches!(r, Value::Bool(false)));
}

#[test]
fn distinct_closures_are_not_equal() {
    let mut it = Interpreter::new();
    it.eval_str("gakasdenu f (x) (x)\ngakasdenu g (x) (x)").expect("define");
    assert!(matches!(it.eval_str("gatas f g").expect("compare"), Value::Bool(false)));
    assert!(matches!(it.eval_str("gatas f f").expect("compare"), Value::Bool(true)));
    assert!(matches!(it.eval_str("gatas ritas ritas").expect("compare"), Value::Bool(true)));
    assert!(matches!(it.eval_str("gatas ritas matyes").expect("compare"), Value::Bool(false)));
}

fn arity_error(source: &str) -> (String, String, usize) {
    let mut it = Interpreter::new();
    match it.eval_str(source) {
        Err(SatukitanError::ArityMismatch { name, expected, found }) => (name, expected, found),
        other => panic!("expected arity failure for {source}, got {:?}", other),
    }
}

#[test]
fn every_builtin_checks_its_arity() {
    for name in ["ritas", "matyes", "nitas", "teses", "kenus", "gatas"] {
        assert_eq!(arity_error(&format!("{name} ru")), (name.to_string(), ">= 2".to_string(), 1));
        assert_eq!(arity_error(&format!("({name})")), (name.to_string(), ">= 2".to_string(), 0));
    }
    for name in ["ditas", "fityes", "ditasgata", "fityesgata"] {
        assert_eq!(arity_error(&format!("{name} ru")), (name.to_string(), "2".to_string(), 1));
        assert_eq!(arity_error(&format!("{name} ru ru ru")), (name.to_string(), "2".to_string(), 3));
    }
    for name in ["fanitas", "rakas"] {
        assert_eq!(arity_error(&format!("({name})")), (name.to_string(), "1".to_string(), 0));
        assert_eq!(arity_error(&format!("{name} [ru] [ru]")), (name.to_string(), "1".to_string(), 2));
    }
    let mut out = Vec::new();
    assert!(call_primitive(Primitive::Print, &vec![], &mut out).is_ok());
    assert_eq!(out, vec![String::new()]);
}

#[test]
fn closure_and_special_form_arity() {
    assert_eq!(arity_error("gakasdenu f (x) (x)\nf ru ra"), ("lambda".to_string(), "1".to_string(), 2));
    assert_eq!(arity_error("nobu me ru"), ("nobu".to_string(), "3".to_string(), 2));
    assert_eq!(arity_error("gakas x"), ("gakas".to_string(), "2".to_string(), 1));
    assert_eq!(arity_error("gakasdenu f (x)"), ("gakasdenu".to_string(), "3".to_string(), 2));
}

#[test]
fn gakas_in_call_frame_shadows_outer_binding() {
    let mut it = Interpreter::new();
    let v = it
        .eval_str("gakas x ru\ngakasdenu f () (gakas x ra)\n(f)\nx")
        .expect("evaluate");
    assert!(matches!(v, Value::Number(1)));
}

#[test]
fn root_rebinding_is_seen_from_call_frames() {
    let mut it = Interpreter::new();
    it.eval_str("gakas x ru\ngakasdenu g () ((x))").expect("define");
    assert!(matches!(it.eval_str("(g)").expect("call"), Value::Number(1)));
    it.eval_str("gakas x ro").expect("rebind");
    assert!(matches!(it.eval_str("(g)").expect("call"), Value::Number(3)));
}

#[test]
fn closures_see_parameters_and_capture_their_frame() {
    let mut it = Interpreter::new();
    let src = "gakasdenu make (n) (gakasdenu add (m) (ritas n m))\ngakas add-ri (make ri)\nadd-ri ro";
    assert!(matches!(it.eval_str(src).expect("evaluate"), Value::Number(8)));
}

#[test]
fn sample_programs() {
    let mut it = Interpreter::new();
    assert!(matches!(it.eval_str("gakas x ra\nx").unwrap(), Value::Number(2)));
    assert!(matches!(it.eval_str("nobu ga (ra) (ru)").unwrap(), Value::Number(1)));
    let sorted = it.eval_str("fanitas [ro ra ru]").unwrap();
    assert_eq!(sorted.render(), "[ru ra ro]");
    assert!(matches!(it.eval_str("rakas [ra ru rya]").unwrap(), Value::Number(3)));
}

#[test]
fn print_collects_output_lines() {
    let mut it = Interpreter::new();
    let v = it.eval_str("sipus ra \"hi\" me [ru ra]").expect("print");
    assert!(matches!(v, Value::Nil));
    assert_eq!(it.take_output(), vec!["ra hi me [ru ra]".to_string()]);
    it.eval_str("(sipus)").expect("print");
    it.eval_str("sipus matyes ra ru").expect("print");
    assert_eq!(
        it.take_output(),
        vec![String::new(), "<builtin matyes> ra ru".to_string()]
    );
    assert!(it.take_output().is_empty());
}

#[test]
fn arithmetic_results_and_display() {
    let mut it = Interpreter::new();
    assert!(matches!(it.eval_str("matyes #ta ro ra").unwrap(), Value::Number(5)));
    assert!(matches!(it.eval_str("nitas ra ro re").unwrap(), Value::Number(24)));
    let neg = it.eval_str("matyes rv ro").unwrap();
    assert_eq!(neg.render(), "-3");
    assert_eq!(it.eval_str("nitas #ta #ta").unwrap().render(), "100");
    assert!(matches!(it.eval_str("teses me me ga").unwrap(), Value::Bool(false)));
    assert!(matches!(it.eval_str("kenus ga ga me").unwrap(), Value::Bool(true)));
    assert!(matches!(it.eval_str("ditas ru ra").unwrap(), Value::Bool(true)));
    assert!(matches!(it.eval_str("fityes ru ra").unwrap(), Value::Bool(false)));
    assert!(matches!(it.eval_str("fityesgata ra ra").unwrap(), Value::Bool(true)));
    assert_eq!(it.eval_str("ritas").unwrap().render(), "<builtin ritas>");
    let f = it.eval_str("gakasdenu f (a b) (a)").unwrap();
    assert_eq!(f.render(), "<lambda (a b)>");
}

#[test]
fn overflow_is_a_failure() {
    let mut it = Interpreter::new();
    let src = "nitas #ta #ta #ta #ta #ta #ta #ta #ta #ta #ta #ta #ta #ta #ta #ta #ta #ta #ta #ta";
    match it.eval_str(src) {
        Err(SatukitanError::Eval(m)) => assert_eq!(m, "nitas: integer overflow"),
        other => panic!("expected overflow, got {:?}", other),
    }
    let r = builtin_add(&vec![Value::Number(i64::MAX), Value::Number(1)]);
    assert!(matches!(r, Err(SatukitanError::Eval(_))));
}

#[test]
fn evaluation_failures() {
    let mut it = Interpreter::new();
    assert!(matches!(it.eval_str("zzz"), Err(SatukitanError::UndefinedSymbol(ref n)) if n == "zzz"));
    match it.eval_str("nobu ru (ra) (ru)") {
        Err(SatukitanError::TypeMismatch { expected, found }) => {
            assert_eq!(expected, "boolean");
            assert_eq!(found, "number");
        }
        other => panic!("unexpected {:?}", other),
    }
    match it.eval_str("gakas y ru\n(y ra)") {
        Err(SatukitanError::Eval(m)) => {
            assert_eq!(m, "attempted to call non-callable value of type number")
        }
        other => panic!("unexpected {:?}", other),
    }
    match it.eval_str("gakas ra ru") {
        Err(SatukitanError::Eval(m)) => assert_eq!(m, "gakas: first argument must be symbol"),
        other => panic!("unexpected {:?}", other),
    }
    match it.eval_str("gakasdenu f [x] (x)") {
        Err(SatukitanError::Eval(m)) => {
            assert_eq!(m, "gakasdenu: second argument must be parameter list")
        }
        other => panic!("unexpected {:?}", other),
    }
    match it.eval_str("gakasdenu f (x ra) (x)") {
        Err(SatukitanError::Eval(m)) => {
            assert_eq!(m, "gakasdenu: parameter list must contain symbols only")
        }
        other => panic!("unexpected {:?}", other),
    }
    match it.eval_str("ritas ru me") {
        Err(SatukitanError::Eval(m)) => assert_eq!(m, "ritas: expected number, found boolean"),
        other => panic!("unexpected {:?}", other),
    }
    match it.eval_str("teses me ru") {
        Err(SatukitanError::Eval(m)) => assert_eq!(m, "teses: expected boolean, found number"),
        other => panic!("unexpected {:?}", other),
    }
}

#[test]
fn failure_keeps_earlier_bindings() {
    let mut it = Interpreter::new();
    assert!(it.eval_str("gakas k ri\nzzz").is_err());
    assert!(matches!(it.eval_str("k").unwrap(), Value::Number(5)));
    assert!(it.eval_str("[ra").is_err());
    assert!(matches!(it.eval_str("k").unwrap(), Value::Number(5)));
}

#[test]
fn runaway_recursion_fails_instead_of_crashing() {
    let mut it = Interpreter::new();
    let r = it.eval_str("gakasdenu spin (n) ((spin n))\nspin ru");
    match r {
        Err(SatukitanError::Eval(m)) => assert_eq!(m, "evaluation depth limit exceeded"),
        other => panic!("unexpected {:?}", other),
    }
}

#[test]
fn empty_forms() {
    let mut it = Interpreter::new();
    assert!(matches!(it.eval_str("").unwrap(), Value::Nil));
    assert_eq!(it.eval_str("()").unwrap().render(), "[]");
    assert_eq!(it.eval_str("[]").unwrap().render(), "[]");
    assert_eq!(it.eval_str("((ra) (ro))").unwrap().render(), "ro");
}

#[test]
fn call_frames_are_released() {
    let mut it = Interpreter::new();
    let src = "gakasdenu fibo (n) (nobu (ditasgata n ru) (n) (ritas (fibo (matyes n ru)) (fibo (matyes n ra))))\nfibo rya";
    assert!(matches!(it.eval_str(src).unwrap(), Value::Number(8)));
    assert_eq!(it.environment().frames.len(), 1);
    it.eval_str("gakasdenu make (n) (gakasdenu add (m) (ritas n m))\ngakas add-ri (make ri)")
        .unwrap();
    assert_eq!(it.environment().frames.len(), 2);
    assert!(matches!(it.eval_str("add-ri ro").unwrap(), Value::Number(8)));
    assert_eq!(it.environment().frames.len(), 2);
    assert!(it.eval_str("gakasdenu bad (n) (zzz)\nbad ru").is_err());
    assert_eq!(it.environment().frames.len(), 2);
}

#[test]
fn session_lines_are_classified() {
    assert!(matches!(classify_line("   \t"), LineAction::Skip));
    assert!(matches!(classify_line(""), LineAction::Skip));
    assert!(matches!(classify_line("  exit "), LineAction::Stop));
    assert!(matches!(classify_line("quit"), LineAction::Stop));
    match classify_line("  ritas ra ru \t") {
        LineAction::Evaluate(t) => assert_eq!(t, "ritas ra ru"),
        other => panic!("unexpected {:?}", other),
    }
    assert!(matches!(classify_line("exit now"), LineAction::Evaluate(_)));
}

#[test]
fn script_names_must_end_in_st() {
    assert!(validate_extension("demo.sample.st", "dir/demo.sample.st").is_ok());
    assert!(validate_extension(".st", ".st").is_ok());
    match validate_extension("demo.txt", "dir/demo.txt") {
        Err(SatukitanError::Eval(m)) => assert_eq!(m, "expected a .st file, got dir/demo.txt"),
        other => panic!("unexpected {:?}", other),
    }
    assert!(validate_extension("st", "st").is_err());
}

#[test]
fn completion_matches_and_hints() {
    let h = SatukitanHelper::new();
    let line: Vec<char> = "(ritas ri".chars().collect();
    assert_eq!(h.fragment_start(&line, line.len()), 7);
    assert_eq!(h.fragment_start(&line, 3), 1);
    let frag: Vec<char> = "ri".chars().collect();
    let m = h.matching_keywords(&frag);
    let names: Vec<&str> = m.iter().map(|i| h.keywords[*i].name.as_str()).collect();
    assert_eq!(names, vec!["ri", "ritas"]);
    assert_eq!(h.label_for(&h.keywords[m[1]]), "ritas(num num -> num)");
    let hint = h.format_hint(&frag, &m).expect("hint");
    assert_eq!(
        hint,
        "\n\x1b[38;5;39m\u{5019}\u{88dc}:\x1b[0m \x1b[38;5;214mri(5)\x1b[0m\x1b[38;5;240m | \x1b[0m\x1b[38;5;214mritas(num num -> num)\x1b[0m"
    );
    let exact: Vec<char> = "sipus".chars().collect();
    let m = h.matching_keywords(&exact);
    assert_eq!(m.len(), 1);
    assert!(h.format_hint(&exact, &m).is_none());
    let r: Vec<char> = "r".chars().collect();
    let m = h.matching_keywords(&r);
    assert_eq!(m.len(), 12);
    let hint = h.format_hint(&r, &m).expect("hint");
    assert!(hint.ends_with(" \x1b[38;5;240m\u{2026} (+7\u{4ef6})\x1b[0m"));
    let none: Vec<char> = "zz".chars().collect();
    assert!(h.matching_keywords(&none).is_empty());
}
