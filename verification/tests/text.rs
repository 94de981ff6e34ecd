use borrowviz::actions::Actions;
use borrowviz::annotate::annotate_source;
use borrowviz::environ::Environ;
use borrowviz::escape::escape_line;
use borrowviz::role::{role_name, Role};
use borrowviz::snippet::{parse_binding, parse_borrow_target};
use borrowviz::errors::ExtractError;

#[test]
fn escape_leaves_plain_text_unchanged() {
    assert_eq!(escape_line("hello world"), "hello world");
    assert_eq!(escape_line(""), "");
    assert_eq!(escape_line("fn main() { let x = 1; }"), "fn main() { let x = 1; }");
}

#[test]
fn escape_substitutes_the_three_characters() {
    assert_eq!(escape_line("a < b && c > d"), "a &lt; b &amp;&amp; c &gt; d");
    assert_eq!(escape_line("&"), "&amp;");
    assert_eq!(escape_line("<>"), "&lt;&gt;");
    assert_eq!(escape_line("&amp;"), "&amp;amp;");
}

#[test]
fn escape_round_trips_distinguishably() {
    let originals = ["if a<b { &c } else { d>e }", "&&&", "< & >", "plain", "&lt;"];
    for original in originals {
        let escaped = escape_line(original);
        let reversed = escaped
            .replace("&lt;", "<")
            .replace("&gt;", ">")
            .replace("&amp;", "&");
        assert_eq!(reversed, original);
    }
}

#[test]
fn actions_keep_line_order_and_insertion_order() {
    let mut acts = Actions::new();
    acts.push_event(7, "PassByStaticReference(b->Function)".to_string());
    acts.push_event(3, "StaticBorrow(a->b)".to_string());
    acts.push_event(3, "StaticBorrow(c->d)".to_string());
    assert_eq!(
        acts.items,
        vec![
            (
                3,
                vec!["StaticBorrow(a->b)".to_string(), "StaticBorrow(c->d)".to_string()]
            ),
            (7, vec!["PassByStaticReference(b->Function)".to_string()]),
        ]
    );
    assert_eq!(acts.min_line(), Some(3));
}

#[test]
fn role_names_are_the_renderer_tags() {
    assert_eq!(role_name(Role::Owner), "Owner");
    assert_eq!(role_name(Role::StaticRef), "StaticRef");
    assert_eq!(role_name(Role::MutRef), "MutRef");
    assert_eq!(role_name(Role::Function), "Function");
}

#[test]
fn annotated_copy_has_preamble_and_trailing_comments() {
    let lines = vec![
        "fn main() {".to_string(),
        "    let b = &a;".to_string(),
        "}".to_string(),
    ];
    let mut acts = Actions::new();
    acts.push_event(2, "StaticBorrow(a->b)".to_string());
    acts.push_event(2, "PassByStaticReference(b->Function)".to_string());
    let mut env = Environ::new();
    env.insert("b".to_string(), Role::StaticRef).unwrap();
    env.insert("a".to_string(), Role::Owner).unwrap();
    let out = annotate_source(&lines, &acts, &env);
    assert_eq!(
        out,
        vec![
            "/* --- BEGIN Variable Definitions ---".to_string(),
            "StaticRef b;".to_string(),
            "Owner a;".to_string(),
            "--- END Variable Definitions --- */".to_string(),
            "fn main() {".to_string(),
            "    let b = &a; /* !{ StaticBorrow(a->b), PassByStaticReference(b->Function) } */"
                .to_string(),
            "}".to_string(),
        ]
    );
}

#[test]
fn parse_binding_recovers_the_bound_name() {
    assert_eq!(parse_binding("let b = &a;").unwrap(), "b");
    assert_eq!(parse_binding("let mut total = &v;").unwrap(), "total");
    assert_eq!(parse_binding("  let x1 = y + z;  ").unwrap(), "x1");
}

#[test]
fn parse_binding_rejects_everything_else() {
    let cases = [
        "let (a, b) = x;",
        "let b: i32 = 5;",
        "foo();",
        "let b = ;",
        "let b = &a",
        "let = &a;",
        "",
    ];
    for case in cases {
        assert!(
            matches!(parse_binding(case), Err(ExtractError::UnsupportedBindingPattern)),
            "case: {case:?}"
        );
    }
}

#[test]
fn parse_borrow_target_recovers_the_referenced_name() {
    assert_eq!(parse_borrow_target("&a").unwrap(), "a");
    assert_eq!(parse_borrow_target("& a").unwrap(), "a");
    assert_eq!(parse_borrow_target("&mut counter").unwrap(), "counter");
    assert_eq!(parse_borrow_target(" & mut v2 ").unwrap(), "v2");
    assert_eq!(parse_borrow_target("&a::b").unwrap(), "a");
    assert_eq!(parse_borrow_target("&mutant").unwrap(), "mutant");
}

#[test]
fn parse_borrow_target_rejects_non_references() {
    for case in ["a", "", "  ", "f(&a)"] {
        assert!(
            matches!(parse_borrow_target(case), Err(ExtractError::NotAReference)),
            "case: {case:?}"
        );
    }
}

#[test]
fn parse_borrow_target_rejects_non_simple_paths() {
    for case in ["&a.b", "&f()", "&&a", "&5", "&mut", "&a[0]", "&(a)"] {
        assert!(
            matches!(parse_borrow_target(case), Err(ExtractError::NotASimplePath)),
            "case: {case:?}"
        );
    }
}
