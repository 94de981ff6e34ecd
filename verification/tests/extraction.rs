use borrowviz::diag::{Diagnostic, Level, Span, TextFragment};
use borrowviz::environ::Environ;
use borrowviz::errors::ExtractError;
use borrowviz::role::Role;
use borrowviz::rules::diagnostics;
use borrowviz::run::Run;

fn frag(text: &str, hs: usize, he: usize) -> TextFragment {
    TextFragment { text: text.to_string(), highlight_start: hs, highlight_end: he }
}

fn span(line: usize, label: Option<&str>, f: TextFragment) -> Span {
    Span { line_start: line, label: label.map(|s| s.to_string()), text: vec![f] }
}

fn rule_a_diag() -> Diagnostic {
    Diagnostic {
        level: Level::Error,
        code: Some("E0502".to_string()),
        spans: vec![
            span(3, Some("immutable borrow occurs here"), frag("let b = &a;", 9, 11)),
            span(5, Some("mutable borrow occurs here"), frag("f(&mut a);", 3, 9)),
            span(7, Some("immutable borrow later used here"), frag("g(&b);", 3, 5)),
        ],
    }
}

fn rule_b_diag() -> Diagnostic {
    Diagnostic {
        level: Level::Error,
        code: Some("E0503".to_string()),
        spans: vec![
            span(2, Some("borrow of `value` occurs here (via `c`)"), frag("let c = &mut a;", 9, 15)),
            span(4, Some("use of borrowed `a`"), frag("use_it(&a);", 8, 10)),
            span(6, Some("borrow later used here"), frag("touch(&c);", 7, 9)),
        ],
    }
}

#[test]
fn rule_a_example_scenario() {
    let diag = rule_a_diag();
    let (acts, env) = diagnostics(&diag, "E0502").unwrap();
    assert_eq!(
        acts.items,
        vec![
            (3, vec!["StaticBorrow(a->b)".to_string()]),
            (5, vec!["PassByMutableReference(a->Function|false)".to_string()]),
            (7, vec!["PassByStaticReference(b->Function)".to_string()]),
        ]
    );
    assert_eq!(
        env.items,
        vec![("b".to_string(), Role::StaticRef), ("a".to_string(), Role::Owner)]
    );
}

#[test]
fn rule_a_through_run() {
    let mut run = Run::new();
    run.fold_diagnostic(&rule_a_diag()).unwrap();
    assert_eq!(run.actions.min_line(), Some(3));
    assert_eq!(
        run.actions.items,
        vec![
            (3, vec!["StaticBorrow(a->b)".to_string()]),
            (5, vec!["PassByMutableReference(a->Function|false)".to_string()]),
            (7, vec!["PassByStaticReference(b->Function)".to_string()]),
        ]
    );
    assert_eq!(
        run.environ.items,
        vec![
            ("Function".to_string(), Role::Function),
            ("b".to_string(), Role::StaticRef),
            ("a".to_string(), Role::Owner),
        ]
    );
}

#[test]
fn rule_b_scenario() {
    let diag = rule_b_diag();
    let (acts, env) = diagnostics(&diag, "E0503").unwrap();
    assert_eq!(
        acts.items,
        vec![
            (2, vec!["MutableBorrow(a->c)".to_string()]),
            (4, vec!["PassByStaticReference(a->Function|false)".to_string()]),
            (6, vec!["PassByStaticReference(c->Function)".to_string()]),
        ]
    );
    assert_eq!(
        env.items,
        vec![("c".to_string(), Role::MutRef), ("a".to_string(), Role::Owner)]
    );
}

#[test]
fn unknown_code_raises_before_any_event() {
    let mut diag = rule_a_diag();
    diag.code = Some("E0499".to_string());
    let r = diagnostics(&diag, "E0499");
    match r {
        Err(ExtractError::UnknownDiagnosticCode(c)) => assert_eq!(c, "E0499"),
        other => panic!("expected UnknownDiagnosticCode, got {:?}", other.map(|_| ())),
    }
    let mut run = Run::new();
    assert!(run.fold_diagnostic(&diag).is_err());
    assert!(run.actions.items.is_empty());
    assert_eq!(run.environ.items.len(), 1);
}

#[test]
fn missing_label_raises_before_any_event() {
    let mut diag = rule_a_diag();
    diag.spans.remove(1);
    let r = diagnostics(&diag, "E0502");
    match r {
        Err(ExtractError::MissingLabeledSpan(l)) => {
            assert_eq!(l, "mutable borrow occurs here")
        },
        other => panic!("expected MissingLabeledSpan, got {:?}", other.map(|_| ())),
    }
    let mut run = Run::new();
    assert!(run.fold_diagnostic(&diag).is_err());
    assert!(run.actions.items.is_empty());
    assert_eq!(run.environ.items.len(), 1);
}

#[test]
fn conflicting_roles_across_diagnostics() {
    // First diagnostic makes `a` an Owner; the second binds `a` itself as a
    // mutable reference, so `a` would become a MutRef: a conflict.
    let second = Diagnostic {
        level: Level::Error,
        code: Some("E0503".to_string()),
        spans: vec![
            span(9, Some("borrow of `value` occurs here"), frag("let a = &mut q;", 9, 15)),
            span(10, Some("use of borrowed `q`"), frag("use_it(&q);", 8, 10)),
            span(11, Some("borrow later used here"), frag("touch(&a);", 7, 9)),
        ],
    };
    let mut run = Run::new();
    run.fold_diagnostic(&rule_a_diag()).unwrap();
    let before_actions = run.actions.items.clone();
    let before_env = run.environ.items.clone();
    match run.fold_diagnostic(&second) {
        Err(ExtractError::ConflictingRole(n, o, nw)) => {
            assert_eq!(n, "a");
            assert_eq!(o, Role::Owner);
            assert_eq!(nw, Role::MutRef);
        },
        other => panic!("expected ConflictingRole, got {:?}", other),
    }
    // The failing diagnostic leaked nothing into the run state.
    assert_eq!(run.actions.items, before_actions);
    assert_eq!(run.environ.items, before_env);

    // The conflict arises in the other processing order too.
    let mut run2 = Run::new();
    run2.fold_diagnostic(&second).unwrap();
    match run2.fold_diagnostic(&rule_a_diag()) {
        Err(ExtractError::ConflictingRole(n, o, nw)) => {
            assert_eq!(n, "a");
            assert_eq!(o, Role::MutRef);
            assert_eq!(nw, Role::Owner);
        },
        other => panic!("expected ConflictingRole, got {:?}", other),
    }
}

#[test]
fn repeated_identical_roles_are_idempotent() {
    let mut run = Run::new();
    run.fold_diagnostic(&rule_a_diag()).unwrap();
    run.fold_diagnostic(&rule_a_diag()).unwrap();
    assert_eq!(run.environ.items.len(), 3);
    // Events of the second pass are appended after the first pass's, per line.
    assert_eq!(
        run.actions.items[0],
        (
            3,
            vec!["StaticBorrow(a->b)".to_string(), "StaticBorrow(a->b)".to_string()]
        )
    );
}

#[test]
fn environ_insert_laws() {
    let mut env = Environ::new();
    env.insert("x".to_string(), Role::Owner).unwrap();
    env.insert("x".to_string(), Role::Owner).unwrap();
    assert_eq!(env.items, vec![("x".to_string(), Role::Owner)]);
    match env.insert("x".to_string(), Role::MutRef) {
        Err(ExtractError::ConflictingRole(n, o, nw)) => {
            assert_eq!(n, "x");
            assert_eq!(o, Role::Owner);
            assert_eq!(nw, Role::MutRef);
        },
        other => panic!("expected ConflictingRole, got {:?}", other),
    }
    assert_eq!(env.items, vec![("x".to_string(), Role::Owner)]);
}

#[test]
fn non_error_and_codeless_diagnostics_are_skipped() {
    let mut warn = rule_a_diag();
    warn.level = Level::Warning;
    let mut codeless = rule_a_diag();
    codeless.code = None;
    let mut run = Run::new();
    run.fold_diagnostic(&warn).unwrap();
    run.fold_diagnostic(&codeless).unwrap();
    assert!(run.actions.items.is_empty());
    assert_eq!(run.environ.items.len(), 1);
    assert_eq!(run.actions.min_line(), None);
}
