use vstd::prelude::*;
use vstd::string::StrSliceExecFns;
use vstd::string::StringExecFns;

use crate::actions::{action_insert, actions_lookup, flat_events, lemma_three_inserts, Actions};
use crate::diag::{Diagnostic, Span, TextFragment};
use crate::environ::{env_lookup, Environ};
use crate::errors::ExtractError;
use crate::role::Role;
use crate::snippet::{binding_name, borrow_target};
use crate::strutil::{str_eq, str_starts_with};

verus! {

// The rule registry: each supported error code has a rule that names the
// labeled spans it requires, recovers the two identifiers from the first
// span's snippet, and emits a fixed template of events and role
// assignments. Any diagnostic or code shape not covered is a hard failure.

/// Index of the first span carrying exactly the given label.
pub open spec fn find_label(spans: Seq<Span>, l: Seq<char>) -> Option<int>
    decreases spans.len(),
{
    if spans.len() == 0 {
        None
    } else if spans[0].has_label(l) {
        Some(0int)
    } else {
        match find_label(spans.drop_first(), l) {
            Some(i) => Some(i + 1),
            None => None,
        }
    }
}

/// Index of the first span whose label starts with the given prefix.
pub open spec fn find_label_prefix(spans: Seq<Span>, l: Seq<char>) -> Option<int>
    decreases spans.len(),
{
    if spans.len() == 0 {
        None
    } else if spans[0].has_label_prefix(l) {
        Some(0int)
    } else {
        match find_label_prefix(spans.drop_first(), l) {
            Some(i) => Some(i + 1),
            None => None,
        }
    }
}

proof fn lemma_find_label_at(spans: Seq<Span>, l: Seq<char>, i: int)
    requires
        0 <= i <= spans.len(),
        forall|j: int| 0 <= j < i ==> !(#[trigger] spans[j]).has_label(l),
    ensures
        i == spans.len() ==> find_label(spans, l) is None,
        i < spans.len() && spans[i].has_label(l) ==> find_label(spans, l) == Some(i),
    decreases spans.len(),
{
    if spans.len() > 0 && !spans[0].has_label(l) {
        if i > 0 {
            let d = spans.drop_first();
            assert(forall|j: int| 0 <= j < i - 1 ==> !(#[trigger] d[j]).has_label(l));
            lemma_find_label_at(d, l, i - 1);
        }
    }
}

proof fn lemma_find_label_prefix_at(spans: Seq<Span>, l: Seq<char>, i: int)
    requires
        0 <= i <= spans.len(),
        forall|j: int| 0 <= j < i ==> !(#[trigger] spans[j]).has_label_prefix(l),
    ensures
        i == spans.len() ==> find_label_prefix(spans, l) is None,
        i < spans.len() && spans[i].has_label_prefix(l) ==> find_label_prefix(spans, l) == Some(i),
    decreases spans.len(),
{
    if spans.len() > 0 && !spans[0].has_label_prefix(l) {
        if i > 0 {
            let d = spans.drop_first();
            assert(forall|j: int| 0 <= j < i - 1 ==> !(#[trigger] d[j]).has_label_prefix(l));
            lemma_find_label_prefix_at(d, l, i - 1);
        }
    }
}

fn find_labeled(spans: &Vec<Span>, l: &str) -> (r: Option<usize>)
    ensures
        match r {
            Some(i) => i < spans@.len() && find_label(spans@, l@) == Some(i as int),
            None => find_label(spans@, l@) is None,
        },
{
    let mut i: usize = 0;
    while i < spans.len()
        invariant
            i <= spans@.len(),
            forall|j: int| 0 <= j < i ==> !(#[trigger] spans@[j]).has_label(l@),
        decreases spans@.len() - i,
    {
        let matched = match &spans[i].label {
            Some(s) => str_eq(s.as_str(), l),
            None => false,
        };
        if matched {
            proof {
                lemma_find_label_at(spans@, l@, i as int);
            }
            return Some(i);
        }
        i = i + 1;
    }
    proof {
        lemma_find_label_at(spans@, l@, i as int);
    }
    None
}

fn find_labeled_prefix(spans: &Vec<Span>, l: &str) -> (r: Option<usize>)
    ensures
        match r {
            Some(i) => i < spans@.len() && find_label_prefix(spans@, l@) == Some(i as int),
            None => find_label_prefix(spans@, l@) is None,
        },
{
    let mut i: usize = 0;
    while i < spans.len()
        invariant
            i <= spans@.len(),
            forall|j: int| 0 <= j < i ==> !(#[trigger] spans@[j]).has_label_prefix(l@),
        decreases spans@.len() - i,
    {
        let matched = match &spans[i].label {
            Some(s) => str_starts_with(s.as_str(), l),
            None => false,
        };
        if matched {
            proof {
                lemma_find_label_prefix_at(spans@, l@, i as int);
            }
            return Some(i);
        }
        i = i + 1;
    }
    proof {
        lemma_find_label_prefix_at(spans@, l@, i as int);
    }
    None
}

/// An event descriptor `Kind(subject->object)`.
pub open spec fn event2(kind: Seq<char>, subj: Seq<char>, obj: Seq<char>) -> Seq<char> {
    kind + "("@ + subj + "->"@ + obj + ")"@
}

/// An event descriptor `Kind(subject->object|flag)`.
pub open spec fn event3(kind: Seq<char>, subj: Seq<char>, obj: Seq<char>, flag: Seq<char>) -> Seq<
    char,
> {
    kind + "("@ + subj + "->"@ + obj + "|"@ + flag + ")"@
}

fn make_event2(kind: &str, subj: &str, obj: &str) -> (r: String)
    ensures
        r@ == event2(kind@, subj@, obj@),
{
    let mut s = kind.to_owned();
    s.append("(");
    s.append(subj);
    s.append("->");
    s.append(obj);
    s.append(")");
    s
}

fn make_event3(kind: &str, subj: &str, obj: &str, flag: &str) -> (r: String)
    ensures
        r@ == event3(kind@, subj@, obj@, flag@),
{
    let mut s = kind.to_owned();
    s.append("(");
    s.append(subj);
    s.append("->");
    s.append(obj);
    s.append("|");
    s.append(flag);
    s.append(")");
    s
}

// --- Rule for code E0502: an immutable borrow was taken and later used
// --- while a mutable borrow of the same owner was outstanding.

pub open spec fn a_imm_idx(d: Diagnostic) -> Option<int> {
    find_label(d.spans@, "immutable borrow occurs here"@)
}

pub open spec fn a_mut_idx(d: Diagnostic) -> Option<int> {
    find_label(d.spans@, "mutable borrow occurs here"@)
}

pub open spec fn a_use_idx(d: Diagnostic) -> Option<int> {
    find_label(d.spans@, "immutable borrow later used here"@)
}

/// The snippet of the span the identifiers are recovered from.
pub open spec fn a_frag(d: Diagnostic) -> TextFragment {
    d.spans@[a_imm_idx(d)->Some_0].text@[0]
}

/// The reference variable: the name bound at the immutable-borrow span.
pub open spec fn a_user(d: Diagnostic) -> Seq<char> {
    binding_name(a_frag(d).text@)->Some_0
}

/// The owner being referenced: the target of the highlighted borrow.
pub open spec fn a_borrower(d: Diagnostic) -> Seq<char> {
    borrow_target(a_frag(d).highlighted())->Ok_0
}

pub open spec fn a_line1(d: Diagnostic) -> usize {
    d.spans@[a_imm_idx(d)->Some_0].line_start
}

pub open spec fn a_line2(d: Diagnostic) -> usize {
    d.spans@[a_mut_idx(d)->Some_0].line_start
}

pub open spec fn a_line3(d: Diagnostic) -> usize {
    d.spans@[a_use_idx(d)->Some_0].line_start
}

pub open spec fn rule_a_ok(d: Diagnostic) -> bool {
    &&& a_imm_idx(d) is Some
    &&& a_mut_idx(d) is Some
    &&& a_use_idx(d) is Some
    &&& binding_name(a_frag(d).text@) is Some
    &&& borrow_target(a_frag(d).highlighted()) is Ok
    &&& a_user(d) != a_borrower(d)
}

pub open spec fn a_event1(d: Diagnostic) -> Seq<char> {
    event2("StaticBorrow"@, a_borrower(d), a_user(d))
}

pub open spec fn a_event2(d: Diagnostic) -> Seq<char> {
    event3("PassByMutableReference"@, a_borrower(d), "Function"@, "false"@)
}

pub open spec fn a_event3(d: Diagnostic) -> Seq<char> {
    event2("PassByStaticReference"@, a_user(d), "Function"@)
}

pub open spec fn rule_a_actions(d: Diagnostic) -> Seq<(usize, Seq<Seq<char>>)> {
    action_insert(
        action_insert(
            action_insert(Seq::empty(), a_line1(d), a_event1(d)),
            a_line2(d),
            a_event2(d),
        ),
        a_line3(d),
        a_event3(d),
    )
}

pub open spec fn rule_a_env(d: Diagnostic) -> Seq<(Seq<char>, Role)> {
    seq![(a_user(d), Role::StaticRef), (a_borrower(d), Role::Owner)]
}

pub open spec fn rule_a_err(d: Diagnostic, e: ExtractError) -> bool {
    if a_imm_idx(d) is None {
        e matches ExtractError::MissingLabeledSpan(l) && l@ == "immutable borrow occurs here"@
    } else if a_mut_idx(d) is None {
        e matches ExtractError::MissingLabeledSpan(l) && l@ == "mutable borrow occurs here"@
    } else if a_use_idx(d) is None {
        e matches ExtractError::MissingLabeledSpan(l) && l@ == "immutable borrow later used here"@
    } else if binding_name(a_frag(d).text@) is None {
        e matches ExtractError::UnsupportedBindingPattern
    } else if borrow_target(a_frag(d).highlighted()) is Err {
        e == borrow_target(a_frag(d).highlighted())->Err_0
    } else if a_user(d) == a_borrower(d) {
        e matches ExtractError::ConflictingRole(n, o, nw) && n@ == a_borrower(d) && o
            == Role::StaticRef && nw == Role::Owner
    } else {
        false
    }
}

/// Extraction for an immutable-borrow-while-mutably-borrowed diagnostic:
/// `StaticBorrow(borrower->user)` at the immutable-borrow line,
/// `PassByMutableReference(borrower->f()|false)` at the mutable-borrow line,
/// `PassByStaticReference(user->f())` at the later-use line;
/// `user: StaticRef`, `borrower: Owner`.
pub fn diagnostics_502(diag: &Diagnostic) -> (r: Result<(Actions, Environ), ExtractError>)
    requires
        diag.wf(),
    ensures
        match r {
            Ok((acts, env)) => rule_a_ok(*diag) && acts@ == rule_a_actions(*diag) && acts.wf()
                && env@ == rule_a_env(*diag) && env.wf(),
            Err(e) => rule_a_err(*diag, e),
        },
{
    let imm = match find_labeled(&diag.spans, "immutable borrow occurs here") {
        Some(i) => i,
        None => {
            return Err(
                ExtractError::MissingLabeledSpan("immutable borrow occurs here".to_owned()),
            );
        },
    };
    let mu = match find_labeled(&diag.spans, "mutable borrow occurs here") {
        Some(i) => i,
        None => {
            return Err(ExtractError::MissingLabeledSpan("mutable borrow occurs here".to_owned()));
        },
    };
    let us = match find_labeled(&diag.spans, "immutable borrow later used here") {
        Some(i) => i,
        None => {
            return Err(
                ExtractError::MissingLabeledSpan("immutable borrow later used here".to_owned()),
            );
        },
    };
    let frag = &diag.spans[imm].text[0];
    let user = match crate::snippet::parse_binding(frag.text.as_str()) {
        Ok(u) => u,
        Err(e) => {
            return Err(e);
        },
    };
    let hl = frag.text.as_str().substring_char(frag.highlight_start - 1, frag.highlight_end - 1);
    let borrower = match crate::snippet::parse_borrow_target(hl) {
        Ok(b) => b,
        Err(e) => {
            return Err(e);
        },
    };

    let mut acts = Actions::new();
    acts.push_event(
        diag.spans[imm].line_start,
        make_event2("StaticBorrow", borrower.as_str(), user.as_str()),
    );
    acts.push_event(
        diag.spans[mu].line_start,
        make_event3("PassByMutableReference", borrower.as_str(), "Function", "false"),
    );
    acts.push_event(
        diag.spans[us].line_start,
        make_event2("PassByStaticReference", user.as_str(), "Function"),
    );

    let ghost user_v = user@;
    let ghost borrower_v = borrower@;
    let mut env = Environ::new();
    let r1 = env.insert(user, Role::StaticRef);
    match r1 {
        Ok(()) => {},
        Err(e) => {
            proof {
                reveal_with_fuel(env_lookup, 2);
            }
            return Err(e);
        },
    }
    proof {
        reveal_with_fuel(env_lookup, 3);
        assert(env@ =~= seq![(user_v, Role::StaticRef)]);
        assert(env@.drop_first() =~= Seq::<(Seq<char>, Role)>::empty());
        assert(env_lookup(env@, borrower_v) == if borrower_v == user_v {
            Some(Role::StaticRef)
        } else {
            None::<Role>
        });
    }
    let r2 = env.insert(borrower, Role::Owner);
    match r2 {
        Ok(()) => {},
        Err(e) => {
            return Err(e);
        },
    }
    proof {
        assert(env@ =~= rule_a_env(*diag));
    }
    Ok((acts, env))
}

// --- Rule for code E0503: a new borrow of a value was taken while a prior
// --- borrow of it was still live.

pub open spec fn b_borrow_idx(d: Diagnostic) -> Option<int> {
    find_label_prefix(d.spans@, "borrow of `value` occurs here"@)
}

pub open spec fn b_use_idx(d: Diagnostic) -> Option<int> {
    find_label_prefix(d.spans@, "use of borrowed "@)
}

pub open spec fn b_later_idx(d: Diagnostic) -> Option<int> {
    find_label(d.spans@, "borrow later used here"@)
}

pub open spec fn b_frag(d: Diagnostic) -> TextFragment {
    d.spans@[b_borrow_idx(d)->Some_0].text@[0]
}

pub open spec fn b_user(d: Diagnostic) -> Seq<char> {
    binding_name(b_frag(d).text@)->Some_0
}

pub open spec fn b_borrower(d: Diagnostic) -> Seq<char> {
    borrow_target(b_frag(d).highlighted())->Ok_0
}

pub open spec fn b_line1(d: Diagnostic) -> usize {
    d.spans@[b_borrow_idx(d)->Some_0].line_start
}

pub open spec fn b_line2(d: Diagnostic) -> usize {
    d.spans@[b_use_idx(d)->Some_0].line_start
}

pub open spec fn b_line3(d: Diagnostic) -> usize {
    d.spans@[b_later_idx(d)->Some_0].line_start
}

pub open spec fn rule_b_ok(d: Diagnostic) -> bool {
    &&& b_borrow_idx(d) is Some
    &&& b_use_idx(d) is Some
    &&& b_later_idx(d) is Some
    &&& binding_name(b_frag(d).text@) is Some
    &&& borrow_target(b_frag(d).highlighted()) is Ok
    &&& b_user(d) != b_borrower(d)
}

pub open spec fn b_event1(d: Diagnostic) -> Seq<char> {
    event2("MutableBorrow"@, b_borrower(d), b_user(d))
}

pub open spec fn b_event2(d: Diagnostic) -> Seq<char> {
    event3("PassByStaticReference"@, b_borrower(d), "Function"@, "false"@)
}

pub open spec fn b_event3(d: Diagnostic) -> Seq<char> {
    event2("PassByStaticReference"@, b_user(d), "Function"@)
}

pub open spec fn rule_b_actions(d: Diagnostic) -> Seq<(usize, Seq<Seq<char>>)> {
    action_insert(
        action_insert(
            action_insert(Seq::empty(), b_line1(d), b_event1(d)),
            b_line2(d),
            b_event2(d),
        ),
        b_line3(d),
        b_event3(d),
    )
}

pub open spec fn rule_b_env(d: Diagnostic) -> Seq<(Seq<char>, Role)> {
    seq![(b_user(d), Role::MutRef), (b_borrower(d), Role::Owner)]
}

pub open spec fn rule_b_err(d: Diagnostic, e: ExtractError) -> bool {
    if b_borrow_idx(d) is None {
        e matches ExtractError::MissingLabeledSpan(l) && l@ == "borrow of `value` occurs here"@
    } else if b_use_idx(d) is None {
        e matches ExtractError::MissingLabeledSpan(l) && l@ == "use of borrowed "@
    } else if b_later_idx(d) is None {
        e matches ExtractError::MissingLabeledSpan(l) && l@ == "borrow later used here"@
    } else if binding_name(b_frag(d).text@) is None {
        e matches ExtractError::UnsupportedBindingPattern
    } else if borrow_target(b_frag(d).highlighted()) is Err {
        e == borrow_target(b_frag(d).highlighted())->Err_0
    } else if b_user(d) == b_borrower(d) {
        e matches ExtractError::ConflictingRole(n, o, nw) && n@ == b_borrower(d) && o
            == Role::MutRef && nw == Role::Owner
    } else {
        false
    }
}

/// Extraction for a mutable-borrow-while-borrowed diagnostic:
/// `MutableBorrow(borrower->user)` at the first-borrow line,
/// `PassByStaticReference(borrower->f()|false)` at the use-of-borrowed line,
/// `PassByStaticReference(user->f())` at the later-use line;
/// `user: MutRef`, `borrower: Owner`.
pub fn diagnostics_503(diag: &Diagnostic) -> (r: Result<(Actions, Environ), ExtractError>)
    requires
        diag.wf(),
    ensures
        match r {
            Ok((acts, env)) => rule_b_ok(*diag) && acts@ == rule_b_actions(*diag) && acts.wf()
                && env@ == rule_b_env(*diag) && env.wf(),
            Err(e) => rule_b_err(*diag, e),
        },
{
    let bo = match find_labeled_prefix(&diag.spans, "borrow of `value` occurs here") {
        Some(i) => i,
        None => {
            return Err(
                ExtractError::MissingLabeledSpan("borrow of `value` occurs here".to_owned()),
            );
        },
    };
    let ou = match find_labeled_prefix(&diag.spans, "use of borrowed ") {
        Some(i) => i,
        None => {
            return Err(ExtractError::MissingLabeledSpan("use of borrowed ".to_owned()));
        },
    };
    let lu = match find_labeled(&diag.spans, "borrow later used here") {
        Some(i) => i,
        None => {
            return Err(ExtractError::MissingLabeledSpan("borrow later used here".to_owned()));
        },
    };
    let frag = &diag.spans[bo].text[0];
    let user = match crate::snippet::parse_binding(frag.text.as_str()) {
        Ok(u) => u,
        Err(e) => {
            return Err(e);
        },
    };
    let hl = frag.text.as_str().substring_char(frag.highlight_start - 1, frag.highlight_end - 1);
    let borrower = match crate::snippet::parse_borrow_target(hl) {
        Ok(b) => b,
        Err(e) => {
            return Err(e);
        },
    };

    let mut acts = Actions::new();
    acts.push_event(
        diag.spans[bo].line_start,
        make_event2("MutableBorrow", borrower.as_str(), user.as_str()),
    );
    acts.push_event(
        diag.spans[ou].line_start,
        make_event3("PassByStaticReference", borrower.as_str(), "Function", "false"),
    );
    acts.push_event(
        diag.spans[lu].line_start,
        make_event2("PassByStaticReference", user.as_str(), "Function"),
    );

    let ghost user_v = user@;
    let ghost borrower_v = borrower@;
    let mut env = Environ::new();
    let r1 = env.insert(user, Role::MutRef);
    match r1 {
        Ok(()) => {},
        Err(e) => {
            proof {
                reveal_with_fuel(env_lookup, 2);
            }
            return Err(e);
        },
    }
    proof {
        reveal_with_fuel(env_lookup, 3);
        assert(env@ =~= seq![(user_v, Role::MutRef)]);
        assert(env@.drop_first() =~= Seq::<(Seq<char>, Role)>::empty());
        assert(env_lookup(env@, borrower_v) == if borrower_v == user_v {
            Some(Role::MutRef)
        } else {
            None::<Role>
        });
    }
    let r2 = env.insert(borrower, Role::Owner);
    match r2 {
        Ok(()) => {},
        Err(e) => {
            return Err(e);
        },
    }
    proof {
        assert(env@ =~= rule_b_env(*diag));
    }
    Ok((acts, env))
}

// --- Dispatch over the rule registry.

pub open spec fn extract_ok(d: Diagnostic, code: Seq<char>) -> bool {
    if code == "E0502"@ {
        rule_a_ok(d)
    } else if code == "E0503"@ {
        rule_b_ok(d)
    } else {
        false
    }
}

pub open spec fn extract_actions(d: Diagnostic, code: Seq<char>) -> Seq<(usize, Seq<Seq<char>>)> {
    if code == "E0502"@ {
        rule_a_actions(d)
    } else {
        rule_b_actions(d)
    }
}

pub open spec fn extract_env(d: Diagnostic, code: Seq<char>) -> Seq<(Seq<char>, Role)> {
    if code == "E0502"@ {
        rule_a_env(d)
    } else {
        rule_b_env(d)
    }
}

pub open spec fn extract_err(d: Diagnostic, code: Seq<char>, e: ExtractError) -> bool {
    if code == "E0502"@ {
        rule_a_err(d, e)
    } else if code == "E0503"@ {
        rule_b_err(d, e)
    } else {
        e matches ExtractError::UnknownDiagnosticCode(c) && c@ == code
    }
}

/// Dispatches a diagnostic to the rule registered for its error code and
/// returns that rule's events and role assignments. A code with no
/// registered rule is a fatal `UnknownDiagnosticCode` error.
pub fn diagnostics(diag: &Diagnostic, code: &str) -> (r: Result<(Actions, Environ), ExtractError>)
    requires
        diag.wf(),
    ensures
        match r {
            Ok((acts, env)) => extract_ok(*diag, code@) && acts@ == extract_actions(*diag, code@)
                && acts.wf() && env@ == extract_env(*diag, code@) && env.wf(),
            Err(e) => extract_err(*diag, code@, e),
        },
{
    if str_eq(code, "E0502") {
        diagnostics_502(diag)
    } else if str_eq(code, "E0503") {
        diagnostics_503(diag)
    } else {
        Err(ExtractError::UnknownDiagnosticCode(code.to_owned()))
    }
}

/// Law (rule for E0502): when extraction succeeds and the three matched
/// spans' lines are in ascending order, the produced map holds exactly the
/// three events, each on its own span's line, in the fixed relative order
/// StaticBorrow, PassByMutableReference, PassByStaticReference.
pub proof fn lemma_rule_a_event_order(d: Diagnostic)
    requires
        rule_a_ok(d),
        a_line1(d) <= a_line2(d) <= a_line3(d),
    ensures
        flat_events(rule_a_actions(d)) == seq![a_event1(d), a_event2(d), a_event3(d)],
        actions_lookup(rule_a_actions(d), a_line1(d) as int) matches Some(v) && v.contains(
            a_event1(d),
        ),
        actions_lookup(rule_a_actions(d), a_line2(d) as int) matches Some(v) && v.contains(
            a_event2(d),
        ),
        actions_lookup(rule_a_actions(d), a_line3(d) as int) matches Some(v) && v.contains(
            a_event3(d),
        ),
        forall|j: int|
            0 <= j < rule_a_actions(d).len() ==> (#[trigger] rule_a_actions(d)[j]).0 == a_line1(d)
                || rule_a_actions(d)[j].0 == a_line2(d) || rule_a_actions(d)[j].0 == a_line3(d),
{
    lemma_three_inserts(a_line1(d), a_line2(d), a_line3(d), a_event1(d), a_event2(d), a_event3(d));
}

/// Law (rule for E0503): the same, with MutableBorrow in place of
/// StaticBorrow.
pub proof fn lemma_rule_b_event_order(d: Diagnostic)
    requires
        rule_b_ok(d),
        b_line1(d) <= b_line2(d) <= b_line3(d),
    ensures
        flat_events(rule_b_actions(d)) == seq![b_event1(d), b_event2(d), b_event3(d)],
        actions_lookup(rule_b_actions(d), b_line1(d) as int) matches Some(v) && v.contains(
            b_event1(d),
        ),
        actions_lookup(rule_b_actions(d), b_line2(d) as int) matches Some(v) && v.contains(
            b_event2(d),
        ),
        actions_lookup(rule_b_actions(d), b_line3(d) as int) matches Some(v) && v.contains(
            b_event3(d),
        ),
        forall|j: int|
            0 <= j < rule_b_actions(d).len() ==> (#[trigger] rule_b_actions(d)[j]).0 == b_line1(d)
                || rule_b_actions(d)[j].0 == b_line2(d) || rule_b_actions(d)[j].0 == b_line3(d),
{
    lemma_three_inserts(b_line1(d), b_line2(d), b_line3(d), b_event1(d), b_event2(d), b_event3(d));
}

/// Each of three events recorded in order, starting from an empty map, can
/// be looked up under its own line, whatever the order of the lines.
proof fn lemma_three_inserts_attached(
    l1: usize,
    l2: usize,
    l3: usize,
    e1: Seq<char>,
    e2: Seq<char>,
    e3: Seq<char>,
)
    ensures
        ({
            let m = action_insert(
                action_insert(action_insert(Seq::empty(), l1, e1), l2, e2),
                l3,
                e3,
            );
            &&& actions_lookup(m, l1 as int) matches Some(v1) && v1.contains(e1)
            &&& actions_lookup(m, l2 as int) matches Some(v2) && v2.contains(e2)
            &&& actions_lookup(m, l3 as int) matches Some(v3) && v3.contains(e3)
        }),
{
    broadcast use vstd::seq_lib::lemma_seq_contains_after_push;

    let m0 = Seq::<(usize, Seq<Seq<char>>)>::empty();
    let m1 = action_insert(m0, l1, e1);
    let m2 = action_insert(m1, l2, e2);
    crate::actions::lemma_action_insert_sorted(m0, l1, e1);
    crate::actions::lemma_action_insert_sorted(m1, l2, e2);
    crate::actions::lemma_action_insert_lookup(m0, l1, e1, l1 as int);
    crate::actions::lemma_action_insert_lookup(m1, l2, e2, l1 as int);
    crate::actions::lemma_action_insert_lookup(m1, l2, e2, l2 as int);
    crate::actions::lemma_action_insert_lookup(m2, l3, e3, l1 as int);
    crate::actions::lemma_action_insert_lookup(m2, l3, e3, l2 as int);
    crate::actions::lemma_action_insert_lookup(m2, l3, e3, l3 as int);
    assert(seq![e1].contains(e1)) by {
        assert(seq![e1][0] == e1);
    }
    assert(seq![e2].contains(e2)) by {
        assert(seq![e2][0] == e2);
    }
    assert(seq![e3].contains(e3)) by {
        assert(seq![e3][0] == e3);
    }
}

/// Law (rule for E0502): however the three matched spans' lines relate, a
/// successful extraction attaches each of the three events to its own
/// span's line.
pub proof fn lemma_rule_a_events_attached(d: Diagnostic)
    requires
        rule_a_ok(d),
    ensures
        actions_lookup(rule_a_actions(d), a_line1(d) as int) matches Some(v) && v.contains(
            a_event1(d),
        ),
        actions_lookup(rule_a_actions(d), a_line2(d) as int) matches Some(v) && v.contains(
            a_event2(d),
        ),
        actions_lookup(rule_a_actions(d), a_line3(d) as int) matches Some(v) && v.contains(
            a_event3(d),
        ),
{
    lemma_three_inserts_attached(
        a_line1(d),
        a_line2(d),
        a_line3(d),
        a_event1(d),
        a_event2(d),
        a_event3(d),
    );
}

/// Law (rule for E0503): the same attachment, with MutableBorrow in place
/// of StaticBorrow.
pub proof fn lemma_rule_b_events_attached(d: Diagnostic)
    requires
        rule_b_ok(d),
    ensures
        actions_lookup(rule_b_actions(d), b_line1(d) as int) matches Some(v) && v.contains(
            b_event1(d),
        ),
        actions_lookup(rule_b_actions(d), b_line2(d) as int) matches Some(v) && v.contains(
            b_event2(d),
        ),
        actions_lookup(rule_b_actions(d), b_line3(d) as int) matches Some(v) && v.contains(
            b_event3(d),
        ),
{
    lemma_three_inserts_attached(
        b_line1(d),
        b_line2(d),
        b_line3(d),
        b_event1(d),
        b_event2(d),
        b_event3(d),
    );
}

/// Law: an unknown error code, or any missing required span label, can
/// never yield a successful extraction — so no event of the diagnostic is
/// ever emitted in those cases.
pub proof fn lemma_error_yields_no_events(d: Diagnostic, code: Seq<char>)
    ensures
        code != "E0502"@ && code != "E0503"@ ==> !extract_ok(d, code),
        a_imm_idx(d) is None || a_mut_idx(d) is None || a_use_idx(d) is None ==> !rule_a_ok(d),
        b_borrow_idx(d) is None || b_use_idx(d) is None || b_later_idx(d) is None ==> !rule_b_ok(d),
{
}

} // verus!
