use vstd::prelude::*;
use vstd::string::StrSliceExecFns;
use vstd::string::StringExecFns;

use crate::actions::{actions_lookup, Actions};
use crate::environ::Environ;
use crate::role::{role_name, role_tag, Role};

verus! {

// The annotated copy of the source: a synthesized variable-declaration
// preamble, then every source line, those carrying events with the line's
// joined event descriptors as a trailing comment.

/// Event descriptors joined with a comma and a space.
pub open spec fn join_comma(evs: Seq<Seq<char>>) -> Seq<char>
    decreases evs.len(),
{
    if evs.len() == 0 {
        Seq::empty()
    } else if evs.len() == 1 {
        evs[0]
    } else {
        evs[0] + ", "@ + join_comma(evs.drop_first())
    }
}

/// A source line with its events appended as a trailing comment.
pub open spec fn annotate_line(line: Seq<char>, evs: Seq<Seq<char>>) -> Seq<char> {
    line + " /* !{ "@ + join_comma(evs) + " } */"@
}

/// One declaration line of the preamble.
pub open spec fn decl_line(name: Seq<char>, role: Role) -> Seq<char> {
    role_tag(role) + " "@ + name + ";"@
}

/// The preamble's declaration lines, one per environment entry, in order.
pub open spec fn decl_lines(env: Seq<(Seq<char>, Role)>) -> Seq<Seq<char>> {
    env.map_values(|p: (Seq<char>, Role)| decl_line(p.0, p.1))
}

/// Every source line, annotated where its 1-based line number carries
/// events.
pub open spec fn body_lines(lines: Seq<Seq<char>>, m: Seq<(usize, Seq<Seq<char>>)>) -> Seq<
    Seq<char>,
> {
    lines.map(
        |i: int, l: Seq<char>|
            match actions_lookup(m, i + 1) {
                Some(evs) => annotate_line(l, evs),
                None => l,
            },
    )
}

/// The whole annotated copy.
pub open spec fn annotated_output(
    lines: Seq<Seq<char>>,
    m: Seq<(usize, Seq<Seq<char>>)>,
    env: Seq<(Seq<char>, Role)>,
) -> Seq<Seq<char>> {
    seq!["/* --- BEGIN Variable Definitions ---"@] + decl_lines(env) + seq![
        "--- END Variable Definitions --- */"@,
    ] + body_lines(lines, m)
}

proof fn lemma_join_push(evs: Seq<Seq<char>>, x: Seq<char>)
    ensures
        join_comma(evs.push(x)) == if evs.len() == 0 {
            x
        } else {
            join_comma(evs) + ", "@ + x
        },
    decreases evs.len(),
{
    if evs.len() == 0 {
        assert(evs.push(x).len() == 1);
        assert(evs.push(x)[0] == x);
    } else {
        assert(evs.push(x).drop_first() =~= evs.drop_first().push(x));
        lemma_join_push(evs.drop_first(), x);
        if evs.len() == 1 {
            assert(join_comma(evs.push(x)) =~= join_comma(evs) + ", "@ + x);
        } else {
            assert(join_comma(evs.push(x)) =~= join_comma(evs) + ", "@ + x);
        }
    }
}

proof fn lemma_actions_lookup_at(m: Seq<(usize, Seq<Seq<char>>)>, line: int, i: int)
    requires
        0 <= i <= m.len(),
        forall|j: int| 0 <= j < i ==> (#[trigger] m[j]).0 != line,
    ensures
        i == m.len() ==> actions_lookup(m, line) is None,
        i < m.len() && m[i].0 == line ==> actions_lookup(m, line) == Some(m[i].1),
    decreases m.len(),
{
    if m.len() > 0 && m[0].0 != line {
        let d = m.drop_first();
        if i > 0 {
            assert(forall|j: int| 0 <= j < i - 1 ==> (#[trigger] d[j]).0 != line);
            lemma_actions_lookup_at(d, line, i - 1);
        }
    }
}

#[verifier::loop_isolation(false)]
fn lookup_events<'a>(actions: &'a Actions, line: usize) -> (r: Option<&'a Vec<String>>)
    ensures
        match r {
            Some(v) => actions_lookup(actions@, line as int) == Some(v.deep_view()),
            None => actions_lookup(actions@, line as int) is None,
        },
{
    let mut i: usize = 0;
    while i < actions.items.len()
        invariant
            i <= actions.items@.len(),
            forall|j: int| 0 <= j < i ==> (#[trigger] actions@[j]).0 != line,
        decreases actions.items@.len() - i,
    {
        if actions.items[i].0 == line {
            proof {
                lemma_actions_lookup_at(actions@, line as int, i as int);
            }
            return Some(&actions.items[i].1);
        }
        i = i + 1;
    }
    proof {
        lemma_actions_lookup_at(actions@, line as int, i as int);
    }
    None
}

#[verifier::loop_isolation(false)]
fn join_events(evs: &Vec<String>) -> (r: String)
    ensures
        r@ == join_comma(evs.deep_view()),
{
    let ghost all = evs.deep_view();
    let mut s = String::new();
    let mut i: usize = 0;
    while i < evs.len()
        invariant
            i <= evs@.len(),
            s@ == join_comma(all.take(i as int)),
        decreases evs@.len() - i,
    {
        if i > 0 {
            s.append(", ");
        }
        s.append(evs[i].as_str());
        proof {
            lemma_join_push(all.take(i as int), all[i as int]);
            assert(all.take(i as int).push(all[i as int]) =~= all.take(i as int + 1));
        }
        i = i + 1;
    }
    proof {
        assert(all.take(evs@.len() as int) =~= all);
    }
    s
}

fn annotate_one(line: &String, evs: &Vec<String>) -> (r: String)
    ensures
        r@ == annotate_line(line@, evs.deep_view()),
{
    let mut s = line.clone();
    s.append(" /* !{ ");
    let joined = join_events(evs);
    s.append(joined.as_str());
    s.append(" } */");
    s
}

fn decl_one(name: &String, role: Role) -> (r: String)
    ensures
        r@ == decl_line(name@, role),
{
    let mut s = role_name(role).to_owned();
    s.append(" ");
    s.append(name.as_str());
    s.append(";");
    s
}

/// The annotated copy of the source: the declaration preamble followed by
/// every source line, each line that carries events ending in a comment
/// that joins that line's event descriptors.
#[verifier::loop_isolation(false)]
pub fn annotate_source(lines: &Vec<String>, actions: &Actions, environ: &Environ) -> (r: Vec<
    String,
>)
    ensures
        r.deep_view() == annotated_output(lines.deep_view(), actions@, environ@),
{
    let ghost linesv = lines.deep_view();
    let mut out: Vec<String> = Vec::new();
    out.push("/* --- BEGIN Variable Definitions ---".to_owned());
    let mut i: usize = 0;
    while i < environ.items.len()
        invariant
            i <= environ.items@.len(),
            out.deep_view() =~= seq!["/* --- BEGIN Variable Definitions ---"@] + decl_lines(
                environ@.take(i as int),
            ),
        decreases environ.items@.len() - i,
    {
        let d = decl_one(&environ.items[i].0, environ.items[i].1);
        let ghost dv = d@;
        let ghost prev = out.deep_view();
        out.push(d);
        proof {
            assert(out.deep_view() =~= prev.push(dv));
            assert(environ@.take(i as int + 1) =~= environ@.take(i as int).push(
                environ@[i as int],
            ));
            assert(dv == decl_lines(environ@.take(i as int + 1))[i as int]);
            assert(out.deep_view() =~= seq!["/* --- BEGIN Variable Definitions ---"@] + decl_lines(
                environ@.take(i as int + 1),
            ));
        }
        i = i + 1;
    }
    proof {
        assert(environ@.take(environ@.len() as int) =~= environ@);
    }
    out.push("--- END Variable Definitions --- */".to_owned());
    let ghost prefix = seq!["/* --- BEGIN Variable Definitions ---"@] + decl_lines(environ@)
        + seq!["--- END Variable Definitions --- */"@];
    proof {
        assert(out.deep_view() =~= prefix);
    }
    let mut j: usize = 0;
    while j < lines.len()
        invariant
            j <= lines@.len(),
            out.deep_view() =~= prefix + body_lines(linesv, actions@).take(j as int),
        decreases lines@.len() - j,
    {
        let line_no = j + 1;
        let annotated = match lookup_events(actions, line_no) {
            Some(evs) => annotate_one(&lines[j], evs),
            None => lines[j].clone(),
        };
        let ghost av = annotated@;
        let ghost prev = out.deep_view();
        out.push(annotated);
        proof {
            assert(out.deep_view() =~= prev.push(av));
            assert(av == body_lines(linesv, actions@)[j as int]);
            assert(body_lines(linesv, actions@).take(j as int + 1) =~= body_lines(
                linesv,
                actions@,
            ).take(j as int).push(body_lines(linesv, actions@)[j as int]));
            assert(out.deep_view() =~= prefix + body_lines(linesv, actions@).take(j as int + 1));
        }
        j = j + 1;
    }
    proof {
        assert(body_lines(linesv, actions@).take(lines@.len() as int) =~= body_lines(
            linesv,
            actions@,
        ));
        assert(out.deep_view() =~= annotated_output(linesv, actions@, environ@));
    }
    out
}

} // verus!
