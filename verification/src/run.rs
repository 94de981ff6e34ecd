use vstd::prelude::*;
use vstd::string::StringExecFns;

use crate::actions::{action_insert, Actions};
use crate::diag::{Diagnostic, Level};
use crate::environ::{env_insert, Environ};
use crate::errors::ExtractError;
use crate::role::Role;
use crate::rules::{diagnostics, extract_actions, extract_env, extract_err, extract_ok};

verus! {

// The run merger: processes the diagnostic stream in input order, folding
// each recognized diagnostic's events and role assignments into one
// cumulative action map and one cumulative environment. Any failure aborts
// the whole run with the state untouched — there is no partial output.

/// One line's events folded into the map, in order.
pub open spec fn action_insert_events(
    m: Seq<(usize, Seq<Seq<char>>)>,
    line: usize,
    evs: Seq<Seq<char>>,
) -> Seq<(usize, Seq<Seq<char>>)>
    decreases evs.len(),
{
    if evs.len() == 0 {
        m
    } else {
        action_insert_events(action_insert(m, line, evs[0]), line, evs.drop_first())
    }
}

/// A whole per-diagnostic map folded into the cumulative one, line by line:
/// events of a line already present are appended after the present ones.
pub open spec fn action_insert_all(
    m: Seq<(usize, Seq<Seq<char>>)>,
    n: Seq<(usize, Seq<Seq<char>>)>,
) -> Seq<(usize, Seq<Seq<char>>)>
    decreases n.len(),
{
    if n.len() == 0 {
        m
    } else {
        action_insert_all(action_insert_events(m, n[0].0, n[0].1), n.drop_first())
    }
}

/// Role assignments folded into the cumulative environment, in order; the
/// first conflict is reported as (identifier, recorded role, offered role).
pub open spec fn env_insert_all(m: Seq<(Seq<char>, Role)>, n: Seq<(Seq<char>, Role)>) -> Result<
    Seq<(Seq<char>, Role)>,
    (Seq<char>, Role, Role),
>
    decreases n.len(),
{
    if n.len() == 0 {
        Ok(m)
    } else {
        match env_insert(m, n[0].0, n[0].1) {
            Ok(m2) => env_insert_all(m2, n.drop_first()),
            Err(r0) => Err((n[0].0, r0, n[0].1)),
        }
    }
}

/// The merger applies a rule only to an Error-level diagnostic carrying a
/// code.
pub open spec fn relevant(d: Diagnostic) -> bool {
    d.level == Level::Error && d.code is Some
}

/// The cumulative state of one run: the action map and the environment,
/// owned by the run and handed off by value once it completes.
pub struct Run {
    pub actions: Actions,
    pub environ: Environ,
}

impl Run {
    pub open spec fn wf(self) -> bool {
        self.actions.wf() && self.environ.wf()
    }

    /// A fresh run: no events yet, and the placeholder identifier for the
    /// enclosing call site pre-seeded with role `Function`.
    pub fn new() -> (r: Run)
        ensures
            r.wf(),
            r.actions@ == Seq::<(usize, Seq<Seq<char>>)>::empty(),
            r.environ@ == seq![("Function"@, Role::Function)],
    {
        let actions = Actions::new();
        let mut environ = Environ::new();
        let res = environ.insert("Function".to_owned(), Role::Function);
        match res {
            Ok(()) => {},
            Err(_) => {
                proof {
                    assert(false);
                }
            },
        }
        proof {
            assert(environ@ =~= seq![("Function"@, Role::Function)]);
        }
        Run { actions, environ }
    }

    /// Apply the registered rule to one diagnostic and fold its events and
    /// role assignments into the cumulative state. Diagnostics below Error
    /// level or without a code are skipped. On any failure — extraction or
    /// role conflict — the state is left unchanged and the error returned,
    /// so no event of a failing diagnostic ever reaches the output.
    #[verifier::loop_isolation(false)]
    pub fn fold_diagnostic(&mut self, diag: &Diagnostic) -> (r: Result<(), ExtractError>)
        requires
            old(self).wf(),
            diag.wf(),
        ensures
            final(self).wf(),
            match r {
                Ok(()) => {
                    if relevant(*diag) {
                        let code = (diag.code->Some_0)@;
                        &&& extract_ok(*diag, code)
                        &&& final(self).actions@ == action_insert_all(
                            old(self).actions@,
                            extract_actions(*diag, code),
                        )
                        &&& env_insert_all(old(self).environ@, extract_env(*diag, code)) == Ok::<
                            Seq<(Seq<char>, Role)>,
                            (Seq<char>, Role, Role),
                        >(final(self).environ@)
                    } else {
                        final(self).actions@ == old(self).actions@ && final(self).environ@ == old(
                            self,
                        ).environ@
                    }
                },
                Err(e) => {
                    &&& final(self).actions@ == old(self).actions@
                    &&& final(self).environ@ == old(self).environ@
                    &&& relevant(*diag)
                    &&& ({
                        let code = (diag.code->Some_0)@;
                        extract_err(*diag, code, e) || (extract_ok(*diag, code) && match (
                        env_insert_all(old(self).environ@, extract_env(*diag, code)),
                        e,
                        ) {
                            (Err((k, o, nw)), ExtractError::ConflictingRole(n, ro, rn)) => n@ == k
                                && ro == o && rn == nw,
                            _ => false,
                        })
                    })
                },
            },
    {
        if !(diag.level == Level::Error) {
            return Ok(());
        }
        let code_string = match &diag.code {
            Some(c) => c,
            None => {
                return Ok(());
            },
        };
        let extraction = diagnostics(diag, code_string.as_str());
        let (acts, env) = match extraction {
            Ok(p) => p,
            Err(e) => {
                return Err(e);
            },
        };
        let ghost code = (diag.code->Some_0)@;
        let ghost envpairs = env@;
        let ghost actsv = acts@;

        // Fold the role assignments into a copy first: a conflict must
        // leave the run state untouched.
        let mut newenv = self.environ.duplicate();
        proof {
            assert(envpairs.skip(0) =~= envpairs);
        }
        let mut i: usize = 0;
        while i < env.items.len()
            invariant
                i <= env.items@.len(),
                env@ == envpairs,
                envpairs == extract_env(*diag, code),
                newenv.wf(),
                env_insert_all(old(self).environ@, envpairs) == env_insert_all(
                    newenv@,
                    envpairs.skip(i as int),
                ),
                self.actions@ == old(self).actions@,
                self.environ@ == old(self).environ@,
                self.actions.wf(),
            decreases env.items@.len() - i,
        {
            let name = env.items[i].0.clone();
            let role = env.items[i].1;
            let ghost pre = newenv@;
            proof {
                assert(envpairs.skip(i as int)[0] == envpairs[i as int]);
                assert(envpairs.skip(i as int).drop_first() =~= envpairs.skip(i as int + 1));
            }
            let res = newenv.insert(name, role);
            match res {
                Ok(()) => {},
                Err(e) => {
                    return Err(e);
                },
            }
            i = i + 1;
        }
        proof {
            assert(envpairs.skip(envpairs.len() as int) =~= Seq::<(Seq<char>, Role)>::empty());
        }
        self.environ = newenv;

        // Fold the events in, line by line, in recorded order. This cannot
        // fail.
        proof {
            assert(actsv.skip(0) =~= actsv);
        }
        let mut j: usize = 0;
        while j < acts.items.len()
            invariant
                j <= acts.items@.len(),
                acts@ == actsv,
                actsv == extract_actions(*diag, code),
                self.actions.wf(),
                self.environ.wf(),
                action_insert_all(old(self).actions@, actsv) == action_insert_all(
                    self.actions@,
                    actsv.skip(j as int),
                ),
                env_insert_all(old(self).environ@, envpairs) == Ok::<
                    Seq<(Seq<char>, Role)>,
                    (Seq<char>, Role, Role),
                >(self.environ@),
            decreases acts.items@.len() - j,
        {
            let line = acts.items[j].0;
            let ghost evs = actsv[j as int].1;
            let ghost mstart = self.actions@;
            proof {
                assert(evs.skip(0) =~= evs);
                assert(actsv.skip(j as int)[0] == actsv[j as int]);
                assert(actsv.skip(j as int).drop_first() =~= actsv.skip(j as int + 1));
            }
            let mut k: usize = 0;
            while k < acts.items[j].1.len()
                invariant
                    j < acts.items@.len(),
                    k <= acts.items@[j as int].1@.len(),
                    acts@ == actsv,
                    line == actsv[j as int].0,
                    evs == actsv[j as int].1,
                    evs.len() == acts.items@[j as int].1@.len(),
                    self.actions.wf(),
                    self.environ.wf(),
                    env_insert_all(old(self).environ@, envpairs) == Ok::<
                        Seq<(Seq<char>, Role)>,
                        (Seq<char>, Role, Role),
                    >(self.environ@),
                    action_insert_events(mstart, line, evs) == action_insert_events(
                        self.actions@,
                        line,
                        evs.skip(k as int),
                    ),
                decreases acts.items@[j as int].1@.len() - k,
            {
                let ev = acts.items[j].1[k].clone();
                proof {
                    assert(evs.skip(k as int)[0] == evs[k as int]);
                    assert(evs.skip(k as int).drop_first() =~= evs.skip(k as int + 1));
                    assert(ev@ == evs[k as int]);
                }
                self.actions.push_event(line, ev);
                k = k + 1;
            }
            proof {
                assert(evs.skip(evs.len() as int) =~= Seq::<Seq<char>>::empty());
            }
            j = j + 1;
        }
        proof {
            assert(actsv.skip(actsv.len() as int) =~= Seq::<(usize, Seq<Seq<char>>)>::empty());
        }
        Ok(())
    }
}

} // verus!
