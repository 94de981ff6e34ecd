use vstd::prelude::*;
use vstd::string::StringExecFns;

use crate::errors::ExtractError;
use crate::role::Role;
use crate::strutil::str_eq;

verus! {

/// The role recorded for an identifier, if any.
pub open spec fn env_lookup(m: Seq<(Seq<char>, Role)>, k: Seq<char>) -> Option<Role>
    decreases m.len(),
{
    if m.len() == 0 {
        None
    } else if m[0].0 == k {
        Some(m[0].1)
    } else {
        env_lookup(m.drop_first(), k)
    }
}

/// Inserting an association: a new identifier is appended; repeating the
/// recorded role changes nothing; a different role for a recorded
/// identifier is a conflict, reported with the recorded role.
pub open spec fn env_insert(m: Seq<(Seq<char>, Role)>, k: Seq<char>, r: Role) -> Result<
    Seq<(Seq<char>, Role)>,
    Role,
> {
    match env_lookup(m, k) {
        None => Ok(m.push((k, r))),
        Some(r0) => if r0 == r {
            Ok(m)
        } else {
            Err(r0)
        },
    }
}

pub proof fn lemma_env_lookup_at(m: Seq<(Seq<char>, Role)>, k: Seq<char>, i: int)
    requires
        0 <= i <= m.len(),
        forall|j: int| 0 <= j < i ==> (#[trigger] m[j]).0 != k,
    ensures
        i == m.len() ==> env_lookup(m, k) is None,
        i < m.len() && m[i].0 == k ==> env_lookup(m, k) == Some(m[i].1),
    decreases m.len(),
{
    if m.len() > 0 && m[0].0 != k {
        let d = m.drop_first();
        if i > 0 {
            assert(forall|j: int| 0 <= j < i - 1 ==> (#[trigger] d[j]).0 != k);
            lemma_env_lookup_at(d, k, i - 1);
        }
    }
}

pub proof fn lemma_env_lookup_push(m: Seq<(Seq<char>, Role)>, k: Seq<char>, r: Role, k2: Seq<char>)
    ensures
        env_lookup(m, k) is None && k2 == k ==> env_lookup(m.push((k, r)), k2) == Some(r),
        k2 != k ==> env_lookup(m.push((k, r)), k2) == env_lookup(m, k2),
    decreases m.len(),
{
    if m.len() == 0 {
        assert(m.push((k, r)).drop_first() =~= Seq::<(Seq<char>, Role)>::empty());
    } else {
        assert(m.push((k, r)).drop_first() =~= m.drop_first().push((k, r)));
        lemma_env_lookup_push(m.drop_first(), k, r, k2);
    }
}

/// Law: inserting an identical `(identifier, role)` pair again is a no-op,
/// and inserting two different roles for one identifier raises a conflict
/// carrying the recorded role, in whichever order the two are inserted.
pub proof fn lemma_env_insert_laws(m: Seq<(Seq<char>, Role)>, k: Seq<char>, r1: Role, r2: Role)
    ensures
        match env_insert(m, k, r1) {
            Ok(m1) => env_insert(m1, k, r1) == Ok::<Seq<(Seq<char>, Role)>, Role>(m1) && (r1 != r2
                ==> env_insert(m1, k, r2) == Err::<Seq<(Seq<char>, Role)>, Role>(r1)),
            Err(_) => true,
        },
{
    if env_insert(m, k, r1) is Ok {
        let m1 = env_insert(m, k, r1)->Ok_0;
        match env_lookup(m, k) {
            None => {
                lemma_env_lookup_push(m, k, r1, k);
                assert(env_lookup(m1, k) == Some(r1));
            },
            Some(r0) => {
                assert(r0 == r1 && m1 == m);
            },
        }
    }
}

/// Mapping from identifier to role, with unique identifiers; the final
/// per-run classification handed to the renderer. Insertion order is kept.
pub struct Environ {
    pub items: Vec<(String, Role)>,
}

impl View for Environ {
    type V = Seq<(Seq<char>, Role)>;

    open spec fn view(&self) -> Seq<(Seq<char>, Role)> {
        self.items@.map_values(|p: (String, Role)| (p.0@, p.1))
    }
}

impl Environ {
    /// Identifiers are unique.
    pub open spec fn wf(self) -> bool {
        forall|i: int, j: int| 0 <= i < j < self@.len() ==> self@[i].0 != self@[j].0
    }

    pub fn new() -> (r: Environ)
        ensures
            r@ == Seq::<(Seq<char>, Role)>::empty(),
            r.wf(),
    {
        let r = Environ { items: Vec::new() };
        proof {
            assert(r@ =~= Seq::<(Seq<char>, Role)>::empty());
        }
        r
    }

    /// Associate a role with an identifier. A no-op if the identifier
    /// already holds that role; a `ConflictingRole` error, naming the
    /// recorded and the offered role, if it holds another.
    pub fn insert(&mut self, name: String, role: Role) -> (r: Result<(), ExtractError>)
        requires
            old(self).wf(),
        ensures
            final(self).wf(),
            match r {
                Ok(()) => env_insert(old(self)@, name@, role) == Ok::<Seq<(Seq<char>, Role)>, Role>(
                    final(self)@,
                ),
                Err(e) => final(self)@ == old(self)@ && (match e {
                    ExtractError::ConflictingRole(n, o, nw) => n@ == name@ && env_lookup(
                        old(self)@,
                        name@,
                    ) == Some(o) && o != role && nw == role,
                    _ => false,
                }),
            },
    {
        let ghost m0 = self@;
        let mut i: usize = 0;
        while i < self.items.len()
            invariant
                i <= self.items@.len(),
                self@ == m0,
                old(self).wf(),
                forall|j: int| 0 <= j < i ==> (#[trigger] m0[j]).0 != name@,
            decreases self.items@.len() - i,
        {
            if str_eq(self.items[i].0.as_str(), name.as_str()) {
                proof {
                    lemma_env_lookup_at(m0, name@, i as int);
                }
                let existing = self.items[i].1;
                if existing == role {
                    return Ok(());
                } else {
                    return Err(ExtractError::ConflictingRole(name, existing, role));
                }
            }
            i = i + 1;
        }
        proof {
            lemma_env_lookup_at(m0, name@, i as int);
        }
        self.items.push((name, role));
        proof {
            assert(self@ =~= m0.push((self.items@[m0.len() as int].0@, role)));
            assert forall|p: int, q: int| 0 <= p < q < self@.len() implies self@[p].0
                != self@[q].0 by {
                if q < m0.len() {
                } else {
                    assert(self@[q] == self@[m0.len() as int]);
                }
            }
        }
        Ok(())
    }

    /// A copy with the same contents.
    pub fn duplicate(&self) -> (r: Environ)
        ensures
            r@ == self@,
    {
        let mut items: Vec<(String, Role)> = Vec::new();
        let mut i: usize = 0;
        while i < self.items.len()
            invariant
                i <= self.items@.len(),
                items@.len() == i,
                forall|j: int| 0 <= j < i ==> items@[j].0@ == (#[trigger] self.items@[j]).0@
                    && items@[j].1 == self.items@[j].1,
            decreases self.items@.len() - i,
        {
            let k = self.items[i].0.clone();
            let v = self.items[i].1;
            items.push((k, v));
            i = i + 1;
        }
        let r = Environ { items };
        proof {
            assert(r@ =~= self@);
        }
        r
    }
}

} // verus!
