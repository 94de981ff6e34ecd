use vstd::prelude::*;

verus! {

/// Inserting one event into an ordered line/event map: append to the line's
/// list if the line is present, else insert the line at its sorted position.
pub open spec fn action_insert(
    m: Seq<(usize, Seq<Seq<char>>)>,
    line: usize,
    ev: Seq<char>,
) -> Seq<(usize, Seq<Seq<char>>)>
    decreases m.len(),
{
    if m.len() == 0 {
        seq![(line, seq![ev])]
    } else if m[0].0 < line {
        seq![m[0]] + action_insert(m.drop_first(), line, ev)
    } else if m[0].0 == line {
        seq![(m[0].0, m[0].1.push(ev))] + m.drop_first()
    } else {
        seq![(line, seq![ev])] + m
    }
}

/// The events recorded for a line, if any.
pub open spec fn actions_lookup(m: Seq<(usize, Seq<Seq<char>>)>, line: int) -> Option<
    Seq<Seq<char>>,
>
    decreases m.len(),
{
    if m.len() == 0 {
        None
    } else if m[0].0 == line {
        Some(m[0].1)
    } else {
        actions_lookup(m.drop_first(), line)
    }
}

/// All events of the map, in line order and, within a line, in recorded order.
pub open spec fn flat_events(m: Seq<(usize, Seq<Seq<char>>)>) -> Seq<Seq<char>>
    decreases m.len(),
{
    if m.len() == 0 {
        Seq::empty()
    } else {
        m[0].1 + flat_events(m.drop_first())
    }
}

/// Line numbers strictly increase along the map.
pub open spec fn actions_sorted(m: Seq<(usize, Seq<Seq<char>>)>) -> bool {
    forall|i: int, j: int| 0 <= i < j < m.len() ==> m[i].0 < m[j].0
}

/// What `action_insert` does at the first position whose line is not below
/// the inserted one.
pub proof fn lemma_action_insert_at(
    m: Seq<(usize, Seq<Seq<char>>)>,
    line: usize,
    ev: Seq<char>,
    i: int,
)
    requires
        0 <= i <= m.len(),
        forall|j: int| 0 <= j < i ==> (#[trigger] m[j]).0 < line,
        i < m.len() ==> m[i].0 >= line,
    ensures
        action_insert(m, line, ev) == if i < m.len() && m[i].0 == line {
            m.update(i, (m[i].0, m[i].1.push(ev)))
        } else {
            m.subrange(0, i).push((line, seq![ev])) + m.subrange(i, m.len() as int)
        },
    decreases i,
{
    if i == 0 {
        if m.len() == 0 {
            assert(action_insert(m, line, ev) =~= m.subrange(0, 0).push((line, seq![ev]))
                + m.subrange(0, 0));
        } else if m[0].0 == line {
            assert(seq![(m[0].0, m[0].1.push(ev))] + m.drop_first() =~= m.update(
                0,
                (m[0].0, m[0].1.push(ev)),
            ));
        } else {
            assert(m[0].0 > line);
            assert(seq![(line, seq![ev])] + m =~= m.subrange(0, 0).push((line, seq![ev]))
                + m.subrange(0, m.len() as int));
        }
    } else {
        assert(m[0].0 < line);
        let d = m.drop_first();
        assert(forall|j: int| 0 <= j < i - 1 ==> (#[trigger] d[j]).0 < line);
        lemma_action_insert_at(d, line, ev, i - 1);
        if i < m.len() && m[i].0 == line {
            assert(seq![m[0]] + d.update(i - 1, (d[i - 1].0, d[i - 1].1.push(ev))) =~= m.update(
                i,
                (m[i].0, m[i].1.push(ev)),
            ));
        } else {
            assert(seq![m[0]] + (d.subrange(0, i - 1).push((line, seq![ev])) + d.subrange(
                i - 1,
                d.len() as int,
            )) =~= m.subrange(0, i).push((line, seq![ev])) + m.subrange(i, m.len() as int));
        }
    }
}

proof fn lemma_actions_lookup_none(m: Seq<(usize, Seq<Seq<char>>)>, q: int)
    requires
        forall|i: int| 0 <= i < m.len() ==> (#[trigger] m[i]).0 != q,
    ensures
        actions_lookup(m, q) is None,
    decreases m.len(),
{
    if m.len() > 0 {
        let d = m.drop_first();
        assert(forall|i: int| 0 <= i < d.len() ==> (#[trigger] d[i]).0 != q);
        lemma_actions_lookup_none(d, q);
    }
}

/// Insertion keeps any lower bound on the map's line numbers, provided the
/// inserted line respects it.
proof fn lemma_action_insert_min(m: Seq<(usize, Seq<Seq<char>>)>, line: usize, ev: Seq<char>, b: int)
    requires
        forall|i: int| 0 <= i < m.len() ==> (#[trigger] m[i]).0 >= b,
        line >= b,
    ensures
        forall|j: int|
            0 <= j < action_insert(m, line, ev).len() ==> (#[trigger] action_insert(
                m,
                line,
                ev,
            )[j]).0 >= b,
    decreases m.len(),
{
    let r = action_insert(m, line, ev);
    if m.len() == 0 {
    } else if m[0].0 < line {
        let d = m.drop_first();
        assert(forall|i: int| 0 <= i < d.len() ==> (#[trigger] d[i]).0 >= b);
        lemma_action_insert_min(d, line, ev, b);
        assert forall|j: int| 0 <= j < r.len() implies (#[trigger] r[j]).0 >= b by {
            if j > 0 {
                assert(r[j] == action_insert(d, line, ev)[j - 1]);
            }
        }
    } else if m[0].0 == line {
        assert forall|j: int| 0 <= j < r.len() implies (#[trigger] r[j]).0 >= b by {
            if j > 0 {
                assert(r[j] == m[j]);
            }
        }
    } else {
        assert forall|j: int| 0 <= j < r.len() implies (#[trigger] r[j]).0 >= b by {
            if j > 0 {
                assert(r[j] == m[j - 1]);
            }
        }
    }
}

/// Insertion keeps the map sorted.
pub proof fn lemma_action_insert_sorted(m: Seq<(usize, Seq<Seq<char>>)>, line: usize, ev: Seq<char>)
    requires
        actions_sorted(m),
    ensures
        actions_sorted(action_insert(m, line, ev)),
    decreases m.len(),
{
    let r = action_insert(m, line, ev);
    if m.len() == 0 {
    } else if m[0].0 < line {
        let d = m.drop_first();
        assert(actions_sorted(d));
        lemma_action_insert_sorted(d, line, ev);
        lemma_action_insert_min(d, line, ev, m[0].0 + 1);
        assert forall|p: int, q: int| 0 <= p < q < r.len() implies r[p].0 < r[q].0 by {
            assert(r[q] == action_insert(d, line, ev)[q - 1]);
            if p > 0 {
                assert(r[p] == action_insert(d, line, ev)[p - 1]);
            }
        }
    } else if m[0].0 == line {
        assert forall|p: int, q: int| 0 <= p < q < r.len() implies r[p].0 < r[q].0 by {
            assert(r[q] == m[q]);
            assert(r[p].0 == m[p].0);
        }
    } else {
        assert forall|p: int, q: int| 0 <= p < q < r.len() implies r[p].0 < r[q].0 by {
            assert(r[q] == m[q - 1]);
            if p > 0 {
                assert(r[p] == m[p - 1]);
            }
        }
    }
}

/// What insertion does to each line's recorded events: the inserted line
/// gains the event at the end of its list, every other line is untouched.
pub proof fn lemma_action_insert_lookup(
    m: Seq<(usize, Seq<Seq<char>>)>,
    line: usize,
    ev: Seq<char>,
    q: int,
)
    requires
        actions_sorted(m),
    ensures
        actions_lookup(action_insert(m, line, ev), q) == if q == line {
            match actions_lookup(m, q) {
                Some(evs) => Some(evs.push(ev)),
                None => Some(seq![ev]),
            }
        } else {
            actions_lookup(m, q)
        },
    decreases m.len(),
{
    let r = action_insert(m, line, ev);
    if m.len() == 0 {
        assert(r =~~= seq![(line, seq![ev])]);
        assert(r.drop_first() =~~= Seq::<(usize, Seq<Seq<char>>)>::empty());
    } else if m[0].0 < line {
        let d = m.drop_first();
        assert(actions_sorted(d));
        lemma_action_insert_lookup(d, line, ev, q);
        assert(r.drop_first() =~~= action_insert(d, line, ev));
        assert(r[0] == m[0]);
        if q == m[0].0 {
            assert(actions_lookup(r, q) == Some(m[0].1));
            assert(actions_lookup(m, q) == Some(m[0].1));
        } else {
            assert(actions_lookup(r, q) == actions_lookup(action_insert(d, line, ev), q));
            assert(actions_lookup(m, q) == actions_lookup(d, q));
        }
    } else if m[0].0 == line {
        assert(r.drop_first() =~~= m.drop_first());
        assert(r[0] == (m[0].0, m[0].1.push(ev)));
        if q == line {
            assert(actions_lookup(r, q) == Some(m[0].1.push(ev)));
            assert(actions_lookup(m, q) == Some(m[0].1));
        } else {
            assert(actions_lookup(r, q) == actions_lookup(m.drop_first(), q));
            assert(actions_lookup(m, q) == actions_lookup(m.drop_first(), q));
        }
    } else {
        assert(r.drop_first() =~~= m);
        assert(r[0] == (line, seq![ev]));
        if q == line {
            assert(forall|i: int| 0 <= i < m.len() ==> (#[trigger] m[i]).0 >= m[0].0);
            assert(forall|i: int| 0 <= i < m.len() ==> (#[trigger] m[i]).0 != q);
            lemma_actions_lookup_none(m, q);
            assert(actions_lookup(r, q) == Some(seq![ev]));
        } else {
            assert(actions_lookup(r, q) == actions_lookup(m, q));
        }
    }
}

/// Recording three events on ascending lines, starting from an empty map,
/// keeps them in recording order: the map's flattened event list is exactly
/// the three events, each looked up under its own line.
pub proof fn lemma_three_inserts(
    l1: usize,
    l2: usize,
    l3: usize,
    e1: Seq<char>,
    e2: Seq<char>,
    e3: Seq<char>,
)
    requires
        l1 <= l2 <= l3,
    ensures
        ({
            let m = action_insert(
                action_insert(action_insert(Seq::empty(), l1, e1), l2, e2),
                l3,
                e3,
            );
            &&& flat_events(m) == seq![e1, e2, e3]
            &&& actions_lookup(m, l1 as int) matches Some(v1) && v1.contains(e1)
            &&& actions_lookup(m, l2 as int) matches Some(v2) && v2.contains(e2)
            &&& actions_lookup(m, l3 as int) matches Some(v3) && v3.contains(e3)
            &&& forall|j: int|
                0 <= j < m.len() ==> (#[trigger] m[j]).0 == l1 || m[j].0 == l2 || m[j].0 == l3
        }),
{
    reveal_with_fuel(action_insert, 5);
    reveal_with_fuel(flat_events, 5);
    reveal_with_fuel(actions_lookup, 5);
    let m1 = action_insert(Seq::empty(), l1, e1);
    assert(m1 =~~= seq![(l1, seq![e1])]);
    let m2 = action_insert(m1, l2, e2);
    let m3 = action_insert(m2, l3, e3);
    assert(seq![(l1, seq![e1])].drop_first() =~~= Seq::<(usize, Seq<Seq<char>>)>::empty());
    if l1 == l2 {
        assert(m2 =~~= seq![(l1, seq![e1, e2])]);
        assert(seq![(l1, seq![e1, e2])].drop_first() =~~= Seq::<(usize, Seq<Seq<char>>)>::empty());
        if l2 == l3 {
            assert(m3 =~~= seq![(l1, seq![e1, e2, e3])]);
            assert(flat_events(m3) =~~= seq![e1, e2, e3]);
        } else {
            assert(m3 =~~= seq![(l1, seq![e1, e2]), (l3, seq![e3])]);
            assert(m3.drop_first() =~~= seq![(l3, seq![e3])]);
            assert(m3.drop_first().drop_first() =~~= Seq::<(usize, Seq<Seq<char>>)>::empty());
            assert(flat_events(m3) =~~= seq![e1, e2, e3]);
        }
    } else {
        assert(action_insert(Seq::<(usize, Seq<Seq<char>>)>::empty(), l2, e2) =~~= seq![
            (l2, seq![e2]),
        ]);
        assert(m2 =~~= seq![(l1, seq![e1]), (l2, seq![e2])]);
        assert(m2.drop_first() =~~= seq![(l2, seq![e2])]);
        if l2 == l3 {
            assert(action_insert(m2.drop_first(), l3, e3) =~~= seq![(l2, seq![e2, e3])]);
            assert(m3 =~~= seq![(l1, seq![e1]), (l2, seq![e2, e3])]);
            assert(m3.drop_first() =~~= seq![(l2, seq![e2, e3])]);
            assert(m3.drop_first().drop_first() =~~= Seq::<(usize, Seq<Seq<char>>)>::empty());
            assert(flat_events(m3) =~~= seq![e1, e2, e3]);
        } else {
            assert(seq![(l2, seq![e2])].drop_first() =~~= Seq::<(usize, Seq<Seq<char>>)>::empty());
            assert(action_insert(seq![(l2, seq![e2])], l3, e3) =~~= seq![
                (l2, seq![e2]),
                (l3, seq![e3]),
            ]);
            assert(m3 =~~= seq![(l1, seq![e1]), (l2, seq![e2]), (l3, seq![e3])]);
            assert(m3.drop_first() =~~= seq![(l2, seq![e2]), (l3, seq![e3])]);
            assert(m3.drop_first().drop_first() =~~= seq![(l3, seq![e3])]);
            assert(m3.drop_first().drop_first().drop_first() =~~= Seq::<
                (usize, Seq<Seq<char>>),
            >::empty());
            assert(flat_events(m3) =~~= seq![e1, e2, e3]);
        }
    }
}

/// Ordered mapping from source line number to the ordered list of event
/// descriptors occurring on that line. Line order determines timeline
/// order; within a line, insertion order is preserved.
pub struct Actions {
    pub items: Vec<(usize, Vec<String>)>,
}

impl View for Actions {
    type V = Seq<(usize, Seq<Seq<char>>)>;

    open spec fn view(&self) -> Seq<(usize, Seq<Seq<char>>)> {
        self.items@.map_values(|p: (usize, Vec<String>)| (p.0, p.1.deep_view()))
    }
}

impl Actions {
    pub open spec fn wf(self) -> bool {
        actions_sorted(self@)
    }

    pub fn new() -> (r: Actions)
        ensures
            r@ == Seq::<(usize, Seq<Seq<char>>)>::empty(),
            r.wf(),
    {
        let r = Actions { items: Vec::new() };
        proof {
            assert(r@ =~= Seq::<(usize, Seq<Seq<char>>)>::empty());
        }
        r
    }

    /// Record one event on a line, after all events already recorded there.
    pub fn push_event(&mut self, line: usize, ev: String)
        requires
            old(self).wf(),
        ensures
            final(self)@ == action_insert(old(self)@, line, ev@),
            final(self).wf(),
    {
        let ghost m0 = self@;
        let mut i: usize = 0;
        while i < self.items.len() && self.items[i].0 < line
            invariant
                i <= self.items@.len(),
                self@ == m0,
                forall|j: int| 0 <= j < i ==> (#[trigger] m0[j]).0 < line,
            decreases self.items@.len() - i,
        {
            i = i + 1;
        }
        proof {
            lemma_action_insert_at(m0, line, ev@, i as int);
        }
        if i < self.items.len() && self.items[i].0 == line {
            let pair = self.items.remove(i);
            let (ln, mut evs) = pair;
            evs.push(ev);
            self.items.insert(i, (ln, evs));
            proof {
                assert(self@ =~~= m0.update(i as int, (m0[i as int].0, m0[i as int].1.push(ev@))));
            }
        } else {
            self.items.insert(i, (line, vec![ev]));
            proof {
                assert(self@ =~~= m0.subrange(0, i as int).push((line, seq![ev@])) + m0.subrange(
                    i as int,
                    m0.len() as int,
                ));
            }
        }
        proof {
            lemma_action_insert_sorted(m0, line, ev@);
        }
    }

    /// The lowest line number carrying an event, if any.
    pub fn min_line(&self) -> (r: Option<usize>)
        requires
            self.wf(),
        ensures
            match r {
                Some(l) => self@.len() > 0 && l == self@[0].0 && forall|j: int|
                    0 <= j < self@.len() ==> l <= (#[trigger] self@[j]).0,
                None => self@.len() == 0,
            },
    {
        if self.items.len() == 0 {
            None
        } else {
            Some(self.items[0].0)
        }
    }
}

} // verus!
