use vstd::prelude::*;
use vstd::string::StrSliceExecFns;
use vstd::string::StringExecFns;

verus! {

// HTML-escaping of source text, line by line, for safe embedding in the
// rendering tool's output: `&`, `<` and `>` become their character-entity
// equivalents.

pub open spec fn needs_escape(c: char) -> bool {
    c == '&' || c == '<' || c == '>'
}

pub open spec fn escape_char(c: char) -> Seq<char> {
    if c == '&' {
        "&amp;"@
    } else if c == '<' {
        "&lt;"@
    } else if c == '>' {
        "&gt;"@
    } else {
        seq![c]
    }
}

pub open spec fn escape_text(s: Seq<char>) -> Seq<char>
    decreases s.len(),
{
    if s.len() == 0 {
        Seq::empty()
    } else {
        escape_char(s[0]) + escape_text(s.drop_first())
    }
}

/// Reversing the three substitutions: each leading entity becomes its
/// character again, any other character is kept.
pub open spec fn unescape_text(s: Seq<char>) -> Seq<char>
    decreases s.len(),
{
    if s.len() == 0 {
        Seq::empty()
    } else if s.len() >= 5 && s.subrange(0, 5) == "&amp;"@ {
        seq!['&'] + unescape_text(s.skip(5))
    } else if s.len() >= 4 && s.subrange(0, 4) == "&lt;"@ {
        seq!['<'] + unescape_text(s.skip(4))
    } else if s.len() >= 4 && s.subrange(0, 4) == "&gt;"@ {
        seq!['>'] + unescape_text(s.skip(4))
    } else {
        seq![s[0]] + unescape_text(s.drop_first())
    }
}

/// Law: on text containing none of the three escaped characters, escaping
/// changes nothing.
pub proof fn lemma_escape_noop(s: Seq<char>)
    requires
        forall|i: int| 0 <= i < s.len() ==> !needs_escape(s[i]),
    ensures
        escape_text(s) == s,
    decreases s.len(),
{
    if s.len() == 0 {
        assert(escape_text(s) =~= s);
    } else {
        assert(!needs_escape(s[0]));
        lemma_escape_noop(s.drop_first());
        assert(escape_text(s) =~= s);
    }
}

/// Escaping distributes over concatenation.
pub proof fn lemma_escape_concat(a: Seq<char>, b: Seq<char>)
    ensures
        escape_text(a + b) == escape_text(a) + escape_text(b),
    decreases a.len(),
{
    if a.len() == 0 {
        assert(a + b =~= b);
        assert(escape_text(a) =~= Seq::<char>::empty());
        assert(escape_text(a) + escape_text(b) =~= escape_text(b));
    } else {
        assert((a + b).drop_first() =~= a.drop_first() + b);
        lemma_escape_concat(a.drop_first(), b);
        assert(escape_text(a + b) =~= escape_text(a) + escape_text(b));
    }
}

/// Law: escaped text, when the three substitutions are reversed, reproduces
/// the original, whatever mix of `& < >` it held.
pub proof fn lemma_escape_round_trip(s: Seq<char>)
    ensures
        unescape_text(escape_text(s)) == s,
    decreases s.len(),
{
    reveal_strlit("&amp;");
    reveal_strlit("&lt;");
    reveal_strlit("&gt;");
    if s.len() == 0 {
        assert(unescape_text(escape_text(s)) =~= s);
    } else {
        let c = s[0];
        let rest = escape_text(s.drop_first());
        lemma_escape_round_trip(s.drop_first());
        if c == '&' {
            let t = escape_text(s);
            assert(t =~= "&amp;"@ + rest);
            assert(t.subrange(0, 5) =~= "&amp;"@);
            assert(t.skip(5) =~= rest);
            assert(unescape_text(t) =~= seq!['&'] + unescape_text(rest));
            assert(seq!['&'] + s.drop_first() =~= s);
        } else if c == '<' {
            let t = escape_text(s);
            assert(t =~= "&lt;"@ + rest);
            assert(t.len() >= 5 ==> t.subrange(0, 5)[1] == 'l');
            assert(!(t.len() >= 5 && t.subrange(0, 5) == "&amp;"@));
            assert(t.subrange(0, 4) =~= "&lt;"@);
            assert(t.skip(4) =~= rest);
            assert(unescape_text(t) =~= seq!['<'] + unescape_text(rest));
            assert(seq!['<'] + s.drop_first() =~= s);
        } else if c == '>' {
            let t = escape_text(s);
            assert(t =~= "&gt;"@ + rest);
            assert(t.len() >= 5 ==> t.subrange(0, 5)[1] == 'g');
            assert(!(t.len() >= 5 && t.subrange(0, 5) == "&amp;"@));
            assert(t.len() >= 4 ==> t.subrange(0, 4)[1] == 'g');
            assert(!(t.len() >= 4 && t.subrange(0, 4) == "&lt;"@));
            assert(t.subrange(0, 4) =~= "&gt;"@);
            assert(t.skip(4) =~= rest);
            assert(unescape_text(t) =~= seq!['>'] + unescape_text(rest));
            assert(seq!['>'] + s.drop_first() =~= s);
        } else {
            let t = escape_text(s);
            assert(t =~= seq![c] + rest);
            assert(t[0] == c);
            assert(t.len() >= 5 && t.subrange(0, 5) == "&amp;"@ ==> t[0] == '&') by {
                if t.len() >= 5 && t.subrange(0, 5) == "&amp;"@ {
                    assert(t.subrange(0, 5)[0] == t[0]);
                }
            }
            assert(t.len() >= 4 && t.subrange(0, 4) == "&lt;"@ ==> t[0] == '&') by {
                if t.len() >= 4 && t.subrange(0, 4) == "&lt;"@ {
                    assert(t.subrange(0, 4)[0] == t[0]);
                }
            }
            assert(t.len() >= 4 && t.subrange(0, 4) == "&gt;"@ ==> t[0] == '&') by {
                if t.len() >= 4 && t.subrange(0, 4) == "&gt;"@ {
                    assert(t.subrange(0, 4)[0] == t[0]);
                }
            }
            assert(t.drop_first() =~= rest);
            assert(unescape_text(t) =~= seq![c] + unescape_text(rest));
            assert(seq![c] + s.drop_first() =~= s);
        }
    }
}

/// One line of source text with `&`, `<` and `>` replaced by their
/// character-entity equivalents.
pub fn escape_line(line: &str) -> (r: String)
    ensures
        r@ == escape_text(line@),
{
    let n = line.unicode_len();
    let mut out = String::new();
    let mut start: usize = 0;
    let mut i: usize = 0;
    while i < n
        invariant
            n == line@.len(),
            start <= i <= n,
            out@ == escape_text(line@.subrange(0, start as int)),
            forall|j: int| start <= j < i ==> !needs_escape(line@[j]),
        decreases n - i,
    {
        let c = line.get_char(i);
        if c == '&' || c == '<' || c == '>' {
            let run = line.substring_char(start, i);
            out.append(run);
            proof {
                lemma_escape_noop(line@.subrange(start as int, i as int));
            }
            if c == '&' {
                out.append("&amp;");
            } else if c == '<' {
                out.append("&lt;");
            } else {
                out.append("&gt;");
            }
            proof {
                lemma_escape_concat(
                    line@.subrange(0, start as int),
                    line@.subrange(start as int, i as int),
                );
                assert(line@.subrange(0, start as int) + line@.subrange(start as int, i as int)
                    =~= line@.subrange(0, i as int));
                lemma_escape_concat(line@.subrange(0, i as int), seq![line@[i as int]]);
                assert(line@.subrange(0, i as int) + seq![line@[i as int]] =~= line@.subrange(
                    0,
                    i as int + 1,
                ));
                reveal_with_fuel(escape_text, 3);
                assert(seq![line@[i as int]].drop_first() =~= Seq::<char>::empty());
                assert(escape_text(seq![line@[i as int]]) =~= escape_char(line@[i as int]));
            }
            start = i + 1;
        }
        i = i + 1;
    }
    let run = line.substring_char(start, n);
    out.append(run);
    proof {
        lemma_escape_noop(line@.subrange(start as int, n as int));
        lemma_escape_concat(line@.subrange(0, start as int), line@.subrange(start as int, n as int));
        assert(line@.subrange(0, start as int) + line@.subrange(start as int, n as int) =~= line@);
    }
    out
}

} // verus!
