use vstd::prelude::*;
use vstd::string::StrSliceExecFns;

use crate::errors::ExtractError;

verus! {

// The snippet parser recovers identifiers from small fragments of source
// text embedded in diagnostics. It accepts only a narrow grammar — a single
// simple `let` binding, and a reference-taking expression over a bare
// identifier path — and rejects anything outside that subset rather than
// guessing.

pub open spec fn is_space(c: char) -> bool {
    c == ' ' || c == '\t' || c == '\n' || c == '\r'
}

pub open spec fn is_ident_start(c: char) -> bool {
    ('a' <= c && c <= 'z') || ('A' <= c && c <= 'Z') || c == '_'
}

pub open spec fn is_ident_char(c: char) -> bool {
    is_ident_start(c) || ('0' <= c && c <= '9')
}

/// First index at or after `i` holding a non-whitespace character
/// (or the end of the text).
pub open spec fn skip_ws_from(s: Seq<char>, i: int) -> int
    decreases s.len() - i,
{
    if i < 0 || i >= s.len() {
        i
    } else if is_space(s[i]) {
        skip_ws_from(s, i + 1)
    } else {
        i
    }
}

/// First index at or after `i` holding a non-identifier character
/// (or the end of the text).
pub open spec fn ident_end_from(s: Seq<char>, i: int) -> int
    decreases s.len() - i,
{
    if i < 0 || i >= s.len() {
        i
    } else if is_ident_char(s[i]) {
        ident_end_from(s, i + 1)
    } else {
        i
    }
}

/// Index of the last non-whitespace character of `s`, or -1 if there is none.
pub open spec fn last_non_ws(s: Seq<char>) -> int
    decreases s.len(),
{
    if s.len() == 0 {
        -1
    } else if is_space(s[s.len() - 1]) {
        last_non_ws(s.drop_last())
    } else {
        s.len() - 1
    }
}

pub proof fn lemma_ident_end_bounds(s: Seq<char>, i: int)
    ensures
        i <= ident_end_from(s, i),
        0 <= i <= s.len() ==> ident_end_from(s, i) <= s.len(),
    decreases s.len() - i,
{
    if i < 0 || i >= s.len() {
    } else if is_ident_char(s[i]) {
        lemma_ident_end_bounds(s, i + 1);
    }
}

/// End of a path that continues with zero or more `::`-separated identifier
/// segments, starting right after a segment that ends at `i`.
pub open spec fn path_end(s: Seq<char>, i: int) -> int
    decreases s.len() - i,
{
    if i >= 0 && i + 2 < s.len() && s[i] == ':' && s[i + 1] == ':' && is_ident_start(s[i + 2]) {
        proof {
            lemma_ident_end_bounds(s, i + 2);
        }
        path_end(s, ident_end_from(s, i + 2))
    } else {
        i
    }
}

/// Whether `s` holds the keyword `let` at index `i`, delimited by
/// whitespace on its right.
pub open spec fn let_kw_at(s: Seq<char>, i: int) -> bool {
    i + 4 <= s.len() && s[i] == 'l' && s[i + 1] == 'e' && s[i + 2] == 't' && is_space(s[i + 3])
}

/// Whether `s` holds the keyword `mut` at index `i`, delimited by
/// whitespace on its right.
pub open spec fn mut_kw_at(s: Seq<char>, i: int) -> bool {
    i + 4 <= s.len() && s[i] == 'm' && s[i + 1] == 'u' && s[i + 2] == 't' && is_space(s[i + 3])
}

/// The name bound by a single simple binding statement of the shape
/// `let <name> = <init-expr>;` (with an optional `mut` before the name),
/// or `None` if the text is not of that shape. The initializer itself is
/// not inspected beyond being non-empty.
pub open spec fn binding_name(s: Seq<char>) -> Option<Seq<char>> {
    let i0 = skip_ws_from(s, 0);
    if !let_kw_at(s, i0) {
        None
    } else {
        let i1 = skip_ws_from(s, i0 + 3);
        let i2 = if mut_kw_at(s, i1) {
            skip_ws_from(s, i1 + 3)
        } else {
            i1
        };
        if !(i2 < s.len() && is_ident_start(s[i2])) {
            None
        } else {
            let ie = ident_end_from(s, i2);
            let i3 = skip_ws_from(s, ie);
            if !(i3 < s.len() && s[i3] == '=') {
                None
            } else {
                let k = last_non_ws(s);
                if k >= 0 && s[k] == ';' && skip_ws_from(s, i3 + 1) < k {
                    Some(s.subrange(i2, ie))
                } else {
                    None
                }
            }
        }
    }
}

/// Whether the identifier segment `s[i..e]` is exactly the keyword `mut`.
pub open spec fn seg_is_mut(s: Seq<char>, i: int, e: int) -> bool {
    e - i == 3 && s[i] == 'm' && s[i + 1] == 'u' && s[i + 2] == 't'
}

/// The leading path segment of a reference-taking expression `&path` or
/// `&mut path`, where `path` is a bare identifier path (`::`-separated
/// segments, no field or index access, no call). Not a reference
/// expression at all: `NotAReference`. A reference to anything but a bare
/// identifier path: `NotASimplePath`.
pub open spec fn borrow_target(s: Seq<char>) -> Result<Seq<char>, ExtractError> {
    let i0 = skip_ws_from(s, 0);
    if !(i0 < s.len() && s[i0] == '&') {
        Err(ExtractError::NotAReference)
    } else {
        let i1 = skip_ws_from(s, i0 + 1);
        let i2 = if mut_kw_at(s, i1) {
            skip_ws_from(s, i1 + 3)
        } else {
            i1
        };
        if !(i2 < s.len() && is_ident_start(s[i2])) {
            Err(ExtractError::NotASimplePath)
        } else {
            let ie = ident_end_from(s, i2);
            if seg_is_mut(s, i2, ie) {
                Err(ExtractError::NotASimplePath)
            } else if skip_ws_from(s, path_end(s, ie)) == s.len() {
                Ok(s.subrange(i2, ie))
            } else {
                Err(ExtractError::NotASimplePath)
            }
        }
    }
}

fn is_space_c(c: char) -> (r: bool)
    ensures
        r == is_space(c),
{
    c == ' ' || c == '\t' || c == '\n' || c == '\r'
}

fn is_ident_start_c(c: char) -> (r: bool)
    ensures
        r == is_ident_start(c),
{
    ('a' <= c && c <= 'z') || ('A' <= c && c <= 'Z') || c == '_'
}

fn is_ident_char_c(c: char) -> (r: bool)
    ensures
        r == is_ident_char(c),
{
    is_ident_start_c(c) || ('0' <= c && c <= '9')
}

fn skip_ws(s: &str, from: usize, n: usize) -> (r: usize)
    requires
        n == s@.len(),
        from <= n,
    ensures
        r as int == skip_ws_from(s@, from as int),
        from <= r <= n,
{
    let mut i: usize = from;
    while i < n && is_space_c(s.get_char(i))
        invariant
            n == s@.len(),
            from <= i <= n,
            skip_ws_from(s@, from as int) == skip_ws_from(s@, i as int),
        decreases n - i,
    {
        i = i + 1;
    }
    i
}

fn ident_end(s: &str, from: usize, n: usize) -> (r: usize)
    requires
        n == s@.len(),
        from <= n,
    ensures
        r as int == ident_end_from(s@, from as int),
        from <= r <= n,
{
    let mut i: usize = from;
    while i < n && is_ident_char_c(s.get_char(i))
        invariant
            n == s@.len(),
            from <= i <= n,
            ident_end_from(s@, from as int) == ident_end_from(s@, i as int),
        decreases n - i,
    {
        i = i + 1;
    }
    i
}

fn find_last_non_ws(s: &str, n: usize) -> (r: Option<usize>)
    requires
        n == s@.len(),
    ensures
        match r {
            Some(k) => k as int == last_non_ws(s@) && k < n,
            None => last_non_ws(s@) == -1,
        },
{
    proof {
        assert(s@.subrange(0, n as int) =~= s@);
    }
    let mut i: usize = n;
    while i > 0
        invariant
            n == s@.len(),
            i <= n,
            last_non_ws(s@) == last_non_ws(s@.subrange(0, i as int)),
        decreases i,
    {
        if !is_space_c(s.get_char(i - 1)) {
            proof {
                assert(s@.subrange(0, i as int)[i - 1] == s@[i - 1]);
            }
            return Some(i - 1);
        }
        proof {
            assert(s@.subrange(0, i as int).drop_last() =~= s@.subrange(0, i - 1));
            assert(s@.subrange(0, i as int)[i - 1] == s@[i - 1]);
        }
        i = i - 1;
    }
    proof {
        assert(s@.subrange(0, 0) =~= Seq::<char>::empty());
    }
    None
}

fn path_end_exec(s: &str, from: usize, n: usize) -> (r: usize)
    requires
        n == s@.len(),
        from <= n,
    ensures
        r as int == path_end(s@, from as int),
        r <= n,
{
    let mut i: usize = from;
    loop
        invariant
            n == s@.len(),
            i <= n,
            path_end(s@, from as int) == path_end(s@, i as int),
        decreases n - i,
    {
        if n - i > 2 && s.get_char(i) == ':' && s.get_char(i + 1) == ':' && is_ident_start_c(
            s.get_char(i + 2),
        ) {
            let e = ident_end(s, i + 2, n);
            proof {
                lemma_ident_end_bounds(s@, i + 2);
            }
            i = e;
        } else {
            return i;
        }
    }
}

/// Parses `text` as a single binding statement `let <name> = <init-expr>;`
/// and returns `<name>`. Anything but a binding of a single simple name is
/// rejected with `UnsupportedBindingPattern`.
pub fn parse_binding(text: &str) -> (r: Result<String, ExtractError>)
    ensures
        match r {
            Ok(name) => binding_name(text@) == Some(name@),
            Err(e) => binding_name(text@) is None && e matches ExtractError::UnsupportedBindingPattern,
        },
{
    let n = text.unicode_len();
    let i0 = skip_ws(text, 0, n);
    let has_let = n - i0 >= 4 && text.get_char(i0) == 'l' && text.get_char(i0 + 1) == 'e'
        && text.get_char(i0 + 2) == 't' && is_space_c(text.get_char(i0 + 3));
    if !has_let {
        return Err(ExtractError::UnsupportedBindingPattern);
    }
    let i1 = skip_ws(text, i0 + 3, n);
    let has_mut = n - i1 >= 4 && text.get_char(i1) == 'm' && text.get_char(i1 + 1) == 'u'
        && text.get_char(i1 + 2) == 't' && is_space_c(text.get_char(i1 + 3));
    let i2 = if has_mut {
        skip_ws(text, i1 + 3, n)
    } else {
        i1
    };
    if !(i2 < n && is_ident_start_c(text.get_char(i2))) {
        return Err(ExtractError::UnsupportedBindingPattern);
    }
    let ie = ident_end(text, i2, n);
    let i3 = skip_ws(text, ie, n);
    if !(i3 < n && text.get_char(i3) == '=') {
        return Err(ExtractError::UnsupportedBindingPattern);
    }
    let k_opt = find_last_non_ws(text, n);
    match k_opt {
        Some(k) => {
            if text.get_char(k) == ';' && skip_ws(text, i3 + 1, n) < k {
                let name = text.substring_char(i2, ie);
                Ok(name.to_owned())
            } else {
                Err(ExtractError::UnsupportedBindingPattern)
            }
        },
        None => Err(ExtractError::UnsupportedBindingPattern),
    }
}

/// Parses `text` as a reference-taking expression `&x` or `&mut x` over a
/// bare identifier path and returns the leading path segment of the
/// referenced identifier.
pub fn parse_borrow_target(text: &str) -> (r: Result<String, ExtractError>)
    ensures
        match r {
            Ok(name) => borrow_target(text@) == Ok::<Seq<char>, ExtractError>(name@),
            Err(e) => borrow_target(text@) == Err::<Seq<char>, ExtractError>(e),
        },
{
    let n = text.unicode_len();
    let i0 = skip_ws(text, 0, n);
    if !(i0 < n && text.get_char(i0) == '&') {
        return Err(ExtractError::NotAReference);
    }
    let i1 = skip_ws(text, i0 + 1, n);
    let has_mut = n - i1 >= 4 && text.get_char(i1) == 'm' && text.get_char(i1 + 1) == 'u'
        && text.get_char(i1 + 2) == 't' && is_space_c(text.get_char(i1 + 3));
    let i2 = if has_mut {
        skip_ws(text, i1 + 3, n)
    } else {
        i1
    };
    if !(i2 < n && is_ident_start_c(text.get_char(i2))) {
        return Err(ExtractError::NotASimplePath);
    }
    let ie = ident_end(text, i2, n);
    if ie - i2 == 3 && text.get_char(i2) == 'm' && text.get_char(i2 + 1) == 'u' && text.get_char(
        i2 + 2,
    ) == 't' {
        return Err(ExtractError::NotASimplePath);
    }
    let pe = path_end_exec(text, ie, n);
    if skip_ws(text, pe, n) == n {
        let name = text.substring_char(i2, ie);
        Ok(name.to_owned())
    } else {
        Err(ExtractError::NotASimplePath)
    }
}

} // verus!
