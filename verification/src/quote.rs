//! Quoting text for the three script languages the app writes commands in: a
//! POSIX shell word, an AppleScript string literal and a PowerShell
//! single-quoted string literal. For each, the reading of the quoted text by
//! that language gives back exactly the text that was quoted.
use vstd::prelude::*;
use crate::text::{chars_of, push_char};

verus! {

/// `s` with every character `c` replaced by `f(c)`.
pub open spec fn expand(s: Seq<char>, f: spec_fn(char) -> Seq<char>) -> Seq<char>
    decreases s.len(),
{
    if s.len() == 0 {
        Seq::empty()
    } else {
        expand(s.drop_last(), f) + f(s.last())
    }
}

/// In a single-quoted shell word a quote is written `'\''`: close the quotes,
/// an escaped quote, reopen the quotes.
pub open spec fn sh_piece(c: char) -> Seq<char> {
    if c == '\'' {
        seq!['\'', '\\', '\'', '\'']
    } else {
        seq![c]
    }
}

/// Inside AppleScript double quotes, '\' and '"' are escaped with a '\'.
pub open spec fn apple_piece(c: char) -> Seq<char> {
    if c == '\\' {
        seq!['\\', '\\']
    } else if c == '"' {
        seq!['\\', '"']
    } else {
        seq![c]
    }
}

/// Inside PowerShell single quotes, a quote is written twice.
pub open spec fn ps_piece(c: char) -> Seq<char> {
    if c == '\'' {
        seq!['\'', '\'']
    } else {
        seq![c]
    }
}

/// `value` as a single-quoted POSIX shell word.
pub open spec fn sh_quoted(v: Seq<char>) -> Seq<char> {
    seq!['\''] + expand(v, |c: char| sh_piece(c)) + seq!['\'']
}

/// `value` as an AppleScript string literal.
pub open spec fn apple_quoted(v: Seq<char>) -> Seq<char> {
    seq!['"'] + expand(v, |c: char| apple_piece(c)) + seq!['"']
}

/// `value` as a PowerShell single-quoted string literal.
pub open spec fn ps_quoted(v: Seq<char>) -> Seq<char> {
    seq!['\''] + expand(v, |c: char| ps_piece(c)) + seq!['\'']
}

// ---------------------------------------------------------------------------
// How each language reads the quoted text
// ---------------------------------------------------------------------------

/// The index of the first `'` in `w` at or after `i`.
pub open spec fn next_quote(w: Seq<char>, i: int) -> Option<int>
    decreases w.len() - i,
{
    if i < 0 || i >= w.len() {
        None
    } else if w[i] == '\'' {
        Some(i)
    } else {
        next_quote(w, i + 1)
    }
}

/// The quote found from `i` is the first quote at or after `i`.
pub proof fn lemma_next_quote(w: Seq<char>, i: int)
    ensures
        match next_quote(w, i) {
            Some(j) => 0 <= i <= j < w.len() && w[j] == '\'' && forall|k: int|
                i <= k < j ==> w[k] != '\'',
            None => forall|k: int| 0 <= i <= k < w.len() ==> w[k] != '\'',
        },
    decreases w.len() - i,
{
    if !(i < 0 || i >= w.len()) && w[i] != '\'' {
        lemma_next_quote(w, i + 1);
    }
}

/// The value of a POSIX shell word made of single-quoted parts (taken as they
/// are up to the closing quote), backslash-escaped characters and plain
/// characters; `None` when a quote is left open or a backslash ends the word.
pub open spec fn sh_word_value(w: Seq<char>) -> Option<Seq<char>>
    decreases w.len(),
{
    if w.len() == 0 {
        Some(Seq::empty())
    } else if w[0] == '\'' {
        proof {
            lemma_next_quote(w, 1);
        }
        match next_quote(w, 1) {
            Some(j) => match sh_word_value(w.skip(j + 1)) {
                Some(r) => Some(w.subrange(1, j) + r),
                None => None,
            },
            None => None,
        }
    } else if w[0] == '\\' {
        if w.len() >= 2 {
            match sh_word_value(w.skip(2)) {
                Some(r) => Some(seq![w[1]] + r),
                None => None,
            }
        } else {
            None
        }
    } else {
        match sh_word_value(w.drop_first()) {
            Some(r) => Some(seq![w[0]] + r),
            None => None,
        }
    }
}

/// The characters between the quotes of an AppleScript string literal: a
/// backslash takes the next character as it is; a bare '"' cannot occur.
pub open spec fn apple_body_value(t: Seq<char>) -> Option<Seq<char>>
    decreases t.len(),
{
    if t.len() == 0 {
        Some(Seq::empty())
    } else if t[0] == '"' {
        None
    } else if t[0] == '\\' {
        if t.len() >= 2 {
            match apple_body_value(t.skip(2)) {
                Some(r) => Some(seq![t[1]] + r),
                None => None,
            }
        } else {
            None
        }
    } else {
        match apple_body_value(t.drop_first()) {
            Some(r) => Some(seq![t[0]] + r),
            None => None,
        }
    }
}

/// The value of an AppleScript string literal.
pub open spec fn apple_literal_value(s: Seq<char>) -> Option<Seq<char>> {
    if s.len() >= 2 && s[0] == '"' && s.last() == '"' {
        apple_body_value(s.subrange(1, s.len() - 1))
    } else {
        None
    }
}

/// The characters between the quotes of a PowerShell single-quoted string: a
/// doubled quote stands for one quote; a single quote cannot occur.
pub open spec fn ps_body_value(t: Seq<char>) -> Option<Seq<char>>
    decreases t.len(),
{
    if t.len() == 0 {
        Some(Seq::empty())
    } else if t[0] == '\'' {
        if t.len() >= 2 && t[1] == '\'' {
            match ps_body_value(t.skip(2)) {
                Some(r) => Some(seq!['\''] + r),
                None => None,
            }
        } else {
            None
        }
    } else {
        match ps_body_value(t.drop_first()) {
            Some(r) => Some(seq![t[0]] + r),
            None => None,
        }
    }
}

/// The value of a PowerShell single-quoted string literal.
pub open spec fn ps_literal_value(s: Seq<char>) -> Option<Seq<char>> {
    if s.len() >= 2 && s[0] == '\'' && s.last() == '\'' {
        ps_body_value(s.subrange(1, s.len() - 1))
    } else {
        None
    }
}

// ---------------------------------------------------------------------------
// Lemmas and laws
// ---------------------------------------------------------------------------

/// Expanding a concatenation expands each part.
pub proof fn lemma_expand_concat(a: Seq<char>, b: Seq<char>, f: spec_fn(char) -> Seq<char>)
    ensures
        expand(a + b, f) == expand(a, f) + expand(b, f),
    decreases b.len(),
{
    if b.len() == 0 {
        assert(a + b =~= a);
        assert(expand(a, f) + expand(b, f) =~= expand(a, f));
    } else {
        lemma_expand_concat(a, b.drop_last(), f);
        assert((a + b).drop_last() =~= a + b.drop_last());
        assert(expand(a, f) + expand(b, f) =~= expand(a, f) + expand(b.drop_last(), f) + f(
            b.last(),
        ));
    }
}

/// Expanding `c` followed by `t`.
pub proof fn lemma_expand_cons(c: char, t: Seq<char>, f: spec_fn(char) -> Seq<char>)
    ensures
        expand(seq![c] + t, f) == f(c) + expand(t, f),
{
    lemma_expand_concat(seq![c], t, f);
    assert(seq![c].drop_last() =~= Seq::<char>::empty());
    assert(expand(Seq::<char>::empty(), f) =~= Seq::<char>::empty());
    assert(expand(seq![c], f) =~= f(c));
}

/// Characterises the first quote at or after `i` by its properties.
pub proof fn lemma_next_quote_is(w: Seq<char>, i: int, j: int)
    requires
        0 <= i <= j < w.len(),
        w[j] == '\'',
        forall|k: int| i <= k < j ==> w[k] != '\'',
    ensures
        next_quote(w, i) == Some(j),
    decreases j - i,
{
    if i < j {
        lemma_next_quote_is(w, i + 1, j);
    }
}

/// Text without quotes expands to itself in a shell word.
proof fn lemma_sh_expand_plain(v: Seq<char>)
    requires
        forall|k: int| 0 <= k < v.len() ==> v[k] != '\'',
    ensures
        expand(v, |c: char| sh_piece(c)) == v,
    decreases v.len(),
{
    if v.len() > 0 {
        lemma_sh_expand_plain(v.drop_last());
        assert(expand(v, |c: char| sh_piece(c)) =~= v);
    }
}

/// The shell reading of `shell_quote(v)` is `v`.
pub proof fn law_shell_quote_round_trip(v: Seq<char>)
    ensures
        sh_word_value(sh_quoted(v)) == Some(v),
    decreases v.len(),
{
    let f = |c: char| sh_piece(c);
    let w = sh_quoted(v);
    lemma_next_quote(v, 0);
    match next_quote(v, 0) {
        None => {
            lemma_sh_expand_plain(v);
            assert(w =~= seq!['\''] + v + seq!['\'']);
            lemma_next_quote_is(w, 1, v.len() as int + 1);
            assert(w.skip(v.len() as int + 2) =~= Seq::<char>::empty());
            assert(w.subrange(1, v.len() as int + 1) =~= v);
            assert(v + Seq::<char>::empty() =~= v);
            assert(w[0] == '\'');
            assert(sh_word_value(w.skip(v.len() as int + 2)) == Some(Seq::<char>::empty()));
            assert(sh_word_value(w) == Some(w.subrange(1, v.len() as int + 1) + Seq::<char>::empty()));
        },
        Some(p) => {
            let u = v.take(p);
            let rest = v.skip(p + 1);
            assert(v =~= u + (seq!['\''] + rest));
            lemma_expand_concat(u, seq!['\''] + rest, f);
            lemma_expand_cons('\'', rest, f);
            lemma_sh_expand_plain(u);
            let er = expand(rest, f);
            assert(w =~= seq!['\''] + u + seq!['\'', '\\', '\'', '\''] + er + seq!['\'']);
            lemma_next_quote_is(w, 1, p + 1);
            let w2 = w.skip(p + 2);
            assert(w2 =~= seq!['\\', '\''] + sh_quoted(rest));
            assert(w2.skip(2) =~= sh_quoted(rest));
            law_shell_quote_round_trip(rest);
            assert(w.subrange(1, p + 1) =~= u);
            assert(u + (seq![w2[1]] + rest) =~= v);
            assert(w2[0] == '\\' && w2.len() >= 2);
            assert(sh_word_value(w2) == Some(seq![w2[1]] + rest));
            assert(w[0] == '\'');
            assert(sh_word_value(w) == Some(w.subrange(1, p + 1) + (seq![w2[1]] + rest)));
        },
    }
}

/// PowerShell reads back the body that quoting wrote.
proof fn lemma_ps_body(v: Seq<char>)
    ensures
        ps_body_value(expand(v, |c: char| ps_piece(c))) == Some(v),
    decreases v.len(),
{
    let f = |c: char| ps_piece(c);
    if v.len() > 0 {
        let c = v[0];
        let rest = v.drop_first();
        assert(v =~= seq![c] + rest);
        lemma_expand_cons(c, rest, f);
        lemma_ps_body(rest);
        let t = expand(v, f);
        if c == '\'' {
            assert(t.skip(2) =~= expand(rest, f));
        } else {
            assert(t.drop_first() =~= expand(rest, f));
        }
        assert(seq![c] + rest =~= v);
    } else {
        assert(expand(v, f) =~= Seq::<char>::empty());
    }
}

/// The PowerShell reading of `ps_quote(v)` is `v`.
pub proof fn law_ps_quote_round_trip(v: Seq<char>)
    ensures
        ps_literal_value(ps_quoted(v)) == Some(v),
{
    let q = ps_quoted(v);
    let body = expand(v, |c: char| ps_piece(c));
    assert(q.subrange(1, q.len() - 1) =~= body);
    lemma_ps_body(v);
}

/// AppleScript reads back the body that quoting wrote.
proof fn lemma_apple_body(v: Seq<char>)
    ensures
        apple_body_value(expand(v, |c: char| apple_piece(c))) == Some(v),
    decreases v.len(),
{
    let f = |c: char| apple_piece(c);
    if v.len() > 0 {
        let c = v[0];
        let rest = v.drop_first();
        assert(v =~= seq![c] + rest);
        lemma_expand_cons(c, rest, f);
        lemma_apple_body(rest);
        let t = expand(v, f);
        if c == '\\' || c == '"' {
            assert(t.skip(2) =~= expand(rest, f));
        } else {
            assert(t.drop_first() =~= expand(rest, f));
        }
        assert(seq![c] + rest =~= v);
    } else {
        assert(expand(v, f) =~= Seq::<char>::empty());
    }
}

/// The AppleScript reading of `applescript_string_literal(v)` is `v`.
pub proof fn law_apple_quote_round_trip(v: Seq<char>)
    ensures
        apple_literal_value(apple_quoted(v)) == Some(v),
{
    let q = apple_quoted(v);
    let body = expand(v, |c: char| apple_piece(c));
    assert(q.subrange(1, q.len() - 1) =~= body);
    lemma_apple_body(v);
}

// ---------------------------------------------------------------------------
// Executable quoting
// ---------------------------------------------------------------------------

/// Quote a value as a single-quoted POSIX shell word.
pub fn shell_quote(value: &str) -> (r: String)
    ensures
        r@ == sh_quoted(value@),
{
    let v = chars_of(value);
    let mut r = String::new();
    push_char(&mut r, '\'');
    let ghost f = |c: char| sh_piece(c);
    let mut i: usize = 0;
    while i < v.len()
        invariant
            i <= v@.len(),
            r@ == seq!['\''] + expand(v@.take(i as int), f),
            f == (|c: char| sh_piece(c)),
        decreases v@.len() - i,
    {
        let c = v[i];
        assert(v@.take(i + 1).drop_last() =~= v@.take(i as int));
        if c == '\'' {
            push_char(&mut r, '\'');
            push_char(&mut r, '\\');
            push_char(&mut r, '\'');
            push_char(&mut r, '\'');
        } else {
            push_char(&mut r, c);
        }
        i = i + 1;
        assert(r@ =~= seq!['\''] + expand(v@.take(i as int), f));
    }
    push_char(&mut r, '\'');
    assert(v@.take(v@.len() as int) =~= v@);
    assert(r@ =~= sh_quoted(value@));
    r
}

/// Quote a value as an AppleScript string literal.
pub fn applescript_string_literal(value: &str) -> (r: String)
    ensures
        r@ == apple_quoted(value@),
{
    let v = chars_of(value);
    let mut r = String::new();
    push_char(&mut r, '"');
    let ghost f = |c: char| apple_piece(c);
    let mut i: usize = 0;
    while i < v.len()
        invariant
            i <= v@.len(),
            r@ == seq!['"'] + expand(v@.take(i as int), f),
            f == (|c: char| apple_piece(c)),
        decreases v@.len() - i,
    {
        let c = v[i];
        assert(v@.take(i + 1).drop_last() =~= v@.take(i as int));
        if c == '\\' {
            push_char(&mut r, '\\');
            push_char(&mut r, '\\');
        } else if c == '"' {
            push_char(&mut r, '\\');
            push_char(&mut r, '"');
        } else {
            push_char(&mut r, c);
        }
        i = i + 1;
        assert(r@ =~= seq!['"'] + expand(v@.take(i as int), f));
    }
    push_char(&mut r, '"');
    assert(v@.take(v@.len() as int) =~= v@);
    assert(r@ =~= apple_quoted(value@));
    r
}

/// Escape a value for use as a PowerShell single-quoted string literal.
pub fn ps_quote(value: &str) -> (r: String)
    ensures
        r@ == ps_quoted(value@),
{
    let v = chars_of(value);
    let mut r = String::new();
    push_char(&mut r, '\'');
    let ghost f = |c: char| ps_piece(c);
    let mut i: usize = 0;
    while i < v.len()
        invariant
            i <= v@.len(),
            r@ == seq!['\''] + expand(v@.take(i as int), f),
            f == (|c: char| ps_piece(c)),
        decreases v@.len() - i,
    {
        let c = v[i];
        assert(v@.take(i + 1).drop_last() =~= v@.take(i as int));
        if c == '\'' {
            push_char(&mut r, '\'');
            push_char(&mut r, '\'');
        } else {
            push_char(&mut r, c);
        }
        i = i + 1;
        assert(r@ =~= seq!['\''] + expand(v@.take(i as int), f));
    }
    push_char(&mut r, '\'');
    assert(v@.take(v@.len() as int) =~= v@);
    assert(r@ =~= ps_quoted(value@));
    r
}

} // verus!
