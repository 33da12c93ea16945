//! Character-level text primitives shared by the parsers: whitespace, trimming,
//! line and word splitting, substring search and decimal formatting, each
//! stated over `Seq<char>` and implemented over `Vec<char>`.
use vstd::prelude::*;

verus! {

// ---------------------------------------------------------------------------
// Specifications
// ---------------------------------------------------------------------------

/// The characters that `char::is_whitespace` accepts: those with the
/// Unicode `White_Space` property.
pub open spec fn is_ws(c: char) -> bool {
    ||| c == '\t' || c == '\n' || c == '\u{0B}' || c == '\u{0C}' || c == '\r'
    ||| c == ' ' || c == '\u{85}' || c == '\u{A0}' || c == '\u{1680}'
    ||| 0x2000 <= (c as int) && (c as int) <= 0x200A
    ||| c == '\u{2028}' || c == '\u{2029}' || c == '\u{202F}' || c == '\u{205F}'
    ||| c == '\u{3000}'
}

/// `s` without its leading whitespace.
pub open spec fn trim_start(s: Seq<char>) -> Seq<char>
    decreases s.len(),
{
    if s.len() > 0 && is_ws(s[0]) {
        trim_start(s.drop_first())
    } else {
        s
    }
}

/// `s` without its trailing whitespace.
pub open spec fn trim_end(s: Seq<char>) -> Seq<char>
    decreases s.len(),
{
    if s.len() > 0 && is_ws(s.last()) {
        trim_end(s.drop_last())
    } else {
        s
    }
}

/// `str::trim`: `s` without leading and trailing whitespace.
pub open spec fn trim(s: Seq<char>) -> Seq<char> {
    trim_end(trim_start(s))
}

/// A line that ended in "\r\n" loses its '\r'.
pub open spec fn strip_cr(l: Seq<char>) -> Seq<char> {
    if l.len() > 0 && l.last() == '\r' {
        l.drop_last()
    } else {
        l
    }
}

/// Reading `s` left to right: the lines completed by a '\n' so far, and the
/// characters of the line still open.
pub open spec fn line_state(s: Seq<char>) -> (Seq<Seq<char>>, Seq<char>)
    decreases s.len(),
{
    if s.len() == 0 {
        (Seq::empty(), Seq::empty())
    } else {
        let (done, cur) = line_state(s.drop_last());
        if s.last() == '\n' {
            (done.push(strip_cr(cur)), Seq::empty())
        } else {
            (done, cur.push(s.last()))
        }
    }
}

/// `str::lines`: lines end at "\n" or "\r\n"; a last line without a line
/// ending counts when it is not empty, and keeps any '\r' it ends in.
pub open spec fn lines(s: Seq<char>) -> Seq<Seq<char>> {
    let (done, cur) = line_state(s);
    if cur.len() == 0 {
        done
    } else {
        done.push(cur)
    }
}

/// Reading `s` left to right: the words completed so far and the word still open.
pub open spec fn word_state(s: Seq<char>) -> (Seq<Seq<char>>, Seq<char>)
    decreases s.len(),
{
    if s.len() == 0 {
        (Seq::empty(), Seq::empty())
    } else {
        let (done, cur) = word_state(s.drop_last());
        if is_ws(s.last()) {
            if cur.len() > 0 {
                (done.push(cur), Seq::empty())
            } else {
                (done, Seq::empty())
            }
        } else {
            (done, cur.push(s.last()))
        }
    }
}

/// `str::split_whitespace`: the maximal runs of non-whitespace characters.
pub open spec fn words(s: Seq<char>) -> Seq<Seq<char>> {
    let (done, cur) = word_state(s);
    if cur.len() > 0 {
        done.push(cur)
    } else {
        done
    }
}

/// Reading `s` left to right: the pieces ended by `sep` so far and the open piece.
pub open spec fn split_state(s: Seq<char>, sep: char) -> (Seq<Seq<char>>, Seq<char>)
    decreases s.len(),
{
    if s.len() == 0 {
        (Seq::empty(), Seq::empty())
    } else {
        let (done, cur) = split_state(s.drop_last(), sep);
        if s.last() == sep {
            (done.push(cur), Seq::empty())
        } else {
            (done, cur.push(s.last()))
        }
    }
}

/// `str::split` on one character: every piece between separators, empty ones included.
pub open spec fn split(s: Seq<char>, sep: char) -> Seq<Seq<char>> {
    let (done, cur) = split_state(s, sep);
    done.push(cur)
}

/// `p` occurs in `s` starting at index `i`.
pub open spec fn matches_at(s: Seq<char>, p: Seq<char>, i: int) -> bool {
    0 <= i && i + p.len() <= s.len() && s.subrange(i, i + p.len()) == p
}

/// `s` begins with `p`.
pub open spec fn starts_with(s: Seq<char>, p: Seq<char>) -> bool {
    matches_at(s, p, 0)
}

/// `s` ends with `p`.
pub open spec fn ends_with(s: Seq<char>, p: Seq<char>) -> bool {
    p.len() <= s.len() && s.subrange(s.len() - p.len(), s.len() as int) == p
}

/// The first index at or after `i` where `p` occurs in `s`.
pub open spec fn find_from(s: Seq<char>, p: Seq<char>, i: int) -> Option<int>
    decreases s.len() + 1 - i,
{
    if i < 0 || i + p.len() > s.len() {
        None
    } else if matches_at(s, p, i) {
        Some(i)
    } else {
        find_from(s, p, i + 1)
    }
}

/// The first index where `p` occurs in `s` (`str::find`).
pub open spec fn find(s: Seq<char>, p: Seq<char>) -> Option<int> {
    find_from(s, p, 0)
}

/// `p` occurs in `s`.
pub open spec fn contains(s: Seq<char>, p: Seq<char>) -> bool {
    find(s, p) is Some
}

/// The code of `c` after lowercasing, for comparison with lower-case ASCII
/// text: 'A'..='Z' become 'a'..='z', U+212A KELVIN SIGN becomes 'k' (the
/// only other character whose lowercase is an ASCII letter), and every other
/// character stays as it is.
pub open spec fn lower_code(c: char) -> int {
    if 65 <= (c as int) && (c as int) <= 90 {
        (c as int) + 32
    } else if (c as int) == 0x212A {
        107
    } else {
        c as int
    }
}

/// `s.to_lowercase()` begins with `p`, for a lower-case ASCII prefix `p`
/// that does not end in 'i'. Lowercasing maps each character to one
/// character (`lower_code` for those that can become ASCII), except U+0130,
/// which becomes 'i' followed by U+0307; a U+0307 never matches such a
/// prefix, so comparing character by character gives the same answer.
pub open spec fn starts_with_ci(s: Seq<char>, p: Seq<char>) -> bool {
    p.len() <= s.len() && forall|i: int| 0 <= i < p.len() ==> lower_code(#[trigger] s[i]) == p[i] as int
}

/// The decimal digit `d` as a character.
pub open spec fn digit(d: nat) -> char {
    (48 + d) as char
}

/// The decimal representation of `n`, as `Display` writes an unsigned integer.
pub open spec fn dec(n: nat) -> Seq<char>
    decreases n,
{
    if n < 10 {
        seq![digit(n)]
    } else {
        dec(n / 10).push(digit(n % 10))
    }
}

/// Lexicographic order of character sequences, by code point; for UTF-8 strings
/// this is the order in which `String`'s `Ord` sorts them.
pub open spec fn lex_lt(a: Seq<char>, b: Seq<char>) -> bool
    decreases a.len(),
{
    if a.len() == 0 {
        b.len() > 0
    } else if b.len() == 0 {
        false
    } else if a[0] == b[0] {
        lex_lt(a.drop_first(), b.drop_first())
    } else {
        (a[0] as int) < (b[0] as int)
    }
}

/// The views of a sequence of character vectors.
pub open spec fn vviews(v: Seq<Vec<char>>) -> Seq<Seq<char>> {
    v.map_values(|x: Vec<char>| x@)
}

/// The view of an optional string.
pub open spec fn opt_view(o: Option<String>) -> Option<Seq<char>> {
    match o {
        Some(s) => Some(s@),
        None => None,
    }
}

/// The views of a sequence of strings.
pub open spec fn sviews(v: Seq<String>) -> Seq<Seq<char>> {
    v.map_values(|x: String| x@)
}

// ---------------------------------------------------------------------------
// Lemmas
// ---------------------------------------------------------------------------

/// No sequence sorts before itself.
pub proof fn lemma_lex_lt_irreflexive(a: Seq<char>)
    ensures
        !lex_lt(a, a),
    decreases a.len(),
{
    if a.len() > 0 {
        lemma_lex_lt_irreflexive(a.drop_first());
    }
}

/// Of two different sequences, one sorts before the other.
pub proof fn lemma_lex_lt_total(a: Seq<char>, b: Seq<char>)
    ensures
        lex_lt(a, b) || lex_lt(b, a) || a == b,
    decreases a.len(),
{
    if a.len() > 0 && b.len() > 0 && a[0] == b[0] {
        lemma_lex_lt_total(a.drop_first(), b.drop_first());
        assert(lex_lt(a, b) == lex_lt(a.drop_first(), b.drop_first()));
        assert(lex_lt(b, a) == lex_lt(b.drop_first(), a.drop_first()));
        if a.drop_first() == b.drop_first() {
            assert(a =~= seq![a[0]] + a.drop_first());
            assert(b =~= seq![b[0]] + b.drop_first());
        }
    } else if a.len() == 0 && b.len() == 0 {
        assert(a =~= b);
    } else if a.len() > 0 && b.len() > 0 {
        assert((a[0] as int) != (b[0] as int));
    }
}

/// Sorting before is transitive.
pub proof fn lemma_lex_lt_transitive(a: Seq<char>, b: Seq<char>, c: Seq<char>)
    requires
        lex_lt(a, b),
        lex_lt(b, c),
    ensures
        lex_lt(a, c),
    decreases a.len(),
{
    if a.len() > 0 && b.len() > 0 && c.len() > 0 && a[0] == b[0] && b[0] == c[0] {
        lemma_lex_lt_transitive(a.drop_first(), b.drop_first(), c.drop_first());
    }
}

/// A found occurrence is an occurrence, at or after the start index.
pub proof fn lemma_find_from_some(s: Seq<char>, p: Seq<char>, i: int)
    ensures
        match find_from(s, p, i) {
            Some(k) => i <= k && matches_at(s, p, k),
            None => true,
        },
    decreases s.len() + 1 - i,
{
    if !(i < 0 || i + p.len() > s.len()) && !matches_at(s, p, i) {
        lemma_find_from_some(s, p, i + 1);
    }
}

/// Reading more text after a line break leaves the lines read before it.
proof fn lemma_line_state_concat(p: Seq<char>, o: Seq<char>)
    requires
        line_state(p).1.len() == 0,
    ensures
        line_state(p + o) == (line_state(p).0 + line_state(o).0, line_state(o).1),
    decreases o.len(),
{
    if o.len() == 0 {
        assert(p + o =~= p);
        assert(line_state(p).0 + Seq::<Seq<char>>::empty() =~= line_state(p).0);
        assert(line_state(p).1 =~= Seq::<char>::empty());
    } else {
        lemma_line_state_concat(p, o.drop_last());
        assert((p + o).drop_last() =~= p + o.drop_last());
        assert((p + o).last() == o.last());
        let (d, _c) = line_state(o.drop_last());
        let (dp, _cp) = line_state(p);
        if o.last() == '\n' {
            let (_d2, c2) = line_state(o.drop_last());
            assert(dp + d.push(strip_cr(c2)) =~= (dp + d).push(strip_cr(c2)));
        }
    }
}

/// A text made of whole lines, followed by more text, has the lines of the
/// first followed by the lines of the second.
pub proof fn lemma_lines_concat(p: Seq<char>, o: Seq<char>)
    requires
        p.len() > 0,
        p.last() == '\n',
    ensures
        lines(p + o) == lines(p) + lines(o),
{
    assert(p.drop_last().push(p.last()) =~= p);
    lemma_line_state_concat(p, o);
    let (dp, cp) = line_state(p);
    assert(cp.len() == 0);
    let (d, c) = line_state(o);
    if c.len() == 0 {
    } else {
        assert(dp + d.push(c) =~= (dp + d).push(c));
    }
}

// ---------------------------------------------------------------------------
// Executable primitives
// ---------------------------------------------------------------------------

/// `char::is_whitespace`.
pub fn is_whitespace(c: char) -> (r: bool)
    ensures
        r == is_ws(c),
{
    let n = c as u32;
    c == '\t' || c == '\n' || c == '\u{0B}' || c == '\u{0C}' || c == '\r' || c == ' '
        || c == '\u{85}' || c == '\u{A0}' || c == '\u{1680}' || (0x2000 <= n && n <= 0x200A)
        || c == '\u{2028}' || c == '\u{2029}' || c == '\u{202F}' || c == '\u{205F}'
        || c == '\u{3000}'
}

/// Calls `String::push`, which appends one character to the string.
#[verifier::external_body]
pub(crate) fn push_char(s: &mut String, c: char)
    ensures
        final(s)@ == old(s)@.push(c),
{
    s.push(c);
}

/// The characters of `s`, in order.
pub fn chars_of(s: &str) -> (r: Vec<char>)
    ensures
        r@ == s@,
{
    let mut r: Vec<char> = Vec::new();
    for c in it: s.chars()
        invariant
            r@ == it.seq().take(it.index() as int),
    {
        r.push(c);
    }
    r
}

/// The string made of `v[a..b]`.
pub fn string_of_range(v: &Vec<char>, a: usize, b: usize) -> (r: String)
    requires
        a <= b <= v@.len(),
    ensures
        r@ == v@.subrange(a as int, b as int),
{
    let mut r = String::new();
    let mut i = a;
    while i < b
        invariant
            a <= i <= b <= v@.len(),
            r@ == v@.subrange(a as int, i as int),
        decreases b - i,
    {
        push_char(&mut r, v[i]);
        i = i + 1;
        assert(r@ =~= v@.subrange(a as int, i as int));
    }
    r
}

/// The string made of the characters of `v`.
pub fn string_of(v: &Vec<char>) -> (r: String)
    ensures
        r@ == v@,
{
    let r = string_of_range(v, 0, v.len());
    assert(v@.subrange(0, v@.len() as int) =~= v@);
    r
}

/// The vector `v[a..b]`.
pub fn sub_vec(v: &Vec<char>, a: usize, b: usize) -> (r: Vec<char>)
    requires
        a <= b <= v@.len(),
    ensures
        r@ == v@.subrange(a as int, b as int),
{
    let mut r: Vec<char> = Vec::new();
    let mut i = a;
    while i < b
        invariant
            a <= i <= b <= v@.len(),
            r@ == v@.subrange(a as int, i as int),
        decreases b - i,
    {
        r.push(v[i]);
        i = i + 1;
        assert(r@ =~= v@.subrange(a as int, i as int));
    }
    r
}

/// An owned copy of `s`.
pub fn owned(s: &str) -> (r: String)
    ensures
        r@ == s@,
{
    let v = chars_of(s);
    string_of(&v)
}

/// Appends `t` to `s`.
pub fn push_all(s: &mut String, t: &str)
    ensures
        final(s)@ == old(s)@ + t@,
{
    let v = chars_of(t);
    let ghost s0 = s@;
    let mut i: usize = 0;
    while i < v.len()
        invariant
            i <= v@.len(),
            v@ == t@,
            s@ == s0 + v@.take(i as int),
        decreases v@.len() - i,
    {
        push_char(s, v[i]);
        i = i + 1;
        assert(s@ =~= s0 + v@.take(i as int));
    }
    assert(v@.take(v@.len() as int) =~= v@);
}

/// Whether `a` and `b` hold the same characters.
pub fn chars_eq(a: &Vec<char>, b: &Vec<char>) -> (r: bool)
    ensures
        r == (a@ == b@),
{
    if a.len() != b.len() {
        return false;
    }
    let mut i: usize = 0;
    while i < a.len()
        invariant
            a@.len() == b@.len(),
            i <= a@.len(),
            forall|j: int| 0 <= j < i ==> a@[j] == b@[j],
        decreases a@.len() - i,
    {
        if a[i] != b[i] {
            return false;
        }
        i = i + 1;
    }
    assert(a@ =~= b@);
    true
}

/// Whether the strings `a` and `b` are equal.
pub fn str_eq(a: &str, b: &str) -> (r: bool)
    ensures
        r == (a@ == b@),
{
    let va = chars_of(a);
    let vb = chars_of(b);
    chars_eq(&va, &vb)
}

/// The bounds `(a, b)` of `trim(v[lo..hi])` inside `v`.
pub fn trim_bounds(v: &Vec<char>, lo: usize, hi: usize) -> (r: (usize, usize))
    requires
        lo <= hi <= v@.len(),
    ensures
        lo <= r.0 <= r.1 <= hi,
        v@.subrange(r.0 as int, r.1 as int) == trim(v@.subrange(lo as int, hi as int)),
{
    let mut a = lo;
    while a < hi && is_whitespace(v[a])
        invariant
            lo <= a <= hi <= v@.len(),
            trim_start(v@.subrange(lo as int, hi as int)) == trim_start(
                v@.subrange(a as int, hi as int),
            ),
        decreases hi - a,
    {
        assert(v@.subrange(a as int, hi as int).drop_first() =~= v@.subrange(
            a + 1,
            hi as int,
        ));
        a = a + 1;
    }
    assert(trim_start(v@.subrange(a as int, hi as int)) == v@.subrange(a as int, hi as int));
    let mut b = hi;
    while b > a && is_whitespace(v[b - 1])
        invariant
            lo <= a <= b <= hi <= v@.len(),
            trim_end(v@.subrange(a as int, hi as int)) == trim_end(
                v@.subrange(a as int, b as int),
            ),
        decreases b - a,
    {
        assert(v@.subrange(a as int, b as int).drop_last() =~= v@.subrange(
            a as int,
            b - 1,
        ));
        b = b - 1;
    }
    (a, b)
}

/// `trim(v)` as a new vector.
pub fn trim_vec(v: &Vec<char>) -> (r: Vec<char>)
    ensures
        r@ == trim(v@),
{
    let (a, b) = trim_bounds(v, 0, v.len());
    assert(v@.subrange(0, v@.len() as int) =~= v@);
    sub_vec(v, a, b)
}

/// `str::trim`, as an owned string.
pub fn trim_str(s: &str) -> (r: String)
    ensures
        r@ == trim(s@),
{
    let v = chars_of(s);
    let t = trim_vec(&v);
    string_of(&t)
}

/// Whether `p` occurs in `v` at index `i`.
pub fn matches_at_exec(v: &Vec<char>, p: &Vec<char>, i: usize) -> (r: bool)
    ensures
        r == matches_at(v@, p@, i as int),
{
    if i > v.len() || p.len() > v.len() - i {
        return false;
    }
    let mut j: usize = 0;
    let n = v.len();
    while j < p.len()
        invariant
            n == v@.len(),
            i + p@.len() <= v@.len(),
            i <= v@.len(),
            j <= p@.len(),
            forall|k: int| 0 <= k < j ==> v@[i + k] == p@[k],
        decreases p@.len() - j,
    {
        assert(i + j < v@.len());
        let k: usize = i + j;
        if v[k] != p[j] {
            assert(v@.subrange(i as int, i + p@.len())[j as int] != p@[j as int]);
            return false;
        }
        j = j + 1;
    }
    assert(v@.subrange(i as int, i + p@.len()) =~= p@);
    true
}

/// Whether `v` begins with `p`.
pub fn starts_with_exec(v: &Vec<char>, p: &Vec<char>) -> (r: bool)
    ensures
        r == starts_with(v@, p@),
{
    matches_at_exec(v, p, 0)
}

/// Whether `v` ends with `p`.
pub fn ends_with_exec(v: &Vec<char>, p: &Vec<char>) -> (r: bool)
    ensures
        r == ends_with(v@, p@),
{
    if p.len() > v.len() {
        return false;
    }
    let r = matches_at_exec(v, p, v.len() - p.len());
    assert(v@.len() - p@.len() + p@.len() == v@.len());
    r
}

/// Whether `s` begins with the string `p`.
pub fn str_starts_with(v: &Vec<char>, p: &str) -> (r: bool)
    ensures
        r == starts_with(v@, p@),
{
    let pv = chars_of(p);
    starts_with_exec(v, &pv)
}

/// The first index at or after `from` where `p` occurs in `v`.
pub fn find_exec(v: &Vec<char>, p: &Vec<char>, from: usize) -> (r: Option<usize>)
    ensures
        match r {
            Some(k) => find_from(v@, p@, from as int) == Some(k as int),
            None => find_from(v@, p@, from as int) is None,
        },
{
    let mut i = from;
    while i <= v.len() && p.len() <= v.len() - i
        invariant
            from <= i,
            find_from(v@, p@, from as int) == find_from(v@, p@, i as int),
        decreases v@.len() + 1 - i,
    {
        if matches_at_exec(v, p, i) {
            return Some(i);
        }
        if p.len() == 0 {
            assert(v@.subrange(i as int, i as int) =~= p@);
        }
        i = i + 1;
    }
    None
}

/// Whether `p` occurs in `v`.
pub fn contains_exec(v: &Vec<char>, p: &str) -> (r: bool)
    ensures
        r == contains(v@, p@),
{
    let pv = chars_of(p);
    find_exec(v, &pv, 0).is_some()
}

/// Whether `c`, lowercased as `lower_code` says, is `t`.
pub fn lower_eq(c: char, t: char) -> (r: bool)
    ensures
        r == (lower_code(c) == t as int),
{
    if 'A' <= c && c <= 'Z' {
        (c as u32) + 32 == t as u32
    } else if c == '\u{212A}' {
        t == 'k'
    } else {
        c == t
    }
}

/// Whether `v.to_lowercase()` begins with the lower-case ASCII text `p` (see `starts_with_ci`).
pub fn starts_with_ci_exec(v: &Vec<char>, p: &str) -> (r: bool)
    ensures
        r == starts_with_ci(v@, p@),
{
    let pv = chars_of(p);
    if pv.len() > v.len() {
        return false;
    }
    let mut i: usize = 0;
    while i < pv.len()
        invariant
            pv@ == p@,
            pv@.len() <= v@.len(),
            i <= pv@.len(),
            forall|k: int| 0 <= k < i ==> lower_code(#[trigger] v@[k]) == pv@[k] as int,
        decreases pv@.len() - i,
    {
        if !lower_eq(v[i], pv[i]) {
            return false;
        }
        i = i + 1;
    }
    true
}

/// The digit character for `d < 10`.
pub fn digit_exec(d: u64) -> (c: char)
    requires
        d < 10,
    ensures
        c == digit(d as nat),
{
    let b: u8 = 48 + d as u8;
    b as char
}

/// Appends the decimal representation of `n` to `s`.
pub fn push_decimal(s: &mut String, n: u64)
    ensures
        final(s)@ == old(s)@ + dec(n as nat),
    decreases n,
{
    if n >= 10 {
        push_decimal(s, n / 10);
        push_char(s, digit_exec(n % 10));
        assert(dec(n as nat) == dec((n / 10) as nat).push(digit((n % 10) as nat)));
    } else {
        push_char(s, digit_exec(n));
    }
}

/// `n.to_string()` for an unsigned integer.
pub fn decimal(n: u64) -> (r: String)
    ensures
        r@ == dec(n as nat),
{
    let mut s = String::new();
    push_decimal(&mut s, n);
    assert(s@ =~= dec(n as nat));
    s
}

/// Whether `a` sorts before `b`.
pub fn lex_lt_exec(a: &Vec<char>, b: &Vec<char>) -> (r: bool)
    ensures
        r == lex_lt(a@, b@),
{
    let mut i: usize = 0;
    assert(a@.skip(0) =~= a@);
    assert(b@.skip(0) =~= b@);
    while i < a.len() && i < b.len() && a[i] == b[i]
        invariant
            i <= a@.len(),
            i <= b@.len(),
            lex_lt(a@, b@) == lex_lt(a@.skip(i as int), b@.skip(i as int)),
        decreases a@.len() - i,
    {
        assert(a@.skip(i as int).drop_first() =~= a@.skip(i + 1));
        assert(b@.skip(i as int).drop_first() =~= b@.skip(i + 1));
        i = i + 1;
    }
    if i == a.len() {
        i < b.len()
    } else if i == b.len() {
        false
    } else {
        a[i] < b[i]
    }
}

/// Splits `s` into its lines as `str::lines` does.
pub fn split_lines(s: &str) -> (r: Vec<Vec<char>>)
    ensures
        vviews(r@) == lines(s@),
{
    let v = chars_of(s);
    let mut done: Vec<Vec<char>> = Vec::new();
    let mut cur: Vec<char> = Vec::new();
    let mut i: usize = 0;
    while i < v.len()
        invariant
            i <= v@.len(),
            v@ == s@,
            (vviews(done@), cur@) == line_state(v@.take(i as int)),
        decreases v@.len() - i,
    {
        let c = v[i];
        assert(v@.take(i + 1).drop_last() =~= v@.take(i as int));
        if c == '\n' {
            if cur.len() > 0 && cur[cur.len() - 1] == '\r' {
                cur.pop();
            }
            let line = cur;
            let ghost old_done = done@;
            done.push(line);
            assert(vviews(done@) =~= vviews(old_done).push(line@));
            cur = Vec::new();
        } else {
            cur.push(c);
        }
        i = i + 1;
    }
    assert(v@.take(v@.len() as int) =~= v@);
    if cur.len() > 0 {
        let ghost old_done = done@;
        done.push(cur);
        assert(vviews(done@) =~= vviews(old_done).push(cur@));
    }
    done
}

/// Splits `v[lo..hi]` into its whitespace-separated words.
pub fn split_words(v: &Vec<char>, lo: usize, hi: usize) -> (r: Vec<Vec<char>>)
    requires
        lo <= hi <= v@.len(),
    ensures
        vviews(r@) == words(v@.subrange(lo as int, hi as int)),
{
    let ghost w = v@.subrange(lo as int, hi as int);
    let mut done: Vec<Vec<char>> = Vec::new();
    let mut cur: Vec<char> = Vec::new();
    let mut i: usize = lo;
    while i < hi
        invariant
            lo <= i <= hi <= v@.len(),
            w == v@.subrange(lo as int, hi as int),
            (vviews(done@), cur@) == word_state(w.take(i - lo)),
        decreases hi - i,
    {
        let c = v[i];
        assert(w.take(i + 1 - lo).drop_last() =~= w.take(i - lo));
        assert(w.take(i + 1 - lo).last() == c);
        if is_whitespace(c) {
            if cur.len() > 0 {
                let ghost old_done = done@;
                let word = cur;
                done.push(word);
                assert(vviews(done@) =~= vviews(old_done).push(word@));
                cur = Vec::new();
            } else {
                cur = Vec::new();
            }
        } else {
            cur.push(c);
        }
        i = i + 1;
    }
    assert(w.take(hi - lo) =~= w);
    if cur.len() > 0 {
        let ghost old_done = done@;
        done.push(cur);
        assert(vviews(done@) =~= vviews(old_done).push(cur@));
    }
    done
}

/// Splits `s` at every occurrence of `sep`, as `str::split` does.
pub fn split_on(s: &str, sep: char) -> (r: Vec<String>)
    ensures
        sviews(r@) == split(s@, sep),
{
    let v = chars_of(s);
    let mut done: Vec<String> = Vec::new();
    let mut cur: Vec<char> = Vec::new();
    let mut i: usize = 0;
    while i < v.len()
        invariant
            i <= v@.len(),
            v@ == s@,
            (sviews(done@), cur@) == split_state(v@.take(i as int), sep),
        decreases v@.len() - i,
    {
        let c = v[i];
        assert(v@.take(i + 1).drop_last() =~= v@.take(i as int));
        if c == sep {
            let piece = string_of(&cur);
            let ghost old_done = done@;
            done.push(piece);
            assert(sviews(done@) =~= sviews(old_done).push(piece@));
            cur = Vec::new();
        } else {
            cur.push(c);
        }
        i = i + 1;
    }
    assert(v@.take(v@.len() as int) =~= v@);
    let piece = string_of(&cur);
    let ghost old_done = done@;
    done.push(piece);
    assert(sviews(done@) =~= sviews(old_done).push(piece@));
    done
}

} // verus!
