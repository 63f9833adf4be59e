//! Sequences of characters: the model every grammar in this crate is stated
//! over, and the executable helpers that work on it.

use vstd::prelude::*;
use vstd::slice::slice_subrange;

verus! {

/// The first position at or after `from` where `c` stands in `s`, or the
/// length of `s` where it stands nowhere.
pub open spec fn find_from(s: Seq<char>, c: char, from: int) -> int
    decreases s.len() - from,
{
    if from < 0 || from >= s.len() {
        s.len() as int
    } else if s[from] == c {
        from
    } else {
        find_from(s, c, from + 1)
    }
}

/// The first position of `c` in `s`, or the length of `s`.
pub open spec fn find(s: Seq<char>, c: char) -> int {
    find_from(s, c, 0)
}

/// `c` stands nowhere in `s`.
pub open spec fn lacks(s: Seq<char>, c: char) -> bool {
    forall|i: int| 0 <= i < s.len() ==> s[i] != c
}

/// `s` begins with `p`.
pub open spec fn starts_with(s: Seq<char>, p: Seq<char>) -> bool {
    p.len() <= s.len() && s.take(p.len() as int) == p
}

/// `s` ends with `p`.
pub open spec fn ends_with(s: Seq<char>, p: Seq<char>) -> bool {
    p.len() <= s.len() && s.skip(s.len() - p.len()) == p
}

/// What follows the prefix `p` in `s`, where `s` begins with it.
pub open spec fn after_prefix(s: Seq<char>, p: Seq<char>) -> Option<Seq<char>> {
    if starts_with(s, p) {
        Some(s.skip(p.len() as int))
    } else {
        None
    }
}

/// The pieces of `s` between occurrences of `c`. There is always at least
/// one piece, and no piece holds `c`.
pub open spec fn split(s: Seq<char>, c: char) -> Seq<Seq<char>>
    decreases s.len(),
    via split_decreases
{
    let i = find(s, c);
    if i >= s.len() {
        seq![s]
    } else {
        seq![s.take(i)] + split(s.skip(i + 1), c)
    }
}

#[via_fn]
proof fn split_decreases(s: Seq<char>, c: char) {
    lemma_find_from(s, c, 0);
}

/// The pieces joined again, with `c` between neighbours.
pub open spec fn join(parts: Seq<Seq<char>>, c: char) -> Seq<char>
    decreases parts.len(),
{
    if parts.len() == 0 {
        Seq::<char>::empty()
    } else if parts.len() == 1 {
        parts[0]
    } else {
        parts[0] + seq![c] + join(parts.skip(1), c)
    }
}

/// The character that writes the digit `d`.
pub open spec fn digit(d: int) -> char {
    if d == 0 {
        '0'
    } else if d == 1 {
        '1'
    } else if d == 2 {
        '2'
    } else if d == 3 {
        '3'
    } else if d == 4 {
        '4'
    } else if d == 5 {
        '5'
    } else if d == 6 {
        '6'
    } else if d == 7 {
        '7'
    } else if d == 8 {
        '8'
    } else {
        '9'
    }
}

/// The decimal digits of a natural number, without leading zeros.
pub open spec fn decimal_digits(n: nat) -> Seq<char>
    decreases n,
{
    if n < 10 {
        seq![digit(n as int)]
    } else {
        decimal_digits(n / 10).push(digit((n % 10) as int))
    }
}

/// The decimal spelling of an integer: a `-` before the digits of a
/// negative one.
pub open spec fn decimal(n: int) -> Seq<char> {
    if n < 0 {
        seq!['-'] + decimal_digits((-n) as nat)
    } else {
        decimal_digits(n as nat)
    }
}

/// Whether a character is a decimal digit or the sign.
pub open spec fn is_decimal_char(c: char) -> bool {
    c == '-' || ('0' <= c && c <= '9')
}

/// The view of a string that may be missing.
pub open spec fn optional_text(s: Option<String>) -> Option<Seq<char>> {
    match s {
        Some(s) => Some(s@),
        None => None,
    }
}

/// The views of a list of character runs.
pub open spec fn views(parts: Seq<&[char]>) -> Seq<Seq<char>> {
    parts.map_values(|p: &[char]| p@)
}

/// `find_from` returns the first occurrence, and nothing before it matches.
pub proof fn lemma_find_from(s: Seq<char>, c: char, from: int)
    requires
        0 <= from <= s.len(),
    ensures
        from <= find_from(s, c, from) <= s.len(),
        forall|j: int| from <= j < find_from(s, c, from) ==> s[j] != c,
        find_from(s, c, from) < s.len() ==> s[find_from(s, c, from)] == c,
    decreases s.len() - from,
{
    if from < s.len() && s[from] != c {
        lemma_find_from(s, c, from + 1);
    }
}

/// A position that holds `c` with nothing equal to `c` before it is the one
/// `find` returns.
pub proof fn lemma_find_is(s: Seq<char>, c: char, i: int)
    requires
        0 <= i <= s.len(),
        forall|j: int| 0 <= j < i ==> s[j] != c,
        i < s.len() ==> s[i] == c,
    ensures
        find(s, c) == i,
{
    lemma_find_from(s, c, 0);
    let f = find(s, c);
    if f < i {
        assert(s[f] == c);
    }
}

/// `find` says whether `c` stands in `s`.
pub proof fn lemma_find_lacks(s: Seq<char>, c: char)
    ensures
        lacks(s, c) <==> find(s, c) == s.len(),
{
    lemma_find_from(s, c, 0);
}

/// Where `c` stands nowhere in `a`, and `b` is empty or begins with `c`,
/// the first `c` in `a + b` stands right after `a`.
pub proof fn lemma_find_after(a: Seq<char>, b: Seq<char>, c: char)
    requires
        lacks(a, c),
        b.len() == 0 || b[0] == c,
    ensures
        find(a + b, c) == a.len(),
        (a + b).take(a.len() as int) == a,
        b.len() > 0 ==> (a + b).skip(a.len() as int + 1) == b.skip(1),
{
    lemma_find_is(a + b, c, a.len() as int);
    assert((a + b).take(a.len() as int) =~= a);
    if b.len() > 0 {
        assert((a + b).skip(a.len() as int + 1) =~= b.skip(1));
    }
}

/// A character that stands nowhere in a string stands nowhere in what is
/// left of it after some characters.
pub proof fn lemma_skip_lacks(s: Seq<char>, c: char, n: int)
    requires
        lacks(s, c),
        0 <= n <= s.len(),
    ensures
        lacks(s.skip(n), c),
        find(s.skip(n), c) == s.skip(n).len(),
{
    assert forall|i: int| 0 <= i < s.skip(n).len() implies s.skip(n)[i] != c by {
        assert(s.skip(n)[i] == s[i + n]);
    }
    lemma_find_lacks(s.skip(n), c);
}

/// A string that differs from `p` at a position of `p`, or ends before it,
/// does not begin with `p`.
pub proof fn lemma_not_prefix(s: Seq<char>, p: Seq<char>, k: int)
    requires
        0 <= k < p.len(),
        k >= s.len() || s[k] != p[k],
    ensures
        !starts_with(s, p),
        after_prefix(s, p) is None,
{
    if p.len() <= s.len() {
        assert(s.take(p.len() as int)[k] == s[k]);
    }
}

/// A string that begins with `p` holds the characters of `p` at their
/// positions.
pub proof fn lemma_prefix_chars(s: Seq<char>, p: Seq<char>)
    requires
        starts_with(s, p),
    ensures
        s.len() >= p.len(),
        forall|k: int| 0 <= k < p.len() ==> s[k] == p[k],
{
    assert forall|k: int| 0 <= k < p.len() implies s[k] == p[k] by {
        assert(s.take(p.len() as int)[k] == s[k]);
    }
}

/// A string that begins with `p` is `p` and what follows it.
pub proof fn lemma_prefix_parts(s: Seq<char>, p: Seq<char>)
    requires
        starts_with(s, p),
    ensures
        s == p + s.skip(p.len() as int),
{
    assert(s =~= s.take(p.len() as int) + s.skip(p.len() as int));
}

/// What follows a prefix is what was put behind it.
pub proof fn lemma_after_prefix(p: Seq<char>, rest: Seq<char>)
    ensures
        starts_with(p + rest, p),
        after_prefix(p + rest, p) == Some(rest),
{
    assert((p + rest).take(p.len() as int) =~= p);
    assert((p + rest).skip(p.len() as int) =~= rest);
}

/// A split has at least one piece.
pub proof fn lemma_split_len(s: Seq<char>, c: char)
    ensures
        split(s, c).len() >= 1,
    decreases s.len(),
{
    lemma_find_from(s, c, 0);
    if find(s, c) < s.len() {
        lemma_split_len(s.skip(find(s, c) + 1), c);
    }
}

/// No piece of a split holds the separator, and joining the pieces gives
/// the string back.
pub proof fn lemma_split_pieces(s: Seq<char>, c: char)
    ensures
        split(s, c).len() >= 1,
        forall|i: int| 0 <= i < split(s, c).len() ==> lacks(#[trigger] split(s, c)[i], c),
        join(split(s, c), c) == s,
    decreases s.len(),
{
    lemma_find_from(s, c, 0);
    let i = find(s, c);
    if i < s.len() {
        let rest = s.skip(i + 1);
        lemma_split_pieces(rest, c);
        let parts = split(s, c);
        assert(parts == seq![s.take(i)] + split(rest, c));
        assert(parts.skip(1) =~= split(rest, c));
        assert forall|k: int| 0 <= k < parts.len() implies lacks(#[trigger] parts[k], c) by {
            if k > 0 {
                assert(parts[k] == split(rest, c)[k - 1]);
            }
        }
        assert(s =~= s.take(i) + seq![c] + rest);
    }
}

/// A character that stands nowhere in a string stands in none of its
/// pieces.
pub proof fn lemma_split_lacks(s: Seq<char>, c: char, d: char)
    requires
        lacks(s, d),
    ensures
        forall|i: int| 0 <= i < split(s, c).len() ==> lacks(#[trigger] split(s, c)[i], d),
    decreases s.len(),
{
    lemma_find_from(s, c, 0);
    let i = find(s, c);
    if i < s.len() {
        let rest = s.skip(i + 1);
        lemma_split_lacks(rest, c, d);
        let parts = split(s, c);
        assert forall|k: int| 0 <= k < parts.len() implies lacks(#[trigger] parts[k], d) by {
            if k > 0 {
                assert(parts[k] == split(rest, c)[k - 1]);
            }
        }
    }
}

/// Splitting a join of pieces that do not hold the separator gives the
/// pieces back.
pub proof fn lemma_split_join(parts: Seq<Seq<char>>, c: char)
    requires
        parts.len() >= 1,
        forall|i: int| 0 <= i < parts.len() ==> lacks(#[trigger] parts[i], c),
    ensures
        split(join(parts, c), c) == parts,
    decreases parts.len(),
{
    if parts.len() == 1 {
        lemma_find_lacks(parts[0], c);
        assert(split(join(parts, c), c) =~= parts);
    } else {
        let rest = parts.skip(1);
        assert forall|i: int| 0 <= i < rest.len() implies lacks(#[trigger] rest[i], c) by {
            assert(rest[i] == parts[i + 1]);
        }
        lemma_split_join(rest, c);
        let tail = seq![c] + join(rest, c);
        let joined = join(parts, c);
        assert(joined =~= parts[0] + tail);
        lemma_find_after(parts[0], tail, c);
        assert(tail.skip(1) =~= join(rest, c));
        assert(split(joined, c) =~= parts);
    }
}

/// The decimal spelling of a number holds digits and the sign only.
pub proof fn lemma_decimal_chars(n: int)
    ensures
        forall|i: int| 0 <= i < decimal(n).len() ==> is_decimal_char(#[trigger] decimal(n)[i]),
{
    if n < 0 {
        lemma_decimal_digits((-n) as nat);
    } else {
        lemma_decimal_digits(n as nat);
    }
}

proof fn lemma_decimal_digits(n: nat)
    ensures
        forall|i: int|
            0 <= i < decimal_digits(n).len() ==> is_decimal_char(#[trigger] decimal_digits(n)[i]),
    decreases n,
{
    let d = decimal_digits(n);
    if n >= 10 {
        lemma_decimal_digits(n / 10);
        assert forall|i: int| 0 <= i < d.len() implies is_decimal_char(#[trigger] d[i]) by {
            if i < d.len() - 1 {
                assert(d[i] == decimal_digits(n / 10)[i]);
            } else {
                assert(d[i] == digit((n % 10) as int));
            }
        }
    } else {
        assert(d[0] == digit(n as int));
    }
}

/// [`String::push`]. Not proved, but taken from its documentation: the
/// string afterwards is the string before with `c` appended.
#[verifier::external_body]
fn push_char(s: &mut String, c: char)
    ensures
        final(s)@ == old(s)@.push(c),
{
    s.push(c)
}

/// The characters of a string slice.
pub fn to_chars(s: &str) -> (v: Vec<char>)
    ensures
        v@ == s@,
{
    let mut v: Vec<char> = Vec::new();
    for c in it: s.chars()
        invariant
            it.seq() == s@,
            v@ == s@.take(it.index() as int),
    {
        v.push(c);
        assert(v@ == s@.take(it.index() + 1));
    }
    assert(s@.take(s@.len() as int) == s@);
    v
}

/// A string holding the given characters.
pub fn to_string(chars: &[char]) -> (s: String)
    ensures
        s@ == chars@,
{
    let mut s: String = String::new();
    let mut i: usize = 0;
    while i < chars.len()
        invariant
            i <= chars.len(),
            s@ == chars@.take(i as int),
        decreases chars.len() - i,
    {
        push_char(&mut s, chars[i]);
        assert(s@ == chars@.take(i + 1));
        i = i + 1;
    }
    assert(chars@.take(chars.len() as int) == chars@);
    s
}

/// The position of the first `c` in `s`, or the length of `s`.
pub fn find_char(s: &[char], c: char) -> (i: usize)
    ensures
        i == find(s@, c),
        i <= s@.len(),
{
    let mut i: usize = 0;
    while i < s.len() && s[i] != c
        invariant
            i <= s.len(),
            find_from(s@, c, i as int) == find(s@, c),
        decreases s.len() - i,
    {
        i = i + 1;
    }
    i
}

/// Whether `c` stands nowhere in `s`.
pub fn is_free_of(s: &[char], c: char) -> (r: bool)
    ensures
        r == lacks(s@, c),
{
    proof {
        lemma_find_lacks(s@, c);
    }
    find_char(s, c) == s.len()
}

/// Whether two runs of characters are the same.
pub fn same_chars(a: &[char], b: &[char]) -> (r: bool)
    ensures
        r == (a@ == b@),
{
    if a.len() != b.len() {
        return false;
    }
    let mut i: usize = 0;
    while i < a.len()
        invariant
            a.len() == b.len(),
            i <= a.len(),
            a@.take(i as int) == b@.take(i as int),
        decreases a.len() - i,
    {
        if a[i] != b[i] {
            return false;
        }
        assert(a@.take(i + 1) == a@.take(i as int).push(a@[i as int]));
        assert(b@.take(i + 1) == b@.take(i as int).push(b@[i as int]));
        i = i + 1;
    }
    assert(a@.take(a.len() as int) == a@);
    assert(b@.take(b.len() as int) == b@);
    true
}

/// Whether `s` is exactly the text `p`.
pub fn is_text(s: &[char], p: &str) -> (r: bool)
    ensures
        r == (s@ == p@),
{
    let pattern = to_chars(p);
    same_chars(s, pattern.as_slice())
}

/// Whether `s` begins with the text `p`.
pub fn has_prefix(s: &[char], p: &str) -> (r: bool)
    ensures
        r == starts_with(s@, p@),
{
    let pattern = to_chars(p);
    if pattern.len() > s.len() {
        return false;
    }
    let head = slice_subrange(s, 0, pattern.len());
    assert(head@ == s@.take(pattern.len() as int));
    same_chars(head, pattern.as_slice())
}

/// Whether `s` ends with the text `p`.
pub fn has_suffix(s: &[char], p: &str) -> (r: bool)
    ensures
        r == ends_with(s@, p@),
{
    let pattern = to_chars(p);
    if pattern.len() > s.len() {
        return false;
    }
    let tail = slice_subrange(s, s.len() - pattern.len(), s.len());
    assert(tail@ == s@.skip(s.len() - pattern.len()));
    same_chars(tail, pattern.as_slice())
}

/// The first `n` characters of `s`.
pub fn take_chars(s: &[char], n: usize) -> (r: &[char])
    requires
        n <= s@.len(),
    ensures
        r@ == s@.take(n as int),
{
    slice_subrange(s, 0, n)
}

/// The characters of `s` after the first `n`.
pub fn skip_chars(s: &[char], n: usize) -> (r: &[char])
    requires
        n <= s@.len(),
    ensures
        r@ == s@.skip(n as int),
{
    slice_subrange(s, n, s.len())
}

/// What follows the text `p` in `s`, where `s` begins with it.
pub fn strip_prefix<'a>(s: &'a [char], p: &str) -> (r: Option<&'a [char]>)
    ensures
        match r {
            Some(rest) => after_prefix(s@, p@) == Some(rest@),
            None => after_prefix(s@, p@) is None,
        },
{
    let n: usize = p.unicode_len();
    if has_prefix(s, p) {
        Some(skip_chars(s, n))
    } else {
        None
    }
}

/// The pieces of `s` between occurrences of `c`.
pub fn split_chars(s: &[char], c: char) -> (parts: Vec<&[char]>)
    ensures
        views(parts@) == split(s@, c),
{
    let mut parts: Vec<&[char]> = Vec::new();
    let mut rest: &[char] = s;
    loop
        invariant
            views(parts@) + split(rest@, c) == split(s@, c),
        decreases rest@.len(),
    {
        let ghost before = parts@;
        let i: usize = find_char(rest, c);
        if i >= rest.len() {
            parts.push(rest);
            assert(views(parts@) == views(before) + seq![rest@]);
            return parts;
        }
        let piece = take_chars(rest, i);
        parts.push(piece);
        assert(views(parts@) == views(before) + seq![piece@]);
        assert(views(before) + (seq![piece@] + split(rest@.skip(i + 1), c)) == views(parts@)
            + split(rest@.skip(i + 1), c));
        rest = skip_chars(rest, i + 1);
    }
}

fn digit_char(d: u64) -> (c: char)
    requires
        d < 10,
    ensures
        c == digit(d as int),
{
    if d == 0 {
        '0'
    } else if d == 1 {
        '1'
    } else if d == 2 {
        '2'
    } else if d == 3 {
        '3'
    } else if d == 4 {
        '4'
    } else if d == 5 {
        '5'
    } else if d == 6 {
        '6'
    } else if d == 7 {
        '7'
    } else if d == 8 {
        '8'
    } else {
        '9'
    }
}

fn push_digits(out: &mut String, n: u64)
    ensures
        final(out)@ == old(out)@ + decimal_digits(n as nat),
    decreases n,
{
    if n >= 10 {
        push_digits(out, n / 10);
    }
    push_char(out, digit_char(n % 10));
}

/// Appends the decimal spelling of `n` to `out`.
pub fn push_decimal(out: &mut String, n: i64)
    ensures
        final(out)@ == old(out)@ + decimal(n as int),
{
    if n < 0 {
        push_char(out, '-');
        let magnitude: u64 = if n == i64::MIN {
            9_223_372_036_854_775_808u64
        } else {
            (-n) as u64
        };
        push_digits(out, magnitude);
    } else {
        push_digits(out, n as u64);
    }
}

/// The decimal spelling of `n`.
pub fn decimal_text(n: i64) -> (r: String)
    ensures
        r@ == decimal(n as int),
{
    let mut out = String::new();
    push_decimal(&mut out, n);
    assert(Seq::<char>::empty() + decimal(n as int) =~= decimal(n as int));
    out
}

} // verus!
