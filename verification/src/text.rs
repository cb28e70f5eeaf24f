//! Character-level string helpers shared by the rest of the library.
//!
//! Strings are reasoned about through their `Seq<char>` views.

use vstd::prelude::*;
use vstd::string::StrSliceExecFns;

verus! {

/// The Unicode `White_Space` property, which `char::is_whitespace` and
/// `str::trim` use.
pub open spec fn is_white_space_spec(c: char) -> bool {
    let u = c as u32;
    ||| 0x09 <= u <= 0x0d
    ||| u == 0x20
    ||| u == 0x85
    ||| u == 0xa0
    ||| u == 0x1680
    ||| 0x2000 <= u <= 0x200a
    ||| u == 0x2028
    ||| u == 0x2029
    ||| u == 0x202f
    ||| u == 0x205f
    ||| u == 0x3000
}

/// Whether `c` is Unicode white space.
pub fn is_white_space(c: char) -> (r: bool)
    ensures
        r == is_white_space_spec(c),
{
    let u = c as u32;
    (0x09 <= u && u <= 0x0d) || u == 0x20 || u == 0x85 || u == 0xa0 || u == 0x1680 || (0x2000
        <= u && u <= 0x200a) || u == 0x2028 || u == 0x2029 || u == 0x202f || u == 0x205f || u
        == 0x3000
}

/// The characters of `s` in order.
pub fn chars_of(s: &str) -> (v: Vec<char>)
    ensures
        v@ == s@,
{
    let mut v: Vec<char> = Vec::new();
    for c in it: s.chars()
        invariant
            v@ == it.seq().take(it.index()),
            it.seq() == s@,
    {
        v.push(c);
    }
    v
}


/// `s` without its leading white space.
pub open spec fn trim_start_spec(s: Seq<char>) -> Seq<char>
    decreases s.len(),
{
    if s.len() > 0 && is_white_space_spec(s[0]) {
        trim_start_spec(s.drop_first())
    } else {
        s
    }
}

/// `s` without its trailing white space.
pub open spec fn trim_end_spec(s: Seq<char>) -> Seq<char>
    decreases s.len(),
{
    if s.len() > 0 && is_white_space_spec(s.last()) {
        trim_end_spec(s.drop_last())
    } else {
        s
    }
}

/// `s` without leading and trailing white space, as `str::trim` gives it.
pub open spec fn trimmed(s: Seq<char>) -> Seq<char> {
    trim_end_spec(trim_start_spec(s))
}

/// `s` without leading and trailing white space.
pub fn trim(s: &str) -> (r: &str)
    ensures
        r@ == trimmed(s@),
{
    let v = chars_of(s);
    let n = v.len();
    let mut a: usize = 0;
    assert(s@.subrange(0, n as int) =~= s@);
    while a < n && is_white_space(v[a])
        invariant
            v@ == s@,
            n == v.len(),
            a <= n,
            trim_start_spec(s@) == trim_start_spec(s@.subrange(a as int, n as int)),
        decreases n - a,
    {
        assert(s@.subrange(a as int, n as int).drop_first() =~= s@.subrange(a + 1, n as int));
        a = a + 1;
    }
    assert(trim_start_spec(s@.subrange(a as int, n as int)) == s@.subrange(a as int, n as int));
    let mut b: usize = n;
    while b > a && is_white_space(v[b - 1])
        invariant
            v@ == s@,
            n == v.len(),
            a <= b <= n,
            trimmed(s@) == trim_end_spec(s@.subrange(a as int, b as int)),
        decreases b - a,
    {
        assert(s@.subrange(a as int, b as int).drop_last() =~= s@.subrange(a as int, b - 1));
        b = b - 1;
    }
    assert(trim_end_spec(s@.subrange(a as int, b as int)) == s@.subrange(a as int, b as int));
    s.substring_char(a, b)
}

/// Appends `c` to `s` (`String::push`).
#[verifier::external_body]
pub(crate) fn push_char(s: &mut String, c: char)
    ensures
        final(s)@ == old(s)@.push(c),
{
    s.push(c);
}

/// What `str::to_lowercase` gives for a string: the Unicode lowercase
/// mapping of each character, with the final-sigma rule.
pub uninterp spec fn lowercase(s: Seq<char>) -> Seq<char>;

/// What `str::to_uppercase` gives for a string: the Unicode uppercase
/// mapping of each character.
pub uninterp spec fn uppercase(s: Seq<char>) -> Seq<char>;

/// What `char::is_alphanumeric` gives: whether the character has the
/// Unicode `Alphabetic` property or a numeric general category.
pub uninterp spec fn alphanumeric(c: char) -> bool;

/// Calls `str::to_lowercase`; its result is named `lowercase` of the
/// argument's characters and nothing more is claimed of it.
#[verifier::external_body]
pub(crate) fn to_lowercase(s: &str) -> (r: String)
    ensures
        r@ == lowercase(s@),
{
    s.to_lowercase()
}

/// Calls `str::to_uppercase`; its result is named `uppercase` of the
/// argument's characters and nothing more is claimed of it.
#[verifier::external_body]
pub(crate) fn to_uppercase(s: &str) -> (r: String)
    ensures
        r@ == uppercase(s@),
{
    s.to_uppercase()
}

/// Calls `char::is_alphanumeric`; its result is named `alphanumeric`.
#[verifier::external_body]
pub(crate) fn is_alphanumeric(c: char) -> (r: bool)
    ensures
        r == alphanumeric(c),
{
    c.is_alphanumeric()
}

/// The decimal digit character for `d < 10`.
pub open spec fn digit_char(d: nat) -> char {
    ((48 + d) as u8) as char
}

/// The decimal representation of `n`, as `Display` writes an unsigned
/// integer: no sign, no leading zeros.
pub open spec fn decimal(n: nat) -> Seq<char>
    decreases n,
{
    if n < 10 {
        seq![digit_char(n)]
    } else {
        decimal(n / 10).push(digit_char(n % 10))
    }
}

fn digit(d: usize) -> (c: char)
    requires
        d < 10,
    ensures
        c == digit_char(d as nat),
{
    ((48 + d) as u8) as char
}

/// Appends the decimal representation of `n` to `s`.
pub fn push_decimal(s: &mut String, n: usize)
    ensures
        final(s)@ == old(s)@ + decimal(n as nat),
    decreases n,
{
    if n >= 10 {
        push_decimal(s, n / 10);
    }
    push_char(s, digit(n % 10));
    assert(old(s)@ + decimal(n as nat) =~= s@);
}

/// `s` with every space character removed (`str::replace(' ', "")`).
pub open spec fn without_spaces(s: Seq<char>) -> Seq<char>
    decreases s.len(),
{
    if s.len() == 0 {
        s
    } else if s.last() == ' ' {
        without_spaces(s.drop_last())
    } else {
        without_spaces(s.drop_last()).push(s.last())
    }
}

/// The characters of `s` other than spaces, in order.
pub fn remove_spaces(s: &str) -> (r: String)
    ensures
        r@ == without_spaces(s@),
{
    let v = chars_of(s);
    let mut r = String::new();
    for i in 0..v.len()
        invariant
            v@ == s@,
            r@ == without_spaces(s@.take(i as int)),
    {
        assert(s@.take(i + 1).drop_last() =~= s@.take(i as int));
        if v[i] != ' ' {
            push_char(&mut r, v[i]);
        }
    }
    assert(s@.take(v.len() as int) =~= s@);
    r
}

/// Whether `a` and `b` hold the same characters.
pub fn str_eq(a: &str, b: &str) -> (r: bool)
    ensures
        r == (a@ == b@),
{
    let va = chars_of(a);
    let vb = chars_of(b);
    if va.len() != vb.len() {
        return false;
    }
    for i in 0..va.len()
        invariant
            va@ == a@,
            vb@ == b@,
            va.len() == vb.len(),
            forall|j: int| 0 <= j < i ==> va@[j] == vb@[j],
    {
        if va[i] != vb[i] {
            return false;
        }
    }
    assert(a@ =~= b@);
    true
}


/// The characters of `s` from index `i` on.
pub open spec fn from_index(s: Seq<char>, i: usize) -> Seq<char> {
    s.skip(i as int)
}

/// Whether `pat` occurs in `t` starting at index `i`.
pub open spec fn matches_at(t: Seq<char>, pat: Seq<char>, i: int) -> bool {
    0 <= i && i + pat.len() <= t.len() && t.subrange(i, i + pat.len()) == pat
}

/// The first index at or after `from` where `pat` occurs in `t`
/// (`str::find` on the suffix, counted in characters).
pub open spec fn find_from(t: Seq<char>, pat: Seq<char>, from: int) -> Option<int>
    decreases t.len() - from,
{
    if from < 0 || from >= t.len() {
        None
    } else if matches_at(t, pat, from) {
        Some(from)
    } else {
        find_from(t, pat, from + 1)
    }
}

/// A match that `find_from` reports lies within `t`, at or after `from`.
pub proof fn lemma_find_from_bounds(t: Seq<char>, pat: Seq<char>, from: int)
    ensures
        find_from(t, pat, from) matches Some(i) ==> from <= i < t.len() && matches_at(t, pat, i),
    decreases t.len() - from,
{
    if 0 <= from < t.len() && !matches_at(t, pat, from) {
        lemma_find_from_bounds(t, pat, from + 1);
    }
}

/// A match that `rfind_char` reports lies within `t` and holds `c`.
pub proof fn lemma_rfind_char_bounds(t: Seq<char>, c: char)
    ensures
        rfind_char(t, c) matches Some(i) ==> 0 <= i < t.len() && t[i] == c,
    decreases t.len(),
{
    if t.len() > 0 && t.last() != c {
        lemma_rfind_char_bounds(t.drop_last(), c);
    }
}

proof fn lemma_trim_start_first(s: Seq<char>)
    ensures
        trim_start_spec(s).len() > 0 ==> !is_white_space_spec(trim_start_spec(s)[0]),
    decreases s.len(),
{
    if s.len() > 0 && is_white_space_spec(s[0]) {
        lemma_trim_start_first(s.drop_first());
    }
}

proof fn lemma_trim_end_prefix(s: Seq<char>)
    ensures
        trim_end_spec(s).len() <= s.len(),
        trim_end_spec(s) == s.take(trim_end_spec(s).len() as int),
        trim_end_spec(s).len() > 0 ==> !is_white_space_spec(trim_end_spec(s).last()),
    decreases s.len(),
{
    if s.len() > 0 && is_white_space_spec(s.last()) {
        lemma_trim_end_prefix(s.drop_last());
        assert(s.drop_last().take(trim_end_spec(s).len() as int) =~= s.take(trim_end_spec(s).len() as int));
    } else {
        assert(s.take(s.len() as int) =~= s);
    }
}

/// Trimming a trimmed text changes nothing.
pub proof fn lemma_trimmed_idempotent(s: Seq<char>)
    ensures
        trimmed(trimmed(s)) == trimmed(s),
{
    let x = trim_start_spec(s);
    let y = trim_end_spec(x);
    lemma_trim_start_first(s);
    lemma_trim_end_prefix(x);
    if y.len() > 0 {
        assert(y[0] == x[0]);
    }
    assert(trim_start_spec(y) == y);
    lemma_trim_end_prefix(y);
    assert(trim_end_spec(y) == y);
}

/// `find_from` reports the first match at or after `from`.
pub proof fn lemma_find_from_first(t: Seq<char>, pat: Seq<char>, from: int, p: int)
    requires
        0 <= from <= p,
        p < t.len(),
        matches_at(t, pat, p),
        forall|i: int| from <= i < p ==> !#[trigger] matches_at(t, pat, i),
    ensures
        find_from(t, pat, from) == Some(p),
    decreases p - from,
{
    if from < p {
        lemma_find_from_first(t, pat, from + 1, p);
    }
}

/// The last index of `c` in `t` (`str::rfind` of a character).
pub open spec fn rfind_char(t: Seq<char>, c: char) -> Option<int>
    decreases t.len(),
{
    if t.len() == 0 {
        None
    } else if t.last() == c {
        Some(t.len() - 1)
    } else {
        rfind_char(t.drop_last(), c)
    }
}

/// Whether `pat` occurs in `t` at index `i`.
pub fn occurs_at(t: &[char], pat: &[char], i: usize) -> (r: bool)
    requires
        i <= t@.len(),
    ensures
        r == matches_at(t@, pat@, i as int),
{
    if pat.len() > t.len() - i {
        return false;
    }
    for j in 0..pat.len()
        invariant
            i + pat@.len() <= t@.len(),
            forall|k: int| 0 <= k < j ==> t@[i + k] == pat@[k],
    {
        assert(j < pat@.len());
        assert(i + j < t.len());
        if t[i + j] != pat[j] {
            assert(t@.subrange(i as int, i + pat@.len())[j as int] != pat@[j as int]);
            return false;
        }
    }
    assert(t@.subrange(i as int, i + pat@.len()) =~= pat@);
    true
}

/// The first index at or after `from` where `pat` occurs in `t`.
pub fn find(t: &[char], pat: &[char], from: usize) -> (r: Option<usize>)
    ensures
        r matches Some(i) ==> find_from(t@, pat@, from as int) == Some(i as int),
        r is None ==> find_from(t@, pat@, from as int) is None,
{
    let mut i = from;
    while i < t.len()
        invariant
            from <= i,
            find_from(t@, pat@, from as int) == find_from(t@, pat@, i as int),
        decreases t.len() - i,
    {
        if occurs_at(t, pat, i) {
            return Some(i);
        }
        i = i + 1;
    }
    None
}

/// The last index of `c` in `t`.
pub fn rfind(t: &[char], c: char) -> (r: Option<usize>)
    ensures
        r matches Some(i) ==> rfind_char(t@, c) == Some(i as int),
        r is None ==> rfind_char(t@, c) is None,
{
    let mut n = t.len();
    assert(t@.take(n as int) =~= t@);
    while n > 0
        invariant
            n <= t@.len(),
            rfind_char(t@, c) == rfind_char(t@.take(n as int), c),
        decreases n,
    {
        if t[n - 1] == c {
            return Some(n - 1);
        }
        assert(t@.take(n as int).drop_last() =~= t@.take(n - 1));
        n = n - 1;
    }
    None
}


/// The characters of `v` from index `a` up to (not including) `b`.
pub fn substring(v: &[char], a: usize, b: usize) -> (r: String)
    requires
        a <= b <= v@.len(),
    ensures
        r@ == v@.subrange(a as int, b as int),
{
    let mut r = String::new();
    let mut i = a;
    while i < b
        invariant
            a <= i <= b <= v@.len(),
            r@ == v@.subrange(a as int, i as int),
        decreases b - i,
    {
        push_char(&mut r, v[i]);
        assert(v@.subrange(a as int, i as int).push(v@[i as int]) =~= v@.subrange(a as int, i + 1));
        i = i + 1;
    }
    r
}

} // verus!
