//! Small operations on text.
use vstd::prelude::*;

verus! {

/// `String::push`.
#[verifier::external_body]
pub(crate) fn push_char(s: &mut String, c: char)
    ensures
        final(s)@ == old(s)@.push(c),
{
    s.push(c)
}

/// The characters of the text, in order.
pub fn chars_of(s: &str) -> (v: Vec<char>)
    ensures
        v@ == s@,
{
    let mut v: Vec<char> = Vec::new();
    for c in it: s.chars()
        invariant
            v@ == it.seq().take(it.index() as int),
    {
        v.push(c);
    }
    v
}

/// The text with every occurrence of a (non-empty) pattern taken out,
/// scanning from the left: where the pattern starts it is skipped whole,
/// elsewhere one character is kept.
pub open spec fn remove_all(s: Seq<char>, pat: Seq<char>) -> Seq<char>
    decreases s.len(),
{
    if s.len() == 0 || pat.len() == 0 {
        s
    } else if pat.len() <= s.len() && s.take(pat.len() as int) == pat {
        remove_all(s.skip(pat.len() as int), pat)
    } else {
        seq![s[0]] + remove_all(s.skip(1), pat)
    }
}

/// Whether `pat` occurs in `s` at position `i`.
fn occurs_at(s: &Vec<char>, pat: &Vec<char>, i: usize) -> (b: bool)
    requires
        i <= s@.len(),
    ensures
        b == (pat@.len() <= s@.len() - i && s@.skip(i as int).take(pat@.len() as int) == pat@),
{
    let n = s.len();
    let m = pat.len();
    if m > n - i {
        return false;
    }
    let mut j: usize = 0;
    while j < m
        invariant
            n == s@.len(),
            m == pat@.len(),
            i + m <= n,
            0 <= j <= m,
            forall|k: int| 0 <= k < j ==> s@[i + k] == pat@[k],
        decreases m - j,
    {
        if s[i + j] != pat[j] {
            assert(s@.skip(i as int).take(m as int)[j as int] != pat@[j as int]);
            return false;
        }
        j = j + 1;
    }
    assert(s@.skip(i as int).take(m as int) =~= pat@);
    true
}

/// The text with every occurrence of `pat` taken out, as `str::replace`
/// with an empty replacement does.
pub fn remove_all_occurrences(data: &str, pat: &str) -> (r: String)
    ensures
        r@ == remove_all(data@, pat@),
{
    let s = chars_of(data);
    let p = chars_of(pat);
    let n = s.len();
    let m = p.len();
    let mut r = String::new();
    if m == 0 {
        r.append(data);
        return r;
    }
    let mut i: usize = 0;
    assert(s@.skip(0) =~= s@);
    assert(r@ + remove_all(s@.skip(0), p@) =~= remove_all(s@, p@));
    while i < n
        invariant
            n == s@.len(),
            m == p@.len(),
            m > 0,
            s@ == data@,
            p@ == pat@,
            0 <= i <= n,
            r@ + remove_all(s@.skip(i as int), p@) == remove_all(s@, p@),
        decreases n - i,
    {
        let ghost rest = s@.skip(i as int);
        if occurs_at(&s, &p, i) {
            assert(rest.skip(m as int) =~= s@.skip(i + m));
            i = i + m;
        } else {
            push_char(&mut r, s[i]);
            assert(rest.skip(1) =~= s@.skip(i + 1));
            assert(rest[0] == s@[i as int]);
            assert(r@ + remove_all(s@.skip(i + 1), p@) =~= remove_all(s@, p@));
            i = i + 1;
        }
    }
    assert(s@.skip(n as int) =~= Seq::<char>::empty());
    assert(r@ + remove_all(s@.skip(n as int), p@) =~= r@);
    r
}

/// A character-by-character substitution of one character for another.
pub open spec fn swap_char(s: Seq<char>, from: char, to: char) -> Seq<char> {
    s.map_values(|c: char| if c == from { to } else { c })
}

/// The text with every `from` replaced by `to`, as `str::replace` with
/// one-character patterns does.
pub fn replace_char(data: &str, from: char, to: char) -> (r: String)
    ensures
        r@ == swap_char(data@, from, to),
{
    let s = chars_of(data);
    let n = s.len();
    let mut r = String::new();
    let mut i: usize = 0;
    while i < n
        invariant
            n == s@.len(),
            s@ == data@,
            0 <= i <= n,
            r@ == swap_char(s@.take(i as int), from, to),
        decreases n - i,
    {
        let c = s[i];
        if c == from {
            push_char(&mut r, to);
        } else {
            push_char(&mut r, c);
        }
        assert(r@ =~= swap_char(s@.take(i + 1), from, to));
        i = i + 1;
    }
    assert(s@.take(n as int) =~= s@);
    r
}

/// The concatenation of two texts.
pub fn concat_str(a: &str, b: &str) -> (r: String)
    ensures
        r@ == a@ + b@,
{
    let mut r = String::from_str(a);
    r.append(b);
    r
}

} // verus!
