//! Decimal formatting of integers and splitting of token ids at ':'.

use vstd::prelude::*;
use vstd::string::*;

verus! {

/// The character of a decimal digit.
pub open spec fn digit_char(d: nat) -> char {
    if d == 0 {
        '0'
    } else if d == 1 {
        '1'
    } else if d == 2 {
        '2'
    } else if d == 3 {
        '3'
    } else if d == 4 {
        '4'
    } else if d == 5 {
        '5'
    } else if d == 6 {
        '6'
    } else if d == 7 {
        '7'
    } else if d == 8 {
        '8'
    } else {
        '9'
    }
}

/// The decimal representation of `n`, without sign or leading zeros.
pub open spec fn decimal(n: nat) -> Seq<char>
    decreases n,
{
    if n < 10 {
        seq![digit_char(n)]
    } else {
        decimal(n / 10).push(digit_char(n % 10))
    }
}

fn digit_str(d: u64) -> (s: &'static str)
    requires
        d < 10,
    ensures
        s@ == seq![digit_char(d as nat)],
{
    if d == 0 {
        proof { reveal_strlit("0"); }
        "0"
    } else if d == 1 {
        proof { reveal_strlit("1"); }
        "1"
    } else if d == 2 {
        proof { reveal_strlit("2"); }
        "2"
    } else if d == 3 {
        proof { reveal_strlit("3"); }
        "3"
    } else if d == 4 {
        proof { reveal_strlit("4"); }
        "4"
    } else if d == 5 {
        proof { reveal_strlit("5"); }
        "5"
    } else if d == 6 {
        proof { reveal_strlit("6"); }
        "6"
    } else if d == 7 {
        proof { reveal_strlit("7"); }
        "7"
    } else if d == 8 {
        proof { reveal_strlit("8"); }
        "8"
    } else {
        proof { reveal_strlit("9"); }
        "9"
    }
}

/// Formats `n` in decimal, as `format!("{}", n)` does.
pub fn u64_to_decimal(n: u64) -> (s: String)
    ensures
        s@ == decimal(n as nat),
    decreases n,
{
    if n < 10 {
        String::from_str(digit_str(n))
    } else {
        let mut s = u64_to_decimal(n / 10);
        s.append(digit_str(n % 10));
        s
    }
}


pub proof fn lemma_decimal_len(n: nat)
    ensures
        decimal(n).len() >= 1,
        n >= 10 ==> decimal(n).len() >= 2,
    decreases n,
{
    if n >= 10 {
        lemma_decimal_len(n / 10);
    }
}

/// Different numbers have different decimal representations.
pub proof fn lemma_decimal_injective(a: nat, b: nat)
    requires
        decimal(a) == decimal(b),
    ensures
        a == b,
    decreases a,
{
    lemma_decimal_len(a);
    lemma_decimal_len(b);
    if a < 10 && b < 10 {
        assert(decimal(a)[0] == digit_char(a));
        assert(decimal(b)[0] == digit_char(b));
    } else if a < 10 {
        assert(decimal(a).len() == 1);
    } else if b < 10 {
        assert(decimal(b).len() == 1);
    } else {
        assert(decimal(a).last() == digit_char(a % 10));
        assert(decimal(b).last() == digit_char(b % 10));
        assert(decimal(a).drop_last() =~= decimal(a / 10));
        assert(decimal(b).drop_last() =~= decimal(b / 10));
        lemma_decimal_injective(a / 10, b / 10);
    }
}

/// A decimal number holds no ':'.
pub proof fn lemma_decimal_no_colon(n: nat)
    ensures
        count_colons(decimal(n)) == 0,
        find_colon(decimal(n), 0) == decimal(n).len(),
        first_part(decimal(n)) == decimal(n),
    decreases n,
{
    if n >= 10 {
        lemma_decimal_no_colon(n / 10);
        assert(decimal(n).drop_last() =~= decimal(n / 10));
        assert(decimal(n).last() == digit_char(n % 10));
        assert(digit_char(n % 10) != ':');
        assert(count_colons(decimal(n)) == count_colons(decimal(n).drop_last()));
    } else {
        assert(decimal(n).drop_last() =~= Seq::<char>::empty());
        assert(decimal(n).last() == digit_char(n));
        assert(digit_char(n) != ':');
        assert(count_colons(Seq::<char>::empty()) == 0);
        assert(count_colons(decimal(n)) == count_colons(decimal(n).drop_last()));
    }
    assert(count_colons(decimal(n)) == 0);
    lemma_no_colon(decimal(n), 0);
    assert(decimal(n).subrange(0, decimal(n).len() as int) =~= decimal(n));
}

/// The number of ':' characters in `s`.
pub open spec fn count_colons(s: Seq<char>) -> nat
    decreases s.len(),
{
    if s.len() == 0 {
        0
    } else {
        count_colons(s.drop_last()) + if s.last() == ':' { 1nat } else { 0nat }
    }
}

/// The index of the first ':' in `s` at or after `start`, or `s.len()` if there is none.
pub open spec fn find_colon(s: Seq<char>, start: int) -> int
    decreases s.len() - start,
{
    if start < 0 || start >= s.len() {
        s.len() as int
    } else if s[start] == ':' {
        start
    } else {
        find_colon(s, start + 1)
    }
}

/// The text before the first ':' (the whole text when there is none), as
/// the first item of `split(':')`.
pub open spec fn first_part(s: Seq<char>) -> Seq<char> {
    s.subrange(0, find_colon(s, 0))
}

/// The text between the first ':' and the next one (or the end), as the
/// second item of `split(':')`.
pub open spec fn second_part(s: Seq<char>) -> Seq<char> {
    let i = find_colon(s, 0);
    s.subrange(i + 1, find_colon(s, i + 1))
}

/// No ':' occurs in `s`, so `split(':')` yields one item.
pub proof fn lemma_no_colon(s: Seq<char>, start: int)
    requires
        0 <= start <= s.len(),
        count_colons(s) == 0,
    ensures
        find_colon(s, start) == s.len(),
    decreases s.len(),
{
    if start < s.len() {
        lemma_no_colon_prefix(s, start);
    }
}

proof fn lemma_no_colon_prefix(s: Seq<char>, start: int)
    requires
        0 <= start < s.len(),
        count_colons(s) == 0,
    ensures
        find_colon(s, start) == s.len(),
    decreases s.len() - start,
{
    lemma_count_zero_means_none(s, start);
    if start + 1 < s.len() {
        lemma_no_colon_prefix(s, start + 1);
    } else {
        assert(find_colon(s, start + 1) == s.len());
    }
}

pub proof fn lemma_count_zero_means_none(s: Seq<char>, i: int)
    requires
        0 <= i < s.len(),
        count_colons(s) == 0,
    ensures
        s[i] != ':',
    decreases s.len(),
{
    if i < s.len() - 1 {
        assert(s.drop_last()[i] == s[i]);
        lemma_count_zero_means_none(s.drop_last(), i);
    }
}

/// The ':' characters of a concatenation are those of its parts.
pub proof fn lemma_count_colons_concat(a: Seq<char>, b: Seq<char>)
    ensures
        count_colons(a + b) == count_colons(a) + count_colons(b),
    decreases b.len(),
{
    if b.len() == 0 {
        assert(a + b =~= a);
    } else {
        assert((a + b).drop_last() =~= a + b.drop_last());
        assert((a + b).last() == b.last());
        lemma_count_colons_concat(a, b.drop_last());
    }
}

/// When `a` holds no ':' and `rest` starts with one, the first ':' of
/// `a + rest` at or after `start` is the one just after `a`.
pub proof fn lemma_find_colon_after_prefix(a: Seq<char>, rest: Seq<char>, start: int)
    requires
        count_colons(a) == 0,
        0 <= start <= a.len(),
        rest.len() > 0,
        rest[0] == ':',
    ensures
        find_colon(a + rest, start) == a.len(),
    decreases a.len() - start,
{
    let u = a + rest;
    if start < a.len() {
        lemma_count_zero_means_none(a, start);
        assert(u[start] == a[start]);
        lemma_find_colon_after_prefix(a, rest, start + 1);
    } else {
        assert(u[start] == ':');
    }
}

/// The id `a:t` of a copy, where `a` and `t` hold no ':', has one ':' and
/// `a` as its first part.
pub proof fn lemma_copy_id_parts(a: Seq<char>, t: Seq<char>)
    requires
        count_colons(a) == 0,
        count_colons(t) == 0,
    ensures
        count_colons(a + seq![':'] + t) == 1,
        first_part(a + seq![':'] + t) == a,
        second_part(a + seq![':'] + t) == t,
{
    let u = a + seq![':'] + t;
    lemma_count_colons_concat(a, seq![':']);
    lemma_count_colons_concat(a + seq![':'], t);
    let c = seq![':'];
    assert(c.drop_last() =~= Seq::<char>::empty());
    assert(count_colons(c.drop_last()) == 0);
    assert(c.last() == ':');
    assert(count_colons(c) == 1);
    assert(u =~= a + (seq![':'] + t));
    lemma_find_colon_after_prefix(a, seq![':'] + t, 0);
    assert(u.subrange(0, a.len() as int) =~= a);
    assert forall|k: int| a.len() + 1 <= k < u.len() implies u[k] != ':' by {
        assert(u[k] == t[k - a.len() - 1]);
        lemma_count_zero_means_none(t, k - a.len() - 1);
    }
    lemma_find_colon_none_from(u, a.len() + 1 as int);
    assert(u.subrange(a.len() + 1 as int, u.len() as int) =~= t);
}

/// No ':' from `start` on: the search runs to the end.
proof fn lemma_find_colon_none_from(s: Seq<char>, start: int)
    requires
        0 <= start <= s.len(),
        forall|k: int| start <= k < s.len() ==> s[k] != ':',
    ensures
        find_colon(s, start) == s.len(),
    decreases s.len() - start,
{
    if start < s.len() {
        lemma_find_colon_none_from(s, start + 1);
    }
}

/// Counts the ':' characters of `s`; `split(':')` on `s` yields one more item than this.
pub fn colon_count(s: &str) -> (c: usize)
    ensures
        c == count_colons(s@),
{
    let n = s.unicode_len();
    let mut i: usize = 0;
    let mut c: usize = 0;
    while i < n
        invariant
            n == s@.len(),
            i <= n,
            c <= i,
            c == count_colons(s@.take(i as int)),
        decreases n - i,
    {
        let ch = s.get_char(i);
        assert(s@.take(i + 1).drop_last() =~= s@.take(i as int));
        if ch == ':' {
            c = c + 1;
        }
        i = i + 1;
    }
    assert(s@.take(n as int) =~= s@);
    c
}

/// The index of the first ':' at or after `start` (`s@.len()` when none).
pub fn find_colon_from(s: &str, start: usize) -> (r: usize)
    requires
        start <= s@.len(),
    ensures
        r == find_colon(s@, start as int),
        start <= r <= s@.len(),
{
    let n = s.unicode_len();
    let mut i: usize = start;
    while i < n
        invariant
            n == s@.len(),
            start <= i <= n,
            find_colon(s@, start as int) == find_colon(s@, i as int),
        decreases n - i,
    {
        if s.get_char(i) == ':' {
            return i;
        }
        i = i + 1;
    }
    i
}

/// The first item of `s.split(':')`.
pub fn split_first(s: &str) -> (r: String)
    ensures
        r@ == first_part(s@),
{
    let i = find_colon_from(s, 0);
    String::from_str(s.substring_char(0, i))
}

/// The second item of `s.split(':')`, which exists when `s` holds a ':'.
pub fn split_second(s: &str) -> (r: String)
    requires
        count_colons(s@) >= 1,
    ensures
        r@ == second_part(s@),
{
    let i = find_colon_from(s, 0);
    if i == s.unicode_len() {
        proof { lemma_some_colon(s@); }
    }
    let j = find_colon_from(s, i + 1);
    String::from_str(s.substring_char(i + 1, j))
}

/// A text with a ':' has a first ':'.
pub proof fn lemma_some_colon(s: Seq<char>)
    requires
        count_colons(s) >= 1,
    ensures
        find_colon(s, 0) < s.len(),
    decreases s.len(),
{
    if s.last() == ':' {
        lemma_find_colon_reaches(s, 0, s.len() - 1);
    } else {
        lemma_some_colon(s.drop_last());
        lemma_find_colon_prefix(s, 0);
    }
}

proof fn lemma_find_colon_reaches(s: Seq<char>, start: int, k: int)
    requires
        0 <= start <= k < s.len(),
        s[k] == ':',
    ensures
        find_colon(s, start) <= k,
    decreases k - start,
{
    if start < k && s[start] != ':' {
        lemma_find_colon_reaches(s, start + 1, k);
    }
}

proof fn lemma_find_colon_prefix(s: Seq<char>, start: int)
    requires
        0 <= start,
        s.len() > 0,
        find_colon(s.drop_last(), start) < s.len() - 1,
    ensures
        find_colon(s, start) == find_colon(s.drop_last(), start),
    decreases s.len() - start,
{
    let t = s.drop_last();
    if start < t.len() && t[start] != ':' {
        lemma_find_colon_prefix(s, start + 1);
    }
}

} // verus!
