//! Character-level helpers shared by the line parser: searching, comparing and
//! reading decimal numbers inside a line held as a vector of `char`s.
use vstd::prelude::*;
use vstd::string::*;

verus! {

/// `i` is the first position of `c` in `s`.
pub open spec fn is_first_index(s: Seq<char>, c: char, i: int) -> bool {
    &&& 0 <= i < s.len()
    &&& s[i] == c
    &&& forall|j: int| 0 <= j < i ==> s[j] != c
}

/// The first position of `c` in `s`, if `c` occurs.
pub open spec fn index_of(s: Seq<char>, c: char) -> Option<int> {
    if exists|i: int| is_first_index(s, c, i) {
        Some(choose|i: int| is_first_index(s, c, i))
    } else {
        None
    }
}

/// The text before the first `c` (all of `s` when `c` does not occur).
pub open spec fn before(s: Seq<char>, c: char) -> Seq<char> {
    match index_of(s, c) {
        Some(i) => s.take(i),
        None => s,
    }
}

/// The text after the first `c`, when `c` occurs.
pub open spec fn after(s: Seq<char>, c: char) -> Option<Seq<char>> {
    match index_of(s, c) {
        Some(i) => Some(s.skip(i + 1)),
        None => None,
    }
}

pub proof fn lemma_index_of_found(s: Seq<char>, c: char, i: int)
    requires
        is_first_index(s, c, i),
    ensures
        index_of(s, c) == Some(i),
{
    let k = choose|k: int| is_first_index(s, c, k);
    assert(is_first_index(s, c, k));
    if k < i {
        assert(s[k] != c);
    } else if i < k {
        assert(s[i] != c);
    }
}

pub proof fn lemma_index_of_absent(s: Seq<char>, c: char)
    requires
        forall|j: int| 0 <= j < s.len() ==> s[j] != c,
    ensures
        index_of(s, c).is_none(),
{
}

proof fn lemma_first_index_exists(s: Seq<char>, c: char, j: int)
    requires
        0 <= j < s.len(),
        s[j] == c,
    ensures
        exists|i: int| is_first_index(s, c, i),
    decreases j,
{
    if exists|m: int| 0 <= m < j && s[m] == c {
        let m = choose|m: int| 0 <= m < j && s[m] == c;
        lemma_first_index_exists(s, c, m);
    } else {
        assert(is_first_index(s, c, j));
    }
}

pub proof fn lemma_index_of_bounds(s: Seq<char>, c: char)
    ensures
        match index_of(s, c) {
            Some(i) => is_first_index(s, c, i),
            None => forall|j: int| 0 <= j < s.len() ==> s[j] != c,
        },
{
    assert forall|j: int| 0 <= j < s.len() && index_of(s, c).is_none() implies s[j] != c by {
        if s[j] == c {
            lemma_first_index_exists(s, c, j);
        }
    }
}

/// Folds `f` from left to right over the pieces of `s` that `sep` separates,
/// cut as `str::split` cuts them: there is always at least one piece, and two
/// separators side by side leave an empty piece between them.
pub open spec fn fold_pieces<A>(acc: A, s: Seq<char>, sep: char, f: spec_fn(A, Seq<char>) -> A) -> A
    decreases s.len(),
    via fold_pieces_decreases::<A>
{
    match index_of(s, sep) {
        Some(i) => fold_pieces(f(acc, s.take(i)), s.skip(i + 1), sep, f),
        None => f(acc, s),
    }
}

#[via_fn]
proof fn fold_pieces_decreases<A>(acc: A, s: Seq<char>, sep: char, f: spec_fn(A, Seq<char>) -> A) {
    lemma_index_of_bounds(s, sep);
}

/// One step of `fold_pieces` over the text between `lo` and `hi`, whose first
/// separator stands at `j`.
pub proof fn lemma_fold_step<A>(
    acc: A,
    chars: Seq<char>,
    lo: int,
    j: int,
    hi: int,
    sep: char,
    f: spec_fn(A, Seq<char>) -> A,
)
    requires
        0 <= lo <= j < hi <= chars.len(),
        index_of(chars.subrange(lo, hi), sep) == Some(j - lo),
    ensures
        fold_pieces(acc, chars.subrange(lo, hi), sep, f) == fold_pieces(
            f(acc, chars.subrange(lo, j)),
            chars.subrange(j + 1, hi),
            sep,
            f,
        ),
{
    let s = chars.subrange(lo, hi);
    assert(s.take(j - lo) =~= chars.subrange(lo, j));
    assert(s.skip(j - lo + 1) =~= chars.subrange(j + 1, hi));
}

/// `p` occurs in `s` at position `i`.
pub open spec fn occurs_at(s: Seq<char>, p: Seq<char>, i: int) -> bool {
    0 <= i && i + p.len() <= s.len() && s.subrange(i, i + p.len()) == p
}

/// `i` is the first position at which `p` occurs in `s`.
pub open spec fn is_first_occurrence(s: Seq<char>, p: Seq<char>, i: int) -> bool {
    occurs_at(s, p, i) && forall|j: int| 0 <= j < i ==> !occurs_at(s, p, j)
}

/// The first position at which `p` occurs in `s`, if it does.
pub open spec fn occurrence_of(s: Seq<char>, p: Seq<char>) -> Option<int> {
    if exists|i: int| is_first_occurrence(s, p, i) {
        Some(choose|i: int| is_first_occurrence(s, p, i))
    } else {
        None
    }
}

pub proof fn lemma_occurrence_found(s: Seq<char>, p: Seq<char>, i: int)
    requires
        is_first_occurrence(s, p, i),
    ensures
        occurrence_of(s, p) == Some(i),
{
    let k = choose|k: int| is_first_occurrence(s, p, k);
    assert(is_first_occurrence(s, p, k));
    if k < i {
        assert(!occurs_at(s, p, k));
    } else if i < k {
        assert(!occurs_at(s, p, i));
    }
}

/// Whether `c` is an ASCII decimal digit.
pub open spec fn is_digit(c: char) -> bool {
    '0' <= c && c <= '9'
}

pub open spec fn all_digits(s: Seq<char>) -> bool {
    forall|i: int| 0 <= i < s.len() ==> is_digit(#[trigger] s[i])
}

pub open spec fn digit_value(c: char) -> int {
    (c as int) - ('0' as int)
}

/// The number that a string of decimal digits writes.
pub open spec fn decimal_value(s: Seq<char>) -> int
    decreases s.len(),
{
    if s.len() == 0 {
        0
    } else {
        decimal_value(s.drop_last()) * 10 + digit_value(s.last())
    }
}

/// The digits of `s` once an optional leading `+` is removed.
pub open spec fn unsigned_digits(s: Seq<char>) -> Seq<char> {
    if s.len() > 0 && s[0] == '+' {
        s.skip(1)
    } else {
        s
    }
}

/// What reading `s` as an unsigned integer no greater than `max` gives, the way
/// `str::parse` reads unsigned integers: an optional `+`, then one or more
/// decimal digits, whose value must not exceed `max`.
pub open spec fn parse_unsigned(s: Seq<char>, max: int) -> Option<int> {
    let d = unsigned_digits(s);
    if d.len() > 0 && all_digits(d) && decimal_value(d) <= max {
        Some(decimal_value(d))
    } else {
        None
    }
}

proof fn lemma_decimal_nonneg(s: Seq<char>)
    requires
        all_digits(s),
    ensures
        decimal_value(s) >= 0,
    decreases s.len(),
{
    if s.len() > 0 {
        assert(all_digits(s.drop_last()));
        lemma_decimal_nonneg(s.drop_last());
        assert(is_digit(s[s.len() - 1]));
    }
}

/// Appending digits never makes a number smaller.
proof fn lemma_decimal_monotone(s: Seq<char>, k: int)
    requires
        all_digits(s),
        0 <= k <= s.len(),
    ensures
        decimal_value(s.take(k)) <= decimal_value(s),
    decreases s.len(),
{
    if k < s.len() {
        let t = s.drop_last();
        assert(all_digits(t));
        assert(t.take(k) =~= s.take(k));
        lemma_decimal_monotone(t, k);
        lemma_decimal_nonneg(t);
        assert(is_digit(s[s.len() - 1]));
    } else {
        assert(s.take(k) =~= s);
    }
}

/// The characters of `s`, one by one.
pub fn to_chars(s: &str) -> (r: Vec<char>)
    ensures
        r@ == s@,
{
    let n = s.unicode_len();
    let mut r: Vec<char> = Vec::new();
    let mut i: usize = 0;
    while i < n
        invariant
            n == s@.len(),
            i <= n,
            r@ == s@.take(i as int),
        decreases n - i,
    {
        r.push(s.get_char(i));
        i = i + 1;
        assert(r@ =~= s@.take(i as int));
    }
    assert(r@ =~= s@);
    r
}

/// The text between `lo` and `hi` as a `String`.
pub fn text_of(line: &str, lo: usize, hi: usize) -> (r: String)
    requires
        lo <= hi <= line@.len(),
    ensures
        r@ == line@.subrange(lo as int, hi as int),
{
    String::from_str(line.substring_char(lo, hi))
}

/// The first position of `c` between `lo` and `hi`.
pub fn find_char(chars: &Vec<char>, lo: usize, hi: usize, c: char) -> (r: Option<usize>)
    requires
        lo <= hi <= chars@.len(),
    ensures
        match r {
            Some(j) => lo <= j < hi && index_of(chars@.subrange(lo as int, hi as int), c) == Some(
                j - lo,
            ),
            None => index_of(chars@.subrange(lo as int, hi as int), c).is_none(),
        },
{
    let ghost s = chars@.subrange(lo as int, hi as int);
    let mut i: usize = lo;
    while i < hi
        invariant
            lo <= i <= hi <= chars@.len(),
            s == chars@.subrange(lo as int, hi as int),
            forall|j: int| 0 <= j < i - lo ==> s[j] != c,
        decreases hi - i,
    {
        if chars[i] == c {
            proof {
                assert(is_first_index(s, c, i - lo));
                lemma_index_of_found(s, c, i - lo);
            }
            return Some(i);
        }
        i = i + 1;
    }
    proof {
        lemma_index_of_absent(s, c);
    }
    None
}

/// Whether the text between `lo` and `hi` reads `lit`.
pub fn text_is(chars: &Vec<char>, lo: usize, hi: usize, lit: &str) -> (r: bool)
    requires
        lo <= hi <= chars@.len(),
    ensures
        r == (chars@.subrange(lo as int, hi as int) == lit@),
{
    let n = lit.unicode_len();
    if hi - lo != n {
        proof {
            assert(chars@.subrange(lo as int, hi as int).len() != lit@.len());
        }
        return false;
    }
    let mut k: usize = 0;
    while k < n
        invariant
            n == lit@.len(),
            lo + n == hi <= chars@.len(),
            k <= n,
            forall|j: int| 0 <= j < k ==> chars@[lo + j] == lit@[j],
        decreases n - k,
    {
        if chars[lo + k] != lit.get_char(k) {
            proof {
                assert(chars@.subrange(lo as int, hi as int)[k as int] != lit@[k as int]);
            }
            return false;
        }
        k = k + 1;
    }
    assert(chars@.subrange(lo as int, hi as int) =~= lit@);
    true
}

/// Whether `a` and `b` hold the same text.
pub fn same_text(a: &str, b: &str) -> (r: bool)
    ensures
        r == (a@ == b@),
{
    let n = a.unicode_len();
    if n != b.unicode_len() {
        return false;
    }
    let mut k: usize = 0;
    while k < n
        invariant
            n == a@.len() == b@.len(),
            k <= n,
            forall|j: int| 0 <= j < k ==> a@[j] == b@[j],
        decreases n - k,
    {
        if a.get_char(k) != b.get_char(k) {
            return false;
        }
        k = k + 1;
    }
    assert(a@ =~= b@);
    true
}

/// Whether `p` occurs in `chars` at position `i`.
fn occurs_here(chars: &Vec<char>, p: &Vec<char>, i: usize) -> (r: bool)
    requires
        i + p@.len() <= chars@.len(),
    ensures
        r == occurs_at(chars@, p@, i as int),
{
    let n = chars.len();
    let mut k: usize = 0;
    while k < p.len()
        invariant
            n == chars@.len(),
            i + p@.len() <= chars@.len(),
            k <= p@.len(),
            forall|j: int| 0 <= j < k ==> chars@[i + j] == p@[j],
        decreases p@.len() - k,
    {
        if chars[i + k] != p[k] {
            proof {
                assert(chars@.subrange(i as int, i + p@.len())[k as int] != p@[k as int]);
            }
            return false;
        }
        k = k + 1;
    }
    assert(chars@.subrange(i as int, i + p@.len()) =~= p@);
    true
}

/// The first position at which `p` occurs in `chars`.
pub fn find_text(chars: &Vec<char>, p: &Vec<char>) -> (r: Option<usize>)
    ensures
        match r {
            Some(i) => occurrence_of(chars@, p@) == Some(i as int),
            None => occurrence_of(chars@, p@).is_none(),
        },
{
    if p.len() > chars.len() {
        proof {
            assert(forall|i: int| !#[trigger] occurs_at(chars@, p@, i));
        }
        return None;
    }
    if p.len() == 0 {
        proof {
            assert(chars@.subrange(0, 0) =~= p@);
            assert(is_first_occurrence(chars@, p@, 0));
            lemma_occurrence_found(chars@, p@, 0);
        }
        return Some(0);
    }
    let n = chars.len();
    let last = n - p.len();
    let mut i: usize = 0;
    while i <= last
        invariant
            n == chars@.len(),
            p@.len() >= 1,
            last + p@.len() == chars@.len(),
            i <= last + 1,
            forall|j: int| 0 <= j < i ==> !#[trigger] occurs_at(chars@, p@, j),
        decreases last + 1 - i,
    {
        if occurs_here(chars, p, i) {
            proof {
                assert(is_first_occurrence(chars@, p@, i as int));
                lemma_occurrence_found(chars@, p@, i as int);
            }
            return Some(i);
        }
        i = i + 1;
    }
    proof {
        assert forall|j: int| !#[trigger] is_first_occurrence(chars@, p@, j) by {
            if 0 <= j < i {
            } else {
                assert(!occurs_at(chars@, p@, j));
            }
        }
    }
    None
}

/// Reads the text between `lo` and `hi` as an unsigned integer no greater than
/// `max` (see `parse_unsigned`).
pub fn parse_decimal(chars: &Vec<char>, lo: usize, hi: usize, max: usize) -> (r: Option<usize>)
    requires
        lo <= hi <= chars@.len(),
        max >= 9,
    ensures
        match r {
            Some(v) => parse_unsigned(chars@.subrange(lo as int, hi as int), max as int) == Some(
                v as int,
            ),
            None => parse_unsigned(chars@.subrange(lo as int, hi as int), max as int).is_none(),
        },
{
    let ghost s = chars@.subrange(lo as int, hi as int);
    let start: usize = if lo < hi && chars[lo] == '+' {
        lo + 1
    } else {
        lo
    };
    let ghost d = chars@.subrange(start as int, hi as int);
    assert(unsigned_digits(s) =~= d);
    if start == hi {
        return None;
    }
    let mut acc: usize = 0;
    let mut i: usize = start;
    while i < hi
        invariant
            lo <= start <= i <= hi <= chars@.len(),
            max >= 9,
            s == chars@.subrange(lo as int, hi as int),
            d == chars@.subrange(start as int, hi as int),
            unsigned_digits(s) == d,
            all_digits(d.take(i - start)),
            acc as int == decimal_value(d.take(i - start)),
            acc <= max,
        decreases hi - i,
    {
        let c = chars[i];
        if !('0' <= c && c <= '9') {
            proof {
                assert(!is_digit(d[i - start]));
            }
            return None;
        }
        let dv: usize = (c as u32 - '0' as u32) as usize;
        let ghost k = i - start;
        assert(d.take(k + 1).drop_last() =~= d.take(k));
        assert(d.take(k + 1).last() == c);
        if acc > (max - dv) / 10 {
            proof {
                assert(acc * 10 + dv > max) by (nonlinear_arith)
                    requires
                        acc > (max - dv) / 10,
                        dv <= 9,
                        max >= 9,
                ;
                if all_digits(d) {
                    lemma_decimal_monotone(d, k + 1);
                }
            }
            return None;
        }
        assert(acc * 10 + dv <= max) by (nonlinear_arith)
            requires
                acc <= (max - dv) / 10,
                dv <= 9,
                max >= 9,
        ;
        acc = acc * 10 + dv;
        i = i + 1;
        assert(all_digits(d.take(i - start)));
    }
    assert(d.take(hi - start) =~= d);
    Some(acc)
}

} // verus!
