//! Byte-sequence helpers shared by the framer, the parser and the encoder:
//! locating a byte, splitting at the first occurrence of a byte, copying
//! subranges, and reading unsigned decimal numbers.

use vstd::prelude::*;
use vstd::std_specs::cmp::PartialEqSpec;

verus! {

/// Index of the first occurrence of `b` in `s`, or `s.len()` if absent.
pub open spec fn find_byte(s: Seq<u8>, b: u8) -> int
    decreases s.len(),
{
    if s.len() == 0 {
        0
    } else if s[0] == b {
        0
    } else {
        1 + find_byte(s.skip(1), b)
    }
}

pub proof fn lemma_find_byte(s: Seq<u8>, b: u8)
    ensures
        0 <= find_byte(s, b) <= s.len(),
        find_byte(s, b) < s.len() ==> s[find_byte(s, b)] == b,
        forall|j: int| 0 <= j < find_byte(s, b) ==> s[j] != b,
    decreases s.len(),
{
    if s.len() == 0 {
    } else if s[0] == b {
    } else {
        lemma_find_byte(s.skip(1), b);
        assert forall|j: int| 0 <= j < find_byte(s, b) implies s[j] != b by {
            if j > 0 {
                assert(s.skip(1)[j - 1] == s[j]);
            }
        }
    }
}

/// `find_byte` is pinned down by the usual first-occurrence description.
pub proof fn lemma_find_byte_from(s: Seq<u8>, b: u8, i: int)
    requires
        0 <= i <= s.len(),
        forall|j: int| 0 <= j < i ==> s[j] != b,
        i < s.len() ==> s[i] == b,
    ensures
        find_byte(s, b) == i,
    decreases s.len(),
{
    if s.len() == 0 {
    } else if s[0] == b {
        assert(i == 0);
    } else {
        assert(s[0] != b);
        assert(i >= 1);
        assert forall|j: int| 0 <= j < i - 1 implies s.skip(1)[j] != b by {
            assert(s.skip(1)[j] == s[j + 1]);
        }
        if i - 1 < s.skip(1).len() {
            assert(s.skip(1)[i - 1] == s[i]);
        }
        lemma_find_byte_from(s.skip(1), b, i - 1);
    }
}

/// The prefix of `s` before the first `b` (all of `s` if `b` is absent).
pub open spec fn split_head(s: Seq<u8>, b: u8) -> Seq<u8> {
    s.take(find_byte(s, b))
}

/// The suffix of `s` after the first `b`, or `None` if `b` is absent.
pub open spec fn split_tail(s: Seq<u8>, b: u8) -> Option<Seq<u8>> {
    if find_byte(s, b) < s.len() {
        Some(s.skip(find_byte(s, b) + 1))
    } else {
        None
    }
}

/// View of an optional byte vector.
pub open spec fn opt_bytes_view(o: Option<Vec<u8>>) -> Option<Seq<u8>> {
    match o {
        Some(v) => Some(v@),
        None => None,
    }
}

pub fn find_byte_in(v: &Vec<u8>, b: u8) -> (r: Option<usize>)
    ensures
        match r {
            Some(i) => i < v@.len() && find_byte(v@, b) == i,
            None => find_byte(v@, b) == v@.len(),
        },
{
    let n = v.len();
    let mut i: usize = 0;
    while i < n
        invariant
            n == v@.len(),
            0 <= i <= n,
            forall|j: int| 0 <= j < i ==> v@[j] != b,
        decreases n - i,
    {
        if v[i] == b {
            proof {
                lemma_find_byte_from(v@, b, i as int);
            }
            return Some(i);
        }
        i = i + 1;
    }
    proof {
        lemma_find_byte_from(v@, b, n as int);
    }
    None
}

/// Copy of `v[a..b]`.
pub fn subvec(v: &Vec<u8>, a: usize, b: usize) -> (r: Vec<u8>)
    requires
        a <= b <= v@.len(),
    ensures
        r@ == v@.subrange(a as int, b as int),
{
    let mut r: Vec<u8> = Vec::new();
    let mut i: usize = a;
    while i < b
        invariant
            a <= i <= b <= v@.len(),
            r@ == v@.subrange(a as int, i as int),
        decreases b - i,
    {
        r.push(v[i]);
        proof {
            assert(r@ =~= v@.subrange(a as int, i + 1 as int));
        }
        i = i + 1;
    }
    r
}

pub fn clone_bytes(v: &Vec<u8>) -> (r: Vec<u8>)
    ensures
        r@ == v@,
{
    let r = subvec(v, 0, v.len());
    proof {
        assert(v@.subrange(0, v@.len() as int) =~= v@);
    }
    r
}

pub fn append_bytes(dst: &mut Vec<u8>, src: &Vec<u8>)
    ensures
        final(dst)@ == old(dst)@ + src@,
{
    let n = src.len();
    let mut i: usize = 0;
    while i < n
        invariant
            n == src@.len(),
            0 <= i <= n,
            dst@ == old(dst)@ + src@.subrange(0, i as int),
        decreases n - i,
    {
        dst.push(src[i]);
        proof {
            assert(dst@ =~= old(dst)@ + src@.subrange(0, i + 1 as int));
        }
        i = i + 1;
    }
    proof {
        assert(src@.subrange(0, n as int) =~= src@);
    }
}

/// Split `v` at the first occurrence of `b`: the part before it, and,
/// when `b` occurs, the part after it.
pub fn split_first_at(v: &Vec<u8>, b: u8) -> (r: (Vec<u8>, Option<Vec<u8>>))
    ensures
        r.0@ == split_head(v@, b),
        opt_bytes_view(r.1) == split_tail(v@, b),
{
    proof {
        lemma_find_byte(v@, b);
    }
    let n = v.len();
    match find_byte_in(v, b) {
        Some(i) => {
            let head = subvec(v, 0, i);
            let tail = subvec(v, i + 1, n);
            proof {
                assert(head@ =~= split_head(v@, b));
                assert(tail@ =~= v@.skip(i + 1));
            }
            (head, Some(tail))
        },
        None => {
            let head = subvec(v, 0, v.len());
            proof {
                assert(head@ =~= split_head(v@, b));
            }
            (head, None)
        },
    }
}

/// `s` with every occurrence of `b` removed.
pub open spec fn strip_byte(s: Seq<u8>, b: u8) -> Seq<u8>
    decreases s.len(),
{
    if s.len() == 0 {
        Seq::empty()
    } else if s[0] == b {
        strip_byte(s.skip(1), b)
    } else {
        seq![s[0]] + strip_byte(s.skip(1), b)
    }
}

pub fn strip_byte_in(v: &Vec<u8>, b: u8) -> (r: Vec<u8>)
    ensures
        r@ == strip_byte(v@, b),
{
    let n = v.len();
    let mut r: Vec<u8> = Vec::new();
    let mut i: usize = 0;
    proof {
        assert(v@.skip(0) =~= v@);
        assert(r@ + strip_byte(v@, b) =~= strip_byte(v@, b));
    }
    while i < n
        invariant
            n == v@.len(),
            0 <= i <= n,
            strip_byte(v@, b) == r@ + strip_byte(v@.skip(i as int), b),
        decreases n - i,
    {
        proof {
            assert(v@.skip(i as int)[0] == v@[i as int]);
            assert(v@.skip(i as int).skip(1) =~= v@.skip(i + 1));
        }
        if v[i] != b {
            r.push(v[i]);
            proof {
                assert(strip_byte(v@.skip(i as int), b) == seq![v@[i as int]] + strip_byte(
                    v@.skip(i + 1),
                    b,
                ));
                assert(r@ + strip_byte(v@.skip(i + 1), b) =~= strip_byte(v@, b));
            }
        }
        i = i + 1;
    }
    proof {
        assert(v@.skip(n as int) =~= Seq::<u8>::empty());
    }
    r
}

/// Executable equality of two byte vectors agrees with equality of their
/// views.
pub proof fn lemma_vec_u8_eq_spec(a: &Vec<u8>, b: &Vec<u8>)
    ensures
        a.eq_spec(b) <==> a@ == b@,
{
    if a.eq_spec(b) {
        assert forall|i: int| 0 <= i < a@.len() implies a@[i] == b@[i] by {
            assert(a[i].eq_spec(&b[i]));
        }
        assert(a@ =~= b@);
    }
    if a@ == b@ {
        assert forall|i: int| 0 <= i < a@.len() implies a[i].eq_spec(&b[i]) by {}
    }
}

/// `b` does not occur in `s`.
pub open spec fn absent(s: Seq<u8>, b: u8) -> bool {
    forall|i: int| 0 <= i < s.len() ==> s[i] != b
}

pub proof fn lemma_absent_concat(a: Seq<u8>, b: Seq<u8>, c: u8)
    requires
        absent(a, c),
        absent(b, c),
    ensures
        absent(a + b, c),
{
    assert forall|j: int| 0 <= j < (a + b).len() implies (a + b)[j] != c by {
        if j < a.len() {
            assert((a + b)[j] == a[j]);
        } else {
            assert((a + b)[j] == b[j - a.len()]);
        }
    }
}

/// Splitting `a + [c] + t` at the first `c` recovers `a` and `t` when
/// `c` does not occur in `a`.
pub proof fn lemma_split_at_marker(a: Seq<u8>, c: u8, t: Seq<u8>)
    requires
        absent(a, c),
    ensures
        find_byte(a + seq![c] + t, c) == a.len(),
        split_head(a + seq![c] + t, c) == a,
        split_tail(a + seq![c] + t, c) == Some(t),
{
    let s = a + seq![c] + t;
    assert forall|j: int| 0 <= j < a.len() implies s[j] != c by {
        assert(s[j] == a[j]);
    }
    assert(s[a.len() as int] == c);
    lemma_find_byte_from(s, c, a.len() as int);
    assert(split_head(s, c) =~= a);
    assert(s.skip(a.len() as int + 1) =~= t);
}

/// Equality of two byte vectors, decided byte by byte.
pub fn bytes_eq(a: &Vec<u8>, b: &Vec<u8>) -> (r: bool)
    ensures
        r <==> a@ == b@,
{
    proof {
        lemma_vec_u8_eq_spec(a, b);
    }
    a == b
}

/// Decimal digits.
pub open spec fn is_digit(b: u8) -> bool {
    48 <= b <= 57
}

pub open spec fn all_digits(s: Seq<u8>) -> bool {
    forall|i: int| 0 <= i < s.len() ==> is_digit(s[i])
}

/// Value of one digit byte; bytes below the digit range count as zero,
/// which keeps the value total without affecting digit strings.
pub open spec fn digit_of(b: u8) -> nat {
    if b >= 48 {
        (b - 48) as nat
    } else {
        0
    }
}

/// Value of a digit string, most significant digit first.
pub open spec fn digits_val(s: Seq<u8>) -> nat
    decreases s.len(),
{
    if s.len() == 0 {
        0
    } else {
        digits_val(s.take(s.len() - 1)) * 10 + digit_of(s[s.len() - 1])
    }
}

proof fn lemma_digits_val_monotonic(s: Seq<u8>, i: int, j: int)
    requires
        0 <= i <= j <= s.len(),
    ensures
        digits_val(s.take(i)) <= digits_val(s.take(j)),
    decreases j - i,
{
    if i < j {
        lemma_digits_val_monotonic(s, i, j - 1);
        let t = s.take(j);
        assert(t.take(t.len() - 1) =~= s.take(j - 1));
        assert(digits_val(s.take(j)) == digits_val(s.take(j - 1)) * 10 + digit_of(s[j - 1]));
        assert(digits_val(s.take(j - 1)) * 10 >= digits_val(s.take(j - 1))) by (nonlinear_arith);
    }
}

/// What parsing a decimal `u64` yields: the whole string must be nonempty
/// digits and the value must fit.
pub open spec fn parse_u64(s: Seq<u8>) -> Option<u64> {
    if s.len() > 0 && all_digits(s) && digits_val(s) <= u64::MAX {
        Some(digits_val(s) as u64)
    } else {
        None
    }
}

pub fn parse_u64_in(v: &Vec<u8>) -> (r: Option<u64>)
    ensures
        r == parse_u64(v@),
{
    let n = v.len();
    if n == 0 {
        return None;
    }
    let mut val: u64 = 0;
    let mut i: usize = 0;
    while i < n
        invariant
            n == v@.len(),
            0 <= i <= n,
            all_digits(v@.take(i as int)),
            digits_val(v@.take(i as int)) == val,
        decreases n - i,
    {
        let b = v[i];
        if !(48 <= b && b <= 57) {
            assert(!is_digit(v@[i as int]));
            return None;
        }
        let d: u64 = (b - 48) as u64;
        if val > (u64::MAX - d) / 10 {
            proof {
                assert(v@.take(i + 1).take(i as int) =~= v@.take(i as int));
                assert(digits_val(v@.take(i + 1)) == val * 10 + d);
                assert(val * 10 + d > u64::MAX) by (nonlinear_arith)
                    requires
                        val > (u64::MAX - d) / 10,
                        d <= 9,
                ;
                lemma_digits_val_monotonic(v@, i + 1, n as int);
                assert(v@.take(n as int) =~= v@);
            }
            return None;
        }
        proof {
            assert(val * 10 + d <= u64::MAX) by (nonlinear_arith)
                requires
                    val <= (u64::MAX - d) / 10,
                    d <= 9,
            ;
            assert(v@.take(i + 1).take(i as int) =~= v@.take(i as int));
            assert(digits_val(v@.take(i + 1)) == val * 10 + d);
        }
        val = val * 10 + d;
        i = i + 1;
    }
    proof {
        assert(v@.take(n as int) =~= v@);
    }
    Some(val)
}

} // verus!
