use vstd::prelude::*;

verus! {

/// The ASCII digit for a value below ten.
pub open spec fn digit_char(d: nat) -> char {
    if d == 0 {
        '0'
    } else if d == 1 {
        '1'
    } else if d == 2 {
        '2'
    } else if d == 3 {
        '3'
    } else if d == 4 {
        '4'
    } else if d == 5 {
        '5'
    } else if d == 6 {
        '6'
    } else if d == 7 {
        '7'
    } else if d == 8 {
        '8'
    } else {
        '9'
    }
}

/// Base-ten rendering of a natural number, without leading zeros.
pub open spec fn decimal(n: nat) -> Seq<char>
    decreases n,
{
    if n < 10 {
        seq![digit_char(n)]
    } else {
        decimal(n / 10).push(digit_char(n % 10))
    }
}

/// Base-ten rendering of a signed number: a minus sign before the magnitude
/// of a negative one.
pub open spec fn signed_decimal(i: int) -> Seq<char> {
    if i < 0 {
        seq!['-'] + decimal((-i) as nat)
    } else {
        decimal(i as nat)
    }
}

fn digit_str(d: u32) -> (r: &'static str)
    requires
        d < 10,
    ensures
        r@ == seq![digit_char(d as nat)],
{
    proof {
        reveal_strlit("0");
        reveal_strlit("1");
        reveal_strlit("2");
        reveal_strlit("3");
        reveal_strlit("4");
        reveal_strlit("5");
        reveal_strlit("6");
        reveal_strlit("7");
        reveal_strlit("8");
        reveal_strlit("9");
    }
    if d == 0 {
        "0"
    } else if d == 1 {
        "1"
    } else if d == 2 {
        "2"
    } else if d == 3 {
        "3"
    } else if d == 4 {
        "4"
    } else if d == 5 {
        "5"
    } else if d == 6 {
        "6"
    } else if d == 7 {
        "7"
    } else if d == 8 {
        "8"
    } else {
        "9"
    }
}

/// Appends the decimal rendering of `n` to `out`.
pub fn push_decimal(out: &mut String, n: u32)
    ensures
        final(out)@ == old(out)@ + decimal(n as nat),
    decreases n,
{
    if n >= 10 {
        push_decimal(out, n / 10);
    }
    out.append(digit_str(n % 10));
    assert(n >= 10 ==> decimal(n as nat) == decimal((n / 10) as nat).push(digit_char((n % 10) as nat)));
    assert(final(out)@ =~= old(out)@ + decimal(n as nat));
}

/// Appends the decimal rendering of the signed number `i` to `out`.
pub fn push_signed_decimal(out: &mut String, i: i32)
    ensures
        final(out)@ == old(out)@ + signed_decimal(i as int),
{
    if i < 0 {
        proof {
            reveal_strlit("-");
        }
        out.append("-");
        let magnitude: u32 = (0i64 - (i as i64)) as u32;
        push_decimal(out, magnitude);
        assert(final(out)@ =~= old(out)@ + signed_decimal(i as int));
    } else {
        push_decimal(out, i as u32);
    }
}

/// Whether two strings hold the same characters.
pub fn str_eq(a: &str, b: &str) -> (r: bool)
    ensures
        r == (a@ == b@),
{
    let n = a.unicode_len();
    if n != b.unicode_len() {
        return false;
    }
    let mut i: usize = 0;
    while i < n
        invariant
            n == a@.len(),
            n == b@.len(),
            i <= n,
            a@.subrange(0, i as int) == b@.subrange(0, i as int),
        decreases n - i,
    {
        if a.get_char(i) != b.get_char(i) {
            assert(a@[i as int] != b@[i as int]);
            return false;
        }
        assert(a@.subrange(0, i + 1) =~= a@.subrange(0, i as int).push(a@[i as int]));
        assert(b@.subrange(0, i + 1) =~= b@.subrange(0, i as int).push(b@[i as int]));
        i = i + 1;
    }
    assert(a@ =~= a@.subrange(0, n as int));
    assert(b@ =~= b@.subrange(0, n as int));
    true
}

} // verus!

verus! {

/// Whether `needle` occurs in `hay` at position `i`.
pub open spec fn occurs_at(hay: Seq<char>, needle: Seq<char>, i: int) -> bool {
    0 <= i && i + needle.len() <= hay.len() && hay.subrange(i, i + needle.len()) == needle
}

/// Whether `needle` occurs anywhere in `hay`.
pub open spec fn occurs_in(hay: Seq<char>, needle: Seq<char>) -> bool {
    exists|i: int| occurs_at(hay, needle, i)
}

/// Whether `needle` occurs in `hay` at position `i`.
pub fn occurs_at_pos(hay: &str, needle: &str, i: usize) -> (r: bool)
    ensures
        r == occurs_at(hay@, needle@, i as int),
{
    let n = hay.unicode_len();
    let m = needle.unicode_len();
    if i > n || m > n - i {
        return false;
    }
    let mut k: usize = 0;
    while k < m
        invariant
            n == hay@.len(),
            m == needle@.len(),
            i + m <= n,
            k <= m,
            forall|j: int| 0 <= j < k ==> hay@[i + j] == needle@[j],
        decreases m - k,
    {
        if hay.get_char(i + k) != needle.get_char(k) {
            assert(hay@.subrange(i as int, i + m)[k as int] != needle@[k as int]);
            return false;
        }
        k = k + 1;
    }
    assert(hay@.subrange(i as int, i + m) =~= needle@);
    true
}

/// Whether `needle` occurs anywhere in `hay`.
pub fn occurs_in_str(hay: &str, needle: &str) -> (r: bool)
    ensures
        r == occurs_in(hay@, needle@),
{
    let n = hay.unicode_len();
    let mut i: usize = 0;
    while i < n
        invariant
            n == hay@.len(),
            i <= n,
            forall|j: int| 0 <= j < i ==> !occurs_at(hay@, needle@, j),
        decreases n - i,
    {
        if occurs_at_pos(hay, needle, i) {
            return true;
        }
        i = i + 1;
    }
    if occurs_at_pos(hay, needle, n) {
        return true;
    }
    assert forall|j: int| !occurs_at(hay@, needle@, j) by {
        if 0 <= j < n {
        } else if j == n {
        } else {
        }
    }
    false
}

} // verus!
