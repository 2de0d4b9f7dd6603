//! Decimal text for the `confirm-timeout` value: printing and parsing of
//! `i32` values, with the inversion lemma the codec round trip needs.
use vstd::prelude::*;
use vstd::arithmetic::div_mod::lemma_fundamental_div_mod;

verus! {

pub open spec fn is_digit(b: u8) -> bool {
    48 <= b && b <= 57
}

/// Decimal digits of `n`, most significant first.
pub open spec fn dec_digits(n: nat) -> Seq<u8>
    decreases n,
{
    if n < 10 {
        seq![(48 + n) as u8]
    } else {
        dec_digits(n / 10) + seq![(48 + n % 10) as u8]
    }
}

/// Decimal text of a signed value.
pub open spec fn enc_i32(x: int) -> Seq<u8> {
    if x < 0 {
        seq![45u8] + dec_digits((-x) as nat)
    } else {
        dec_digits(x as nat)
    }
}

/// End of the digit run that starts at `i`.
pub open spec fn digits_end(s: Seq<u8>, i: int) -> int
    decreases s.len() - i,
{
    if 0 <= i && i < s.len() && is_digit(s[i]) {
        digits_end(s, i + 1)
    } else {
        i
    }
}

/// Value of the digit run `[i, j)`.
pub open spec fn digits_val(s: Seq<u8>, i: int, j: int) -> int
    decreases j - i,
{
    if i >= j {
        0
    } else {
        digits_val(s, i, j - 1) * 10 + (s[j - 1] - 48)
    }
}

/// A decimal integer at `i`: an optional minus sign and one to ten digits,
/// within the `i32` range.
pub open spec fn parse_i32(s: Seq<u8>, i: int) -> Option<(int, int)> {
    if i < 0 || i >= s.len() {
        None
    } else if s[i] == 45 {
        let e = digits_end(s, i + 1);
        if e == i + 1 || e - (i + 1) > 10 {
            None
        } else {
            let v = digits_val(s, i + 1, e);
            if v <= 2147483648 {
                Some((-v, e))
            } else {
                None
            }
        }
    } else {
        let e = digits_end(s, i);
        if e == i || e - i > 10 {
            None
        } else {
            let v = digits_val(s, i, e);
            if v <= 2147483647 {
                Some((v, e))
            } else {
                None
            }
        }
    }
}

pub proof fn lemma_digits_end_bounds(s: Seq<u8>, i: int)
    requires
        0 <= i <= s.len(),
    ensures
        i <= digits_end(s, i) <= s.len(),
        forall|k: int| i <= k < digits_end(s, i) ==> is_digit(s[k]),
    decreases s.len() - i,
{
    if i < s.len() && is_digit(s[i]) {
        lemma_digits_end_bounds(s, i + 1);
    }
}

pub fn digits_end_exec(s: &Vec<u8>, i: usize) -> (r: usize)
    requires
        i <= s@.len(),
    ensures
        r == digits_end(s@, i as int),
        i <= r <= s@.len(),
    decreases s@.len() - i,
{
    if i < s.len() {
        let b = s[i];
        if 48 <= b && b <= 57 {
            return digits_end_exec(s, i + 1);
        }
    }
    i
}

/// Digit-run values stay below ten to the power of the run length.
proof fn lemma_digits_val_bound(s: Seq<u8>, i: int, j: int, cap: int)
    requires
        i <= j,
        forall|k: int| i <= k < j ==> is_digit(s[k]),
        j - i <= 10,
    ensures
        0 <= digits_val(s, i, j) < 10000000000,
    decreases j - i,
{
    if i < j {
        lemma_digits_val_bound(s, i, j - 1, cap);
        lemma_digits_val_small(s, i, j);
    }
}

/// A run of `d` digits is worth less than `10^d`, stated for runs up to ten.
proof fn lemma_digits_val_small(s: Seq<u8>, i: int, j: int)
    requires
        i <= j,
        forall|k: int| i <= k < j ==> is_digit(s[k]),
        j - i <= 10,
    ensures
        0 <= digits_val(s, i, j),
        j - i <= 1 ==> digits_val(s, i, j) < 10,
        j - i <= 2 ==> digits_val(s, i, j) < 100,
        j - i <= 3 ==> digits_val(s, i, j) < 1000,
        j - i <= 4 ==> digits_val(s, i, j) < 10000,
        j - i <= 5 ==> digits_val(s, i, j) < 100000,
        j - i <= 6 ==> digits_val(s, i, j) < 1000000,
        j - i <= 7 ==> digits_val(s, i, j) < 10000000,
        j - i <= 8 ==> digits_val(s, i, j) < 100000000,
        j - i <= 9 ==> digits_val(s, i, j) < 1000000000,
        j - i <= 10 ==> digits_val(s, i, j) < 10000000000,
    decreases j - i,
{
    if i < j {
        lemma_digits_val_small(s, i, j - 1);
    }
}

/// Append the decimal digits of `n` to `out`.
pub fn write_u32_digits(out: &mut Vec<u8>, n: u32)
    ensures
        final(out)@ == old(out)@ + dec_digits(n as nat),
    decreases n,
{
    if n < 10 {
        out.push(48 + n as u8);
        proof {
            assert(old(out)@ + dec_digits(n as nat) =~= old(out)@.push((48 + n as nat) as u8));
        }
    } else {
        write_u32_digits(out, n / 10);
        out.push(48 + (n % 10) as u8);
        proof {
            assert(old(out)@ + dec_digits(n as nat) =~= (old(out)@ + dec_digits((n as nat) / 10)).push(
            (48 + (n as nat) % 10) as u8));
        }
    }
}

/// Append the decimal text of `x` to `out`.
pub fn write_i32(out: &mut Vec<u8>, x: i32)
    ensures
        final(out)@ == old(out)@ + enc_i32(x as int),
{
    if x < 0 {
        out.push(45);
        let m: u32 = (-(x as i64)) as u32;
        proof {
            assert(m as nat == (-(x as int)) as nat);
        }
        write_u32_digits(out, m);
        proof {
            assert(old(out)@ + enc_i32(x as int) =~= old(out)@.push(45u8) + dec_digits(
            (-(x as int)) as nat));
        }
    } else {
        write_u32_digits(out, x as u32);
    }
}

/// Executable decimal parse; mirrors `parse_i32`.
pub fn parse_i32_exec(s: &Vec<u8>, i: usize) -> (r: Option<(i32, usize)>)
    requires
        i <= s@.len(),
    ensures
        r is Some <==> parse_i32(s@, i as int) is Some,
        r matches Some(p) ==> parse_i32(s@, i as int) == Some((p.0 as int, p.1 as int)) && i <= p.1
            <= s@.len(),
{
    if i >= s.len() {
        return None;
    }
    let neg = s[i] == 45;
    let d0: usize = if neg { i + 1 } else { i };
    let e = digits_end_exec(s, d0);
    proof {
        lemma_digits_end_bounds(s@, d0 as int);
    }
    if e == d0 || e - d0 > 10 {
        return None;
    }
    let mut acc: u64 = 0;
    let mut p: usize = d0;
    while p < e
        invariant
            d0 <= p <= e <= s@.len(),
            e - d0 <= 10,
            forall|k: int| d0 <= k < e ==> is_digit(s@[k]),
            acc as int == digits_val(s@, d0 as int, p as int),
            acc <= 9999999999,
        decreases e - p,
    {
        proof {
            lemma_digits_val_small(s@, d0 as int, p + 1);
        }
        acc = acc * 10 + ((s[p] - 48) as u64);
        p += 1;
    }
    if neg {
        if acc <= 2147483648 {
            let v: i32 = (-(acc as i64)) as i32;
            proof {
                assert(v as int == -(acc as int));
            }
            Some((v, e))
        } else {
            None
        }
    } else {
        if acc <= 2147483647 {
            Some((acc as i32, e))
        } else {
            None
        }
    }
}

proof fn lemma_dec_digits_are_digits(n: nat)
    ensures
        dec_digits(n).len() >= 1,
        forall|k: int| 0 <= k < dec_digits(n).len() ==> is_digit(#[trigger] dec_digits(n)[k]),
    decreases n,
{
    if n >= 10 {
        lemma_dec_digits_are_digits(n / 10);
    }
}

proof fn lemma_dec_digits_len(n: nat)
    ensures
        1 <= dec_digits(n).len(),
        n < 10 ==> dec_digits(n).len() <= 1,
        n < 100 ==> dec_digits(n).len() <= 2,
        n < 1000 ==> dec_digits(n).len() <= 3,
        n < 10000 ==> dec_digits(n).len() <= 4,
        n < 100000 ==> dec_digits(n).len() <= 5,
        n < 1000000 ==> dec_digits(n).len() <= 6,
        n < 10000000 ==> dec_digits(n).len() <= 7,
        n < 100000000 ==> dec_digits(n).len() <= 8,
        n < 1000000000 ==> dec_digits(n).len() <= 9,
        n < 10000000000 ==> dec_digits(n).len() <= 10,
    decreases n,
{
    if n >= 10 {
        lemma_dec_digits_len(n / 10);
    }
}

/// Digit runs that spell `n` evaluate to `n`.
proof fn lemma_digits_val_of_dec(u: Seq<u8>, i: int, n: nat)
    requires
        0 <= i,
        i + dec_digits(n).len() <= u.len(),
        u.subrange(i, i + dec_digits(n).len() as int) == dec_digits(n),
    ensures
        digits_val(u, i, i + dec_digits(n).len() as int) == n,
    decreases n,
{
    let d = dec_digits(n);
    assert(forall|k: int|
        0 <= k < d.len() ==> u[i + k] == #[trigger] d[k]) by {
        assert forall|k: int| 0 <= k < d.len() implies u[i + k] == #[trigger] d[k] by {
            assert(u.subrange(i, i + d.len() as int)[k] == d[k]);
        }
    }
    if n < 10 {
        assert(u[i + 0] == d[0]);
        assert(d[0] == (48 + n) as u8);
        assert(digits_val(u, i, i + 1) == digits_val(u, i, i) * 10 + (u[i] - 48));
    } else {
        let dp = dec_digits(n / 10);
        assert(d == dp + seq![(48 + n % 10) as u8]);
        assert(u.subrange(i, i + dp.len() as int) =~= dp) by {
            assert(forall|k: int|
                0 <= k < dp.len() ==> #[trigger] u.subrange(i, i + dp.len() as int)[k] == u[i + k]);
        }
        lemma_digits_val_of_dec(u, i, n / 10);
        let j = i + d.len() as int;
        assert(u[i + (d.len() - 1)] == d[d.len() - 1]);
        assert(d[d.len() - 1] == (48 + n % 10) as u8);
        assert(digits_val(u, i, j) == digits_val(u, i, j - 1) * 10 + (u[j - 1] - 48));
        lemma_fundamental_div_mod(n as int, 10);
    }
}

/// The digit run that spells `n` ends exactly where the digits stop.
proof fn lemma_digits_end_of_dec(u: Seq<u8>, i: int, j: int)
    requires
        0 <= i <= j <= u.len(),
        forall|k: int| i <= k < j ==> is_digit(u[k]),
        j < u.len(),
        !is_digit(u[j]),
    ensures
        digits_end(u, i) == j,
    decreases j - i,
{
    if i < j {
        lemma_digits_end_of_dec(u, i + 1, j);
    }
}

/// Inversion: the decimal text of an `i32`, followed by a non-digit byte,
/// parses back to the same value.
pub proof fn lemma_parse_enc_i32(u: Seq<u8>, i: int, x: int)
    requires
        0 <= i,
        -2147483648 <= x <= 2147483647,
        i + enc_i32(x).len() < u.len(),
        u.subrange(i, i + enc_i32(x).len() as int) == enc_i32(x),
        !is_digit(u[i + enc_i32(x).len() as int]),
    ensures
        parse_i32(u, i) == Some((x, i + enc_i32(x).len() as int)),
{
    let e = enc_i32(x);
    assert(forall|k: int|
        0 <= k < e.len() ==> u[i + k] == #[trigger] e[k]) by {
        assert forall|k: int| 0 <= k < e.len() implies u[i + k] == #[trigger] e[k] by {
            assert(u.subrange(i, i + e.len() as int)[k] == e[k]);
        }
    }
    if x < 0 {
        let n = (-x) as nat;
        let d = dec_digits(n);
        assert(e == seq![45u8] + d);
        assert(u[i + 0] == e[0]);
        assert(e[0] == 45);
        lemma_dec_digits_are_digits(n);
        lemma_dec_digits_len(n);
        assert(u.subrange(i + 1, i + 1 + d.len() as int) =~= d) by {
            assert forall|k: int| 0 <= k < d.len() implies #[trigger] u.subrange(
                i + 1,
                i + 1 + d.len() as int,
            )[k] == d[k] by {
                assert(u[i + 1 + k] == e[1 + k]);
                assert(e[1 + k] == d[k]);
            }
        }
        assert forall|k: int| i + 1 <= k < i + 1 + d.len() implies is_digit(u[k]) by {
            let q = k - i - 1;
            assert(u[i + 1 + q] == e[1 + q]);
            assert(e[1 + q] == d[q]);
            assert(is_digit(d[q]));
        }
        lemma_digits_end_of_dec(u, i + 1, i + 1 + d.len() as int);
        lemma_digits_val_of_dec(u, i + 1, n);
        assert(!is_digit(45u8));
    } else {
        let n = x as nat;
        let d = dec_digits(n);
        lemma_dec_digits_are_digits(n);
        lemma_dec_digits_len(n);
        assert(u[i + 0] == e[0]);
        assert(e[0] == d[0]);
        assert(is_digit(d[0]));
        assert(u[i] != 45);
        assert forall|k: int| i <= k < i + d.len() implies is_digit(u[k]) by {
            let q = k - i;
            assert(u[i + q] == e[q]);
            assert(e[q] == d[q]);
            assert(is_digit(d[q]));
        }
        lemma_digits_end_of_dec(u, i, i + d.len() as int);
        lemma_digits_val_of_dec(u, i, n);
    }
}

} // verus!
