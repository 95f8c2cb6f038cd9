//! Byte-level building blocks for the configuration and control-protocol
//! codec: whitespace skipping, literal tokens, and decimal numbers.
//!
//! Each parsing helper has a specification-level mirror (`sp_*`) over
//! `Seq<u8>`; the executable functions are proved to agree with the mirrors,
//! and the round-trip lemmas below relate the mirrors to the serializers.
use vstd::prelude::*;
use vstd::string::StringSliceAdditionalSpecFns;

verus! {

/// The byte sequence of a string literal, used to state codec contracts.
pub open spec fn lit(s: &str) -> Seq<u8> {
    s.spec_bytes()
}

/// JSON insignificant whitespace.
pub open spec fn is_ws(b: u8) -> bool {
    b == 32u8 || b == 9u8 || b == 10u8 || b == 13u8
}

/// ASCII decimal digit.
pub open spec fn is_digit(b: u8) -> bool {
    48u8 <= b && b <= 57u8
}

/// Index of the first non-whitespace byte at or after `i`.
pub open spec fn sp_ws(s: Seq<u8>, i: int) -> int
    decreases s.len() - i,
{
    if 0 <= i && i < s.len() && is_ws(s[i]) {
        sp_ws(s, i + 1)
    } else {
        i
    }
}

/// Matching a fixed token: the position after it, or `None` on mismatch.
pub open spec fn sp_lit(s: Seq<u8>, i: int, l: Seq<u8>) -> Option<int> {
    if 0 <= i && i + l.len() <= s.len() && s.subrange(i, i + l.len() as int) == l {
        Some(i + l.len() as int)
    } else {
        None
    }
}

/// Index of the first non-digit byte at or after `i`.
pub open spec fn num_end(s: Seq<u8>, i: int) -> int
    decreases s.len() - i,
{
    if 0 <= i && i < s.len() && is_digit(s[i]) {
        num_end(s, i + 1)
    } else {
        i
    }
}

/// Value of the decimal digits `s[i..j)`.
pub open spec fn num_val(s: Seq<u8>, i: int, j: int) -> int
    decreases j - i,
{
    if i < j {
        num_val(s, i, j - 1) * 10 + (s[j - 1] - 48)
    } else {
        0
    }
}

/// Greedy parse of an unsigned decimal number.
pub open spec fn sp_nat(s: Seq<u8>, i: int) -> Option<(int, int)> {
    if 0 <= i && i < s.len() && is_digit(s[i]) {
        Some((num_val(s, i, num_end(s, i)), num_end(s, i)))
    } else {
        None
    }
}

/// Parse of an integer: an optional leading minus sign, then digits.
pub open spec fn sp_int(s: Seq<u8>, i: int) -> Option<(int, int)> {
    if 0 <= i && i < s.len() && s[i] == 45u8 {
        match sp_nat(s, i + 1) {
            Some((v, j)) => Some((-v, j)),
            None => None,
        }
    } else {
        sp_nat(s, i)
    }
}

/// Decimal serialization of `n >= 0`.
pub open spec fn ser_nat(n: int) -> Seq<u8>
    decreases n,
{
    if n < 10 {
        seq![(48 + if n >= 0 { n } else { 0 }) as u8]
    } else {
        ser_nat(n / 10) + seq![(48 + n % 10) as u8]
    }
}

/// Decimal serialization of an integer of either sign.
pub open spec fn ser_int(n: int) -> Seq<u8> {
    if n < 0 {
        seq![45u8] + ser_nat(-n)
    } else {
        ser_nat(n)
    }
}

/// Agreement between an executable position result and its mirror.
pub open spec fn pos_match(r: Option<usize>, sp: Option<int>) -> bool {
    match (r, sp) {
        (Some(j), Some(k)) => j as int == k,
        (None, None) => true,
        _ => false,
    }
}

fn ws_byte(b: u8) -> (r: bool)
    ensures
        r == is_ws(b),
{
    b == 32 || b == 9 || b == 10 || b == 13
}

fn digit_byte(b: u8) -> (r: bool)
    ensures
        r == is_digit(b),
{
    48 <= b && b <= 57
}

/// Positions returned by `sp_ws` stay inside the input.
pub proof fn lemma_sp_ws_bounds(s: Seq<u8>, i: int)
    requires
        0 <= i <= s.len(),
    ensures
        i <= sp_ws(s, i) <= s.len(),
    decreases s.len() - i,
{
    if i < s.len() && is_ws(s[i]) {
        lemma_sp_ws_bounds(s, i + 1);
    }
}

/// Skip insignificant whitespace.
pub fn skip_ws(s: &[u8], i: usize) -> (r: usize)
    requires
        i <= s@.len(),
    ensures
        r as int == sp_ws(s@, i as int),
        i <= r <= s@.len(),
{
    let mut j: usize = i;
    while j < s.len() && ws_byte(s[j])
        invariant
            i <= j <= s@.len(),
            sp_ws(s@, i as int) == sp_ws(s@, j as int),
        decreases s@.len() - j,
    {
        j = j + 1;
    }
    j
}

/// Match a fixed token given as a string literal.
pub fn p_lit(s: &[u8], i: usize, l: &str) -> (r: Option<usize>)
    requires
        i <= s@.len(),
    ensures
        pos_match(r, sp_lit(s@, i as int, lit(l))),
        r is Some ==> i <= r->0 <= s@.len(),
{
    let lb: &[u8] = l.as_bytes();
    if s.len() - i < lb.len() {
        return None;
    }
    let n: usize = lb.len();
    let mut k: usize = 0;
    while k < n
        invariant
            0 <= k <= n,
            n == lb@.len(),
            i + n <= s@.len(),
            s@.len() <= usize::MAX,
            lb@ == lit(l),
            forall|m: int| 0 <= m < k ==> s@[i + m] == lb@[m],
        decreases n - k,
    {
        if s[i + k] != lb[k] {
            proof {
                assert(s@.subrange(i as int, i + n as int)[k as int] == s@[i + k]);
            }
            return None;
        }
        k = k + 1;
    }
    proof {
        assert(s@.subrange(i as int, i + n as int) =~= lb@);
    }
    Some(i + n)
}

/// Every byte of a digit run is a digit.
pub proof fn lemma_num_end_digits(s: Seq<u8>, i: int)
    requires
        0 <= i <= s.len(),
    ensures
        i <= num_end(s, i) <= s.len(),
        forall|k: int| i <= k < num_end(s, i) ==> is_digit(s[k]),
        num_end(s, i) == s.len() || !is_digit(s[num_end(s, i)]),
    decreases s.len() - i,
{
    if i < s.len() && is_digit(s[i]) {
        lemma_num_end_digits(s, i + 1);
    }
}

/// A run of digits closed by a non-digit ends exactly where the run does.
pub proof fn lemma_num_end_run(s: Seq<u8>, i: int, j: int)
    requires
        0 <= i <= j <= s.len(),
        forall|k: int| i <= k < j ==> is_digit(s[k]),
        j == s.len() || !is_digit(s[j]),
    ensures
        num_end(s, i) == j,
    decreases j - i,
{
    if i < j {
        lemma_num_end_run(s, i + 1, j);
    }
}

/// The value of a digit run is nonnegative.
pub proof fn lemma_num_val_nonneg(s: Seq<u8>, i: int, j: int)
    requires
        0 <= i <= j <= s.len(),
        forall|k: int| i <= k < j ==> is_digit(s[k]),
    ensures
        num_val(s, i, j) >= 0,
    decreases j - i,
{
    if i < j {
        lemma_num_val_nonneg(s, i, j - 1);
    }
}

/// Extending a digit run never shrinks its value.
pub proof fn lemma_num_val_mono(s: Seq<u8>, i: int, j: int, j2: int)
    requires
        0 <= i <= j <= j2 <= s.len(),
        forall|k: int| i <= k < j2 ==> is_digit(s[k]),
    ensures
        num_val(s, i, j) <= num_val(s, i, j2),
    decreases j2 - j,
{
    if j < j2 {
        lemma_num_val_mono(s, i, j, j2 - 1);
        lemma_num_val_nonneg(s, i, j2 - 1);
    }
}

/// Greedy parse of an unsigned decimal number, refused above `cap`.
pub fn p_nat(s: &[u8], i: usize, cap: u64) -> (r: Option<(u64, usize)>)
    requires
        i <= s@.len(),
        cap < 0x1_0000_0000,
    ensures
        match sp_nat(s@, i as int) {
            Option::None => r is None,
            Option::Some((v, j)) => {
                if v <= cap {
                    r == Some((v as u64, j as usize)) && 0 <= v && i < j <= s@.len() && j
                        <= usize::MAX
                } else {
                    r is None
                }
            },
        },
{
    proof {
        lemma_num_end_digits(s@, i as int);
    }
    if i >= s.len() || !digit_byte(s[i]) {
        return None;
    }
    let ghost e: int = num_end(s@, i as int);
    let mut pos: usize = i;
    let mut acc: u64 = 0;
    while pos < s.len() && digit_byte(s[pos])
        invariant
            i <= pos <= s@.len(),
            pos <= e <= s@.len(),
            e == num_end(s@, i as int),
            forall|k: int| i <= k < e ==> is_digit(s@[k]),
            e == s@.len() || !is_digit(s@[e]),
            acc as int == num_val(s@, i as int, pos as int),
            acc <= cap,
            cap < 0x1_0000_0000,
        decreases s@.len() - pos,
    {
        proof {
            assert(pos as int != e);
        }
        let d: u64 = (s[pos] - 48) as u64;
        let next: u64 = 10 * acc + d;
        if next > cap {
            proof {
                lemma_num_val_mono(s@, i as int, pos + 1, e);
                assert(num_val(s@, i as int, pos + 1) == acc as int * 10 + d);
            }
            return None;
        }
        acc = next;
        pos = pos + 1;
    }
    proof {
        lemma_num_end_run(s@, i as int, pos as int);
    }
    Some((acc, pos))
}

/// Parse of an integer with separate magnitude caps for each sign.
pub fn p_int(s: &[u8], i: usize, cap_pos: u64, cap_neg: u64) -> (r: Option<(i64, usize)>)
    requires
        i <= s@.len(),
        cap_pos < 0x1_0000_0000,
        cap_neg < 0x1_0000_0000,
    ensures
        match sp_int(s@, i as int) {
            Option::None => r is None,
            Option::Some((v, j)) => {
                if -(cap_neg as int) <= v <= cap_pos as int {
                    r == Some((v as i64, j as usize)) && -(cap_neg as int) <= v <= cap_pos as int
                        && i < j <= s@.len() && j <= usize::MAX
                } else {
                    r is None
                }
            },
        },
{
    if i < s.len() && s[i] == 45 {
        match p_nat(s, i + 1, cap_neg) {
            Some((v, j)) => {
                proof {
                    if sp_nat(s@, i + 1) is Some {
                        lemma_num_end_digits(s@, i + 1);
                        lemma_num_val_nonneg(s@, i + 1, num_end(s@, i + 1));
                    }
                }
                Some((-(v as i64), j))
            },
            None => None,
        }
    } else {
        match p_nat(s, i, cap_pos) {
            Some((v, j)) => {
                proof {
                    if sp_nat(s@, i as int) is Some {
                        lemma_num_end_digits(s@, i as int);
                        lemma_num_val_nonneg(s@, i as int, num_end(s@, i as int));
                    }
                }
                Some((v as i64, j))
            },
            None => None,
        }
    }
}

/// Append the bytes of a literal token.
pub fn push_lit(out: &mut Vec<u8>, l: &str)
    ensures
        final(out)@ == old(out)@ + lit(l),
{
    let lb: &[u8] = l.as_bytes();
    let mut k: usize = 0;
    while k < lb.len()
        invariant
            0 <= k <= lb@.len(),
            lb@ == lit(l),
            out@ == old(out)@ + lb@.subrange(0, k as int),
        decreases lb@.len() - k,
    {
        out.push(lb[k]);
        proof {
            assert(old(out)@ + lb@.subrange(0, k as int) + seq![lb@[k as int]] =~= old(out)@
                + lb@.subrange(0, k + 1));
        }
        k = k + 1;
    }
    proof {
        assert(lb@.subrange(0, lb@.len() as int) =~= lb@);
    }
}

/// Every byte that `ser_nat` emits is a digit.
pub proof fn lemma_ser_nat_digits(n: int)
    requires
        n >= 0,
    ensures
        ser_nat(n).len() >= 1,
        forall|k: int| 0 <= k < ser_nat(n).len() ==> is_digit(ser_nat(n)[k]),
    decreases n,
{
    if n >= 10 {
        lemma_ser_nat_digits(n / 10);
    }
}

/// Append the decimal form of `n`.
pub fn push_nat(out: &mut Vec<u8>, n: u64)
    ensures
        final(out)@ == old(out)@ + ser_nat(n as int),
    decreases n,
{
    if n < 10 {
        out.push(48 + n as u8);
        proof {
            assert(out@ =~= old(out)@ + ser_nat(n as int));
        }
    } else {
        push_nat(out, n / 10);
        out.push(48 + (n % 10) as u8);
        proof {
            assert(out@ =~= old(out)@ + ser_nat(n as int));
        }
    }
}

/// Append the decimal form of `n`, with a minus sign when negative.
pub fn push_int(out: &mut Vec<u8>, n: i64)
    requires
        n > i64::MIN,
    ensures
        final(out)@ == old(out)@ + ser_int(n as int),
{
    if n < 0 {
        out.push(45);
        push_nat(out, (-n) as u64);
        proof {
            assert(old(out)@ + seq![45u8] + ser_nat(-(n as int)) =~= old(out)@ + ser_int(
                n as int,
            ));
        }
    } else {
        push_nat(out, n as u64);
    }
}

/// A token parse succeeds on input that carries the token.
pub proof fn lemma_sp_lit_ser(s: Seq<u8>, i: int, l: Seq<u8>)
    requires
        0 <= i,
        i + l.len() <= s.len(),
        s.subrange(i, i + l.len() as int) == l,
    ensures
        sp_lit(s, i, l) == Some(i + l.len() as int),
{
}

/// A token parse fails where the input carries a token that differs at `k`.
pub proof fn lemma_lit_mismatch(s: Seq<u8>, i: int, a: Seq<u8>, b: Seq<u8>, k: int)
    requires
        0 <= k < a.len(),
        k < b.len(),
        a[k] != b[k],
        0 <= i,
        i + b.len() <= s.len(),
        s.subrange(i, i + b.len() as int) == b,
    ensures
        sp_lit(s, i, a) == None::<int>,
{
    if i + a.len() <= s.len() && s.subrange(i, i + a.len() as int) == a {
        assert(s.subrange(i, i + a.len() as int)[k] == s[i + k]);
        assert(s.subrange(i, i + b.len() as int)[k] == s[i + k]);
        assert(false);
    }
}

/// A piece of a matched window is itself a matched window.
pub proof fn lemma_subrange_split(s: Seq<u8>, i: int, a: Seq<u8>, off: int, part: Seq<u8>)
    requires
        0 <= i,
        i + a.len() <= s.len(),
        s.subrange(i, i + a.len() as int) == a,
        0 <= off,
        off + part.len() <= a.len(),
        a.subrange(off, off + part.len() as int) == part,
    ensures
        s.subrange(i + off, i + off + part.len() as int) == part,
{
    assert forall|k: int| 0 <= k < part.len() implies s.subrange(
        i + off,
        i + off + part.len() as int,
    )[k] == part[k] by {
        assert(s.subrange(i, i + a.len() as int)[off + k] == s[i + off + k]);
        assert(a.subrange(off, off + part.len() as int)[k] == a[off + k]);
    }
    assert(s.subrange(i + off, i + off + part.len() as int) =~= part);
}

/// Skipping whitespace does not move off a non-whitespace byte.
pub proof fn lemma_sp_ws_noop(s: Seq<u8>, i: int)
    requires
        0 <= i,
        i == s.len() || !is_ws(s[i]),
    ensures
        sp_ws(s, i) == i,
{
}

/// Parsing the serialized form of a number yields the number back, provided
/// no digit follows the window.
pub proof fn lemma_sp_nat_ser(s: Seq<u8>, i: int, n: int)
    requires
        n >= 0,
        0 <= i,
        i + ser_nat(n).len() <= s.len(),
        s.subrange(i, i + ser_nat(n).len() as int) == ser_nat(n),
        i + ser_nat(n).len() == s.len() || !is_digit(s[i + ser_nat(n).len()]),
    ensures
        sp_nat(s, i) == Some((n, i + ser_nat(n).len() as int)),
    decreases n,
{
    let l: int = ser_nat(n).len() as int;
    lemma_ser_nat_digits(n);
    assert forall|k: int| i <= k < i + l implies is_digit(s[k]) by {
        assert(s.subrange(i, i + l)[k - i] == s[k]);
    }
    lemma_num_end_run(s, i, i + l);
    lemma_num_val_ser(s, i, n);
}

/// The digits of `ser_nat(n)` read back as the value `n`.
pub proof fn lemma_num_val_ser(s: Seq<u8>, i: int, n: int)
    requires
        n >= 0,
        0 <= i,
        i + ser_nat(n).len() <= s.len(),
        s.subrange(i, i + ser_nat(n).len() as int) == ser_nat(n),
    ensures
        num_val(s, i, i + ser_nat(n).len() as int) == n,
    decreases n,
{
    let l: int = ser_nat(n).len() as int;
    if n < 10 {
        assert(s.subrange(i, i + l)[0] == s[i]);
        assert(s[i] == (48 + n) as u8);
        assert(num_val(s, i, i + 1) == num_val(s, i, i) * 10 + (s[i] - 48));
        assert(s[i] - 48 == n);
    } else {
        let lp: int = ser_nat(n / 10).len() as int;
        assert(ser_nat(n) == ser_nat(n / 10) + seq![(48 + n % 10) as u8]);
        assert(l == lp + 1);
        assert(ser_nat(n).subrange(0, lp) =~= ser_nat(n / 10));
        lemma_subrange_split(s, i, ser_nat(n), 0, ser_nat(n / 10));
        lemma_num_val_ser(s, i, n / 10);
        assert(s.subrange(i, i + l)[l - 1] == s[i + l - 1]);
        assert(ser_nat(n)[l - 1] == (48 + n % 10) as u8);
        assert(s[i + l - 1] == (48 + n % 10) as u8);
        assert(num_val(s, i, i + l) == num_val(s, i, i + l - 1) * 10 + (s[i + l - 1] - 48));
        assert(s[i + l - 1] - 48 == n % 10);
        assert(n / 10 * 10 + n % 10 == n);
    }
}

/// Parsing the serialized form of an integer yields the integer back.
pub proof fn lemma_sp_int_ser(s: Seq<u8>, i: int, n: int)
    requires
        0 <= i,
        i + ser_int(n).len() <= s.len(),
        s.subrange(i, i + ser_int(n).len() as int) == ser_int(n),
        i + ser_int(n).len() == s.len() || !is_digit(s[i + ser_int(n).len()]),
    ensures
        sp_int(s, i) == Some((n, i + ser_int(n).len() as int)),
{
    if n < 0 {
        assert(ser_int(n) == seq![45u8] + ser_nat(-n));
        assert(s.subrange(i, i + ser_int(n).len() as int)[0] == s[i]);
        assert(s[i] == 45u8);
        assert(ser_int(n).subrange(1, ser_int(n).len() as int) =~= ser_nat(-n));
        lemma_subrange_split(s, i, ser_int(n), 1, ser_nat(-n));
        lemma_sp_nat_ser(s, i + 1, -n);
    } else {
        assert(ser_int(n) == ser_nat(n));
        lemma_sp_nat_ser(s, i, n);
        lemma_ser_nat_digits(n);
        assert(s.subrange(i, i + ser_int(n).len() as int)[0] == s[i]);
        assert(s[i] != 45u8);
    }
}


/// Concatenation of byte sequences is associative.
pub proof fn lemma_add_assoc(a: Seq<u8>, b: Seq<u8>, c: Seq<u8>)
    ensures
        a + (b + c) == (a + b) + c,
{
    assert(a + (b + c) =~= (a + b) + c);
}

/// A window that matches a two-part concatenation splits into a window
/// for each part.
pub proof fn lemma_concat_window(s: Seq<u8>, i: int, a: Seq<u8>, b: Seq<u8>)
    requires
        0 <= i,
        i + a.len() + b.len() <= s.len(),
        s.subrange(i, i + a.len() + b.len()) == a + b,
    ensures
        s.subrange(i, i + a.len() as int) == a,
        s.subrange(i + a.len() as int, i + a.len() + b.len()) == b,
{
    assert forall|k: int| 0 <= k < a.len() implies s.subrange(i, i + a.len() as int)[k] == a[k] by {
        assert(s.subrange(i, i + a.len() + b.len())[k] == s[i + k]);
    }
    assert(s.subrange(i, i + a.len() as int) =~= a);
    assert forall|k: int| 0 <= k < b.len() implies s.subrange(
        i + a.len() as int,
        i + a.len() + b.len(),
    )[k] == b[k] by {
        assert(s.subrange(i, i + a.len() + b.len())[a.len() + k] == s[i + a.len() + k]);
    }
    assert(s.subrange(i + a.len() as int, i + a.len() + b.len()) =~= b);
}

} // verus!
