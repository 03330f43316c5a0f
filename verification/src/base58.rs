//! Base58 with the Bitcoin alphabet, by exact big-number conversion.
use crate::text;
use vstd::prelude::*;
use vstd::string::*;

verus! {

/// The number whose little-endian digits are given.
pub open spec fn number(digits: Seq<int>, base: int) -> int
    decreases digits.len(),
{
    if digits.len() == 0 {
        0
    } else {
        digits[0] + base * number(digits.drop_first(), base)
    }
}

/// The little-endian digits of a number, without leading zeros.
pub open spec fn digits_of(n: int, base: int) -> Seq<int>
    decreases n,
    when base >= 2
{
    if n <= 0 {
        Seq::empty()
    } else {
        proof {
            assert(0 <= n / base < n) by (nonlinear_arith)
                requires
                    n > 0,
                    base >= 2,
            ;
        }
        seq![n % base] + digits_of(n / base, base)
    }
}

/// Whether digits are in range and do not end in a leading zero.
pub open spec fn minimal(digits: Seq<int>, base: int) -> bool {
    &&& forall|i: int| 0 <= i < digits.len() ==> 0 <= #[trigger] digits[i] < base
    &&& digits.len() > 0 ==> digits.last() > 0
}

proof fn lemma_number_nonneg(d: Seq<int>, base: int)
    requires
        base >= 2,
        forall|i: int| 0 <= i < d.len() ==> 0 <= #[trigger] d[i] < base,
    ensures
        number(d, base) >= 0,
    decreases d.len(),
{
    if d.len() > 0 {
        let rest = d.drop_first();
        assert forall|i: int| 0 <= i < rest.len() implies 0 <= #[trigger] rest[i] < base by {
            assert(rest[i] == d[i + 1]);
        }
        lemma_number_nonneg(rest, base);
        assert(base * number(rest, base) >= 0) by (nonlinear_arith)
            requires
                base >= 2,
                number(rest, base) >= 0,
        ;
    }
}

proof fn lemma_digits_number(n: int, base: int)
    requires
        base >= 2,
        n >= 0,
    ensures
        number(digits_of(n, base), base) == n,
        minimal(digits_of(n, base), base),
    decreases n,
{
    if n > 0 {
        let q = n / base;
        assert(0 <= q < n && 0 <= n % base < base && n == base * q + n % base) by (nonlinear_arith)
            requires
                n > 0,
                base >= 2,
                q == n / base,
        ;
        lemma_digits_number(q, base);
        let d = digits_of(n, base);
        let rest = digits_of(q, base);
        assert(d.drop_first() =~= rest);
        assert forall|i: int| 0 <= i < d.len() implies 0 <= #[trigger] d[i] < base by {
            if i > 0 {
                assert(d[i] == rest[i - 1]);
            }
        }
        if rest.len() > 0 {
            assert(d.last() == rest.last());
        } else {
            assert(q == 0);
            assert(d.last() == n % base);
        }
    }
}

proof fn lemma_digits_unique(d: Seq<int>, base: int)
    requires
        base >= 2,
        minimal(d, base),
    ensures
        digits_of(number(d, base), base) == d,
        d.len() > 0 ==> number(d, base) > 0,
    decreases d.len(),
{
    if d.len() == 0 {
        assert(d =~= Seq::<int>::empty());
    } else {
        let rest = d.drop_first();
        assert forall|i: int| 0 <= i < rest.len() implies 0 <= #[trigger] rest[i] < base by {
            assert(rest[i] == d[i + 1]);
        }
        if rest.len() > 0 {
            assert(rest.last() == d.last());
        }
        lemma_digits_unique(rest, base);
        lemma_number_nonneg(rest, base);
        let v = number(rest, base);
        let n = number(d, base);
        assert(0 <= d[0] < base);
        if rest.len() == 0 {
            assert(d[0] == d.last());
            assert(v == 0);
            assert(base * v == 0) by (nonlinear_arith)
                requires
                    v == 0,
            ;
        } else {
            assert(base * v > 0) by (nonlinear_arith)
                requires
                    v > 0,
                    base >= 2,
            ;
        }
        assert(n % base == d[0] && n / base == v) by (nonlinear_arith)
            requires
                n == d[0] + base * v,
                0 <= d[0] < base,
                base >= 2,
        ;
        assert(d =~= seq![d[0]] + rest);
    }
}

/// Multiplies by `mult`, digit by digit, starting from a carry.
pub open spec fn scaled(d: Seq<int>, carry: int, base: int, mult: int) -> Seq<int>
    decreases d.len(),
{
    if d.len() == 0 {
        digits_of(carry, base)
    } else {
        seq![(carry + d[0] * mult) % base] + scaled(
            d.drop_first(),
            (carry + d[0] * mult) / base,
            base,
            mult,
        )
    }
}

proof fn lemma_scaled(d: Seq<int>, carry: int, base: int, mult: int)
    requires
        base >= 2,
        mult >= 2,
        carry >= 0,
        minimal(d, base),
    ensures
        number(scaled(d, carry, base, mult), base) == number(d, base) * mult + carry,
        forall|i: int|
            0 <= i < scaled(d, carry, base, mult).len() ==> 0 <= #[trigger] scaled(
                d,
                carry,
                base,
                mult,
            )[i] < base,
    decreases d.len(),
{
    if d.len() == 0 {
        lemma_digits_number(carry, base);
        assert(0 * mult == 0);
    } else {
        let rest = d.drop_first();
        assert forall|i: int| 0 <= i < rest.len() implies 0 <= #[trigger] rest[i] < base by {
            assert(rest[i] == d[i + 1]);
        }
        if rest.len() > 0 {
            assert(rest.last() == d.last());
        }
        let x = carry + d[0] * mult;
        let q = x / base;
        assert(0 <= d[0]);
        assert(x >= 0 && q >= 0 && 0 <= x % base < base && x == base * q + x % base)
            by (nonlinear_arith)
            requires
                x == carry + d[0] * mult,
                d[0] >= 0,
                mult >= 2,
                carry >= 0,
                base >= 2,
                q == x / base,
        ;
        lemma_scaled(rest, q, base, mult);
        let s = scaled(d, carry, base, mult);
        let t = scaled(rest, q, base, mult);
        assert(s.drop_first() =~= t);
        let v = number(rest, base);
        assert(x % base + base * (v * mult + q) == (d[0] + base * v) * mult + carry)
            by (nonlinear_arith)
            requires
                x == base * q + x % base,
                x == carry + d[0] * mult,
        ;
        assert forall|i: int| 0 <= i < s.len() implies 0 <= #[trigger] s[i] < base by {
            if i > 0 {
                assert(s[i] == t[i - 1]);
            }
        }
    }
}

/// Whether the last digit of a scaled number is not zero.
proof fn lemma_scaled_top(d: Seq<int>, carry: int, base: int, mult: int)
    requires
        base >= 2,
        mult >= 2,
        carry >= 0,
        forall|i: int| 0 <= i < d.len() ==> 0 <= #[trigger] d[i] < base,
        d.len() > 0 ==> d.last() > 0,
    ensures
        scaled(d, carry, base, mult).len() > 0 ==> scaled(d, carry, base, mult).last() > 0,
        d.len() > 0 ==> scaled(d, carry, base, mult).len() > 0,
    decreases d.len(),
{
    if d.len() == 0 {
        lemma_digits_number(carry, base);
    } else {
        let rest = d.drop_first();
        assert forall|i: int| 0 <= i < rest.len() implies 0 <= #[trigger] rest[i] < base by {
            assert(rest[i] == d[i + 1]);
        }
        if rest.len() > 0 {
            assert(rest.last() == d.last());
        }
        let x = carry + d[0] * mult;
        let q = x / base;
        assert(x >= 0 && q >= 0 && 0 <= x % base && x == base * q + x % base) by (nonlinear_arith)
            requires
                x == carry + d[0] * mult,
                0 <= d[0],
                mult >= 2,
                carry >= 0,
                base >= 2,
                q == x / base,
        ;
        lemma_scaled_top(rest, q, base, mult);
        let s = scaled(d, carry, base, mult);
        let t = scaled(rest, q, base, mult);
        if t.len() > 0 {
            assert(s.last() == t.last());
        } else {
            assert(rest.len() == 0);
            lemma_digits_number(q, base);
            assert(q == 0);
            assert(s.last() == x % base);
            assert(x > 0) by (nonlinear_arith)
                requires
                    x == carry + d[0] * mult,
                    d[0] > 0,
                    mult >= 2,
                    carry >= 0,
            ;
            assert(base * q == 0) by (nonlinear_arith)
                requires
                    q == 0,
            ;
        }
    }
}

/// The big-endian number of a byte string or digit string.
pub open spec fn big(s: Seq<int>, base: int) -> int
    decreases s.len(),
{
    if s.len() == 0 {
        0
    } else {
        big(s.drop_last(), base) * base + s.last()
    }
}

proof fn lemma_big_reverse(s: Seq<int>, base: int)
    ensures
        big(s, base) == number(s.reverse(), base),
    decreases s.len(),
{
    if s.len() > 0 {
        lemma_big_reverse(s.drop_last(), base);
        assert(s.reverse().drop_first() =~= s.drop_last().reverse());
        assert(s.reverse()[0] == s.last());
        let n = big(s.drop_last(), base);
        assert(n * base + s.last() == s.last() + base * n) by (nonlinear_arith);
    }
}

proof fn lemma_big_leading_zeros(z: nat, s: Seq<int>, base: int)
    ensures
        big(Seq::new(z, |i: int| 0int) + s, base) == big(s, base),
    decreases s.len(), z,
{
    let zs = Seq::new(z, |i: int| 0int);
    let whole = zs + s;
    if s.len() > 0 {
        assert(whole.drop_last() =~= zs + s.drop_last());
        assert(whole.last() == s.last());
        lemma_big_leading_zeros(z, s.drop_last(), base);
    } else if z > 0 {
        let fewer = Seq::new((z - 1) as nat, |i: int| 0int);
        assert(whole.drop_last() =~= fewer + s);
        assert(whole.last() == 0);
        lemma_big_leading_zeros((z - 1) as nat, s, base);
        assert(0 * base == 0);
    }
}

/// The number of leading zeros.
pub open spec fn zeros(s: Seq<int>) -> nat
    decreases s.len(),
{
    if s.len() > 0 && s[0] == 0 {
        1 + zeros(s.drop_first())
    } else {
        0
    }
}

proof fn lemma_zeros(s: Seq<int>)
    ensures
        zeros(s) <= s.len(),
        forall|i: int| 0 <= i < zeros(s) ==> #[trigger] s[i] == 0,
        zeros(s) < s.len() ==> s[zeros(s) as int] != 0,
    decreases s.len(),
{
    if s.len() > 0 && s[0] == 0 {
        let rest = s.drop_first();
        lemma_zeros(rest);
        assert forall|i: int| 0 <= i < zeros(s) implies #[trigger] s[i] == 0 by {
            if i > 0 {
                assert(s[i] == rest[i - 1]);
            }
        }
        if zeros(s) < s.len() {
            assert(s[zeros(s) as int] == rest[zeros(rest) as int]);
        }
    }
}

proof fn lemma_zeros_prefix(z: nat, s: Seq<int>)
    requires
        s.len() > 0 ==> s[0] != 0,
    ensures
        zeros(Seq::new(z, |i: int| 0int) + s) == z,
    decreases z,
{
    let whole = Seq::new(z, |i: int| 0int) + s;
    if z > 0 {
        assert(whole.drop_first() =~= Seq::new((z - 1) as nat, |i: int| 0int) + s);
        lemma_zeros_prefix((z - 1) as nat, s);
    } else {
        assert(whole =~= s);
    }
}

/// Rewrites a digit string in another base: each leading zero is kept as one
/// leading zero, and the rest stands for the same number.
pub open spec fn rebase(s: Seq<int>, from: int, to: int) -> Seq<int> {
    Seq::new(zeros(s), |i: int| 0int) + digits_of(big(s, from), to).reverse()
}

proof fn lemma_big_nonneg(s: Seq<int>, base: int)
    requires
        base >= 2,
        forall|i: int| 0 <= i < s.len() ==> 0 <= #[trigger] s[i] < base,
    ensures
        big(s, base) >= 0,
    decreases s.len(),
{
    if s.len() > 0 {
        lemma_big_nonneg(s.drop_last(), base);
        assert(big(s.drop_last(), base) * base >= 0) by (nonlinear_arith)
            requires
                big(s.drop_last(), base) >= 0,
                base >= 2,
        ;
    }
}

/// Rewriting in another base and back gives the digit string back.
pub proof fn lemma_rebase_roundtrip(s: Seq<int>, from: int, to: int)
    requires
        from >= 2,
        to >= 2,
        forall|i: int| 0 <= i < s.len() ==> 0 <= #[trigger] s[i] < from,
    ensures
        rebase(rebase(s, from, to), to, from) == s,
        forall|i: int|
            0 <= i < rebase(s, from, to).len() ==> 0 <= #[trigger] rebase(s, from, to)[i] < to,
{
    let n = big(s, from);
    lemma_big_nonneg(s, from);
    lemma_digits_number(n, to);
    let d = digits_of(n, to);
    let z = zeros(s);
    let t = rebase(s, from, to);
    let core = d.reverse();
    // The middle form stands for the same number with the same leading zeros.
    if d.len() > 0 {
        assert(core[0] == d.last());
    }
    lemma_zeros_prefix(z, core);
    assert(zeros(t) == z);
    lemma_big_leading_zeros(z, core, to);
    lemma_big_reverse(core, to);
    assert(core.reverse() =~= d);
    assert(big(t, to) == n);
    // The input is its leading zeros followed by the minimal form of `n`.
    lemma_zeros(s);
    let body = s.subrange(z as int, s.len() as int);
    assert(s =~= Seq::new(z, |i: int| 0int) + body);
    lemma_big_leading_zeros(z, body, from);
    lemma_big_reverse(body, from);
    let back = body.reverse();
    assert forall|i: int| 0 <= i < back.len() implies 0 <= #[trigger] back[i] < from by {
        assert(back[i] == s[s.len() - 1 - i]);
    }
    if back.len() > 0 {
        assert(back.last() == s[z as int]);
    }
    lemma_digits_unique(back, from);
    assert(digits_of(n, from) == back);
    assert(back.reverse() =~= body);
    assert forall|i: int| 0 <= i < t.len() implies 0 <= #[trigger] t[i] < to by {
        if i >= z {
            assert(t[i] == core[i - z]);
            assert(core[i - z] == d[d.len() - 1 - (i - z)]);
        }
    }
}

/// The bytes of a sequence as numbers.
pub open spec fn ints(s: Seq<u8>) -> Seq<int> {
    Seq::new(s.len(), |i: int| s[i] as int)
}

/// The numbers of a sequence as bytes.
pub open spec fn octets(s: Seq<int>) -> Seq<u8> {
    Seq::new(s.len(), |i: int| s[i] as u8)
}

/// Multiplies little-endian digits in place and adds a carry.
fn scale_in(digits: &mut Vec<u8>, base: u32, mult: u32, add: u32)
    requires
        2 <= base <= 256,
        2 <= mult <= 256,
        add < mult,
        minimal(ints(old(digits)@), base as int),
    ensures
        minimal(ints(final(digits)@), base as int),
        number(ints(final(digits)@), base as int) == number(ints(old(digits)@), base as int) * mult
            + add,
{
    let ghost b = base as int;
    let ghost m = mult as int;
    let ghost before = ints(digits@);
    let n = digits.len();
    let mut carry: u32 = add;
    let mut i: usize = 0;
    proof {
        assert(before.subrange(0, before.len() as int) =~= before);
        assert(Seq::<int>::empty() + scaled(before, add as int, b, m) =~= scaled(
            before,
            add as int,
            b,
            m,
        ));
        assert(ints(digits@).subrange(0, 0) =~= Seq::<int>::empty());
    }
    while i < n
        invariant
            i <= n,
            n == digits@.len(),
            before.len() == n,
            b == base,
            m == mult,
            2 <= base <= 256,
            2 <= mult <= 256,
            carry < mult,
            minimal(before, b),
            forall|j: int| i <= j < n ==> ints(digits@)[j] == before[j],
            ints(digits@).subrange(0, i as int) + scaled(
                before.subrange(i as int, n as int),
                carry as int,
                b,
                m,
            ) == scaled(before, add as int, b, m),
        decreases n - i,
    {
        let d: u8 = digits[i];
        let ghost rest = before.subrange(i as int, n as int);
        let ghost done = ints(digits@).subrange(0, i as int);
        assert(ints(digits@)[i as int] == before[i as int]);
        assert(0 <= before[i as int] < b);
        assert(d * mult <= 255 * 256 && carry + d * mult < base * mult) by (nonlinear_arith)
            requires
                d < base,
                carry < mult,
                base <= 256,
                mult <= 256,
        ;
        let x: u32 = carry + (d as u32) * mult;
        let low: u32 = x % base;
        let high: u32 = x / base;
        assert(high < mult) by (nonlinear_arith)
            requires
                x < base * mult,
                high == x / base,
                base >= 2,
        ;
        digits.set(i, low as u8);
        proof {
            assert(rest[0] == d);
            assert(rest.drop_first() =~= before.subrange(i + 1, n as int));
            let tail = scaled(before.subrange(i + 1, n as int), high as int, b, m);
            assert(scaled(rest, carry as int, b, m) == seq![low as int] + tail);
            assert(ints(digits@).subrange(0, i + 1) =~= done.push(low as int));
            assert(done.push(low as int) + tail =~= done + (seq![low as int] + tail));
        }
        carry = high;
        i = i + 1;
    }
    proof {
        assert(before.subrange(n as int, n as int) =~= Seq::<int>::empty());
        assert(ints(digits@).subrange(0, n as int) =~= ints(digits@));
    }
    while carry > 0
        invariant
            2 <= base <= 256,
            b == base,
            carry < 256,
            ints(digits@) + digits_of(carry as int, b) == scaled(before, add as int, b, m),
        decreases carry,
    {
        let low: u32 = carry % base;
        let high: u32 = carry / base;
        assert(high < carry) by (nonlinear_arith)
            requires
                high == carry / base,
                carry > 0,
                base >= 2,
        ;
        let ghost held = ints(digits@);
        digits.push(low as u8);
        proof {
            assert(ints(digits@) =~= held.push(low as int));
            let tail = digits_of(high as int, b);
            assert(digits_of(carry as int, b) == seq![low as int] + tail);
            assert(held.push(low as int) + tail =~= held + (seq![low as int] + tail));
        }
        carry = high;
    }
    proof {
        assert(ints(digits@) + Seq::<int>::empty() =~= ints(digits@));
        lemma_scaled(before, add as int, b, m);
        lemma_scaled_top(before, add as int, b, m);
    }
}

/// Rewrites a digit string in another base.
fn rebase_digits(s: &[u8], from: u32, to: u32) -> (r: Vec<u8>)
    requires
        2 <= from <= 256,
        2 <= to <= 256,
        forall|i: int| 0 <= i < s@.len() ==> (#[trigger] s@[i]) < from,
    ensures
        ints(r@) == rebase(ints(s@), from as int, to as int),
{
    let ghost whole = ints(s@);
    let mut digits: Vec<u8> = Vec::new();
    let mut i: usize = 0;
    while i < s.len()
        invariant
            i <= s@.len(),
            whole == ints(s@),
            2 <= from <= 256,
            2 <= to <= 256,
            forall|j: int| 0 <= j < s@.len() ==> (#[trigger] s@[j]) < from,
            minimal(ints(digits@), to as int),
            number(ints(digits@), to as int) == big(whole.subrange(0, i as int), from as int),
        decreases s@.len() - i,
    {
        let b: u8 = s[i];
        scale_in(&mut digits, to, from, b as u32);
        proof {
            let upto = whole.subrange(0, i + 1);
            assert(upto.drop_last() =~= whole.subrange(0, i as int));
            assert(upto.last() == b);
        }
        i = i + 1;
    }
    proof {
        assert(whole.subrange(0, whole.len() as int) =~= whole);
        lemma_digits_unique(ints(digits@), to as int);
        lemma_zeros(whole);
    }
    let mut r: Vec<u8> = Vec::new();
    let mut z: usize = 0;
    proof {
        assert(whole.subrange(0, whole.len() as int) =~= whole);
    }
    while z < s.len() && s[z] == 0
        invariant
            z <= s@.len(),
            whole == ints(s@),
            r@.len() == z,
            z <= zeros(whole) <= s@.len(),
            zeros(whole) < s@.len() ==> whole[zeros(whole) as int] != 0,
            forall|j: int| 0 <= j < zeros(whole) ==> #[trigger] whole[j] == 0,
            forall|j: int| 0 <= j < z ==> r@[j] == 0,
        decreases s@.len() - z,
    {
        assert(whole[z as int] == 0);
        r.push(0);
        z = z + 1;
    }
    proof {
        if z < s@.len() {
            assert(whole[z as int] != 0);
        }
        assert(z == zeros(whole));
    }
    let ghost head = r@;
    let mut k: usize = digits.len();
    while k > 0
        invariant
            k <= digits@.len(),
            r@.len() == z + (digits@.len() - k),
            forall|j: int| 0 <= j < z ==> r@[j] == 0,
            forall|j: int| z <= j < r@.len() ==> r@[j] == digits@[digits@.len() - 1 - (j - z)],
        decreases k,
    {
        k = k - 1;
        r.push(digits[k]);
    }
    assert(ints(r@) =~= rebase(whole, from as int, to as int));
    r
}

/// The character of a digit below fifty-eight.
pub open spec fn digit_char(d: int) -> char {
    if d < 9 {
        (49 + d) as char
    } else if d < 17 {
        (65 + (d - 9)) as char
    } else if d < 22 {
        (74 + (d - 17)) as char
    } else if d < 33 {
        (80 + (d - 22)) as char
    } else if d < 44 {
        (97 + (d - 33)) as char
    } else {
        (109 + (d - 44)) as char
    }
}

/// The digit of a character of the alphabet
/// `123456789ABCDEFGHJKLMNPQRSTUVWXYZabcdefghijkmnopqrstuvwxyz`.
pub open spec fn char_digit(c: char) -> Option<int> {
    let n = c as int;
    if 49 <= n <= 57 {
        Some(n - 49)
    } else if 65 <= n <= 72 {
        Some(n - 65 + 9)
    } else if 74 <= n <= 78 {
        Some(n - 74 + 17)
    } else if 80 <= n <= 90 {
        Some(n - 80 + 22)
    } else if 97 <= n <= 107 {
        Some(n - 97 + 33)
    } else if 109 <= n <= 122 {
        Some(n - 109 + 44)
    } else {
        None
    }
}

fn to_char(d: u8) -> (c: char)
    requires
        d < 58,
    ensures
        c == digit_char(d as int),
{
    let code: u8 = if d < 9 {
        49 + d
    } else if d < 17 {
        65 + (d - 9)
    } else if d < 22 {
        74 + (d - 17)
    } else if d < 33 {
        80 + (d - 22)
    } else if d < 44 {
        97 + (d - 33)
    } else {
        109 + (d - 44)
    };
    code as char
}

fn to_digit(c: char) -> (r: Option<u8>)
    ensures
        match r {
            Some(d) => char_digit(c) == Some(d as int) && d < 58,
            None => char_digit(c) is None,
        },
{
    if c < '1' || c > 'z' {
        return None;
    }
    let n: u8 = c as u8;
    if n <= 57 {
        Some(n - 49)
    } else if 65 <= n && n <= 72 {
        Some(n - 65 + 9)
    } else if 74 <= n && n <= 78 {
        Some(n - 74 + 17)
    } else if 80 <= n && n <= 90 {
        Some(n - 80 + 22)
    } else if 97 <= n && n <= 107 {
        Some(n - 97 + 33)
    } else if 109 <= n {
        Some(n - 109 + 44)
    } else {
        None
    }
}

/// The Base58 text of a byte string.
pub open spec fn encoded(bytes: Seq<u8>) -> Seq<char> {
    let d = rebase(ints(bytes), 256, 58);
    Seq::new(d.len(), |i: int| digit_char(d[i]))
}

/// Whether `i` is the first character outside the alphabet.
pub open spec fn first_foreign(text: Seq<char>, i: int) -> bool {
    &&& 0 <= i < text.len()
    &&& char_digit(text[i]) is None
    &&& forall|j: int| 0 <= j < i ==> char_digit(#[trigger] text[j]) is Some
}

/// Whether every character belongs to the alphabet.
pub open spec fn in_alphabet(text: Seq<char>) -> bool {
    forall|j: int| 0 <= j < text.len() ==> char_digit(#[trigger] text[j]) is Some
}

/// The digits of a text in the alphabet.
pub open spec fn text_digits(text: Seq<char>) -> Seq<int> {
    Seq::new(text.len(), |i: int| char_digit(text[i])->0)
}

/// The message that names a character outside the alphabet.
pub open spec fn foreign_message(c: char) -> Seq<char> {
    "invalid base58 character: '"@.push(c).push('\'')
}

/// The bytes of a Base58 text, or what is wrong with it.
pub open spec fn decoded(text: Seq<char>) -> Result<Seq<u8>, Seq<char>> {
    if in_alphabet(text) {
        Ok(octets(rebase(text_digits(text), 58, 256)))
    } else {
        Err(foreign_message(text[choose|i: int| first_foreign(text, i)]))
    }
}

/// Decoding undoes encoding.
pub proof fn lemma_base58_roundtrip(bytes: Seq<u8>)
    ensures
        decoded(encoded(bytes)) == Ok::<Seq<u8>, Seq<char>>(bytes),
{
    let s = ints(bytes);
    lemma_rebase_roundtrip(s, 256, 58);
    let d = rebase(s, 256, 58);
    let text = encoded(bytes);
    assert forall|j: int| 0 <= j < text.len() implies char_digit(#[trigger] text[j]) == Some(d[j]) by {
        assert(0 <= d[j] < 58);
    }
    assert(text_digits(text) =~= d);
    assert(octets(s) =~= bytes);
}

/// Encoding undoes decoding: a text in the alphabet is the encoding of its
/// bytes.
pub proof fn lemma_base58_canonical(text: Seq<char>)
    ensures
        decoded(text) matches Ok(bytes) ==> encoded(bytes) == text,
{
    if in_alphabet(text) {
        let d = text_digits(text);
        assert forall|i: int| 0 <= i < d.len() implies 0 <= #[trigger] d[i] < 58 && digit_char(d[i])
            == text[i] by {
            assert(char_digit(text[i]) is Some);
        }
        lemma_rebase_roundtrip(d, 58, 256);
        let bytes = octets(rebase(d, 58, 256));
        assert(ints(bytes) =~= rebase(d, 58, 256));
        assert(encoded(bytes) =~= text);
    }
}

/// Encodes bytes in Base58.
pub fn bs58_encode(data: &[u8]) -> (r: String)
    ensures
        r@ == encoded(data@),
{
    let digits = rebase_digits(data, 256, 58);
    proof {
        lemma_rebase_roundtrip(ints(data@), 256, 58);
    }
    let mut r = String::new();
    let mut i: usize = 0;
    while i < digits.len()
        invariant
            i <= digits@.len(),
            r@.len() == i,
            forall|j: int| 0 <= j < digits@.len() ==> 0 <= #[trigger] ints(digits@)[j] < 58,
            forall|j: int| 0 <= j < i ==> r@[j] == digit_char(ints(digits@)[j]),
        decreases digits@.len() - i,
    {
        assert(ints(digits@)[i as int] == digits@[i as int]);
        r.push(to_char(digits[i]));
        i = i + 1;
    }
    assert(r@ =~= encoded(data@));
    r
}

/// Decodes a Base58 text.
pub fn bs58_decode(encoded: &str) -> (r: Result<Vec<u8>, String>)
    ensures
        match r {
            Ok(bytes) => decoded(encoded@) == Ok::<Seq<u8>, Seq<char>>(bytes@),
            Err(message) => decoded(encoded@) == Err::<Seq<u8>, Seq<char>>(message@),
        },
{
    let chars = text::chars_of(encoded);
    let mut digits: Vec<u8> = Vec::new();
    let mut i: usize = 0;
    while i < chars.len()
        invariant
            i <= chars@.len(),
            chars@ == encoded@,
            digits@.len() == i,
            forall|j: int| 0 <= j < i ==> (#[trigger] digits@[j]) < 58,
            forall|j: int|
                0 <= j < i ==> char_digit(#[trigger] chars@[j]) == Some(digits@[j] as int),
        decreases chars@.len() - i,
    {
        match to_digit(chars[i]) {
            Some(d) => digits.push(d),
            None => {
                proof {
                    assert(first_foreign(encoded@, i as int));
                    let k = choose|k: int| first_foreign(encoded@, k);
                    assert(first_foreign(encoded@, k));
                    if k < i {
                        assert(char_digit(encoded@[k]) is Some);
                    } else if i < k {
                        assert(char_digit(encoded@[i as int]) is Some);
                    }
                    assert(!in_alphabet(encoded@));
                }
                let mut message = text::owned("invalid base58 character: '");
                message.push(chars[i]);
                message.push('\'');
                return Err(message);
            },
        }
        i = i + 1;
    }
    let bytes = rebase_digits(digits.as_slice(), 58, 256);
    proof {
        assert(ints(digits@) =~= text_digits(encoded@));
        assert forall|j: int| 0 <= j < ints(digits@).len() implies 0 <= #[trigger] ints(digits@)[j]
            < 58 by {
            assert(digits@[j] < 58);
        }
        lemma_rebase_roundtrip(ints(digits@), 58, 256);
        assert(octets(ints(bytes@)) =~= bytes@);
        assert(in_alphabet(encoded@));
    }
    Ok(bytes)
}

} // verus!
