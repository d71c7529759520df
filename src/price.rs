use vstd::prelude::*;

verus! {

/// Number of fraction digits that a price keeps.
pub const FRACTION_DIGITS: usize = 8;

pub open spec fn is_digit(c: char) -> bool {
    '0' <= c && c <= '9'
}

pub open spec fn all_digits(s: Seq<char>) -> bool {
    forall|i: int| 0 <= i < s.len() ==> is_digit(#[trigger] s[i])
}

/// The number that a string of decimal digits spells.
pub open spec fn digits_value(s: Seq<char>) -> int
    decreases s.len(),
{
    if s.len() == 0 {
        0
    } else {
        digits_value(s.drop_last()) * 10 + (s.last() as int - '0' as int)
    }
}

/// Whether `s` is a decimal with its integer part ending at `p`: digits, then
/// either nothing or a point followed by digits, with at least one digit in all.
pub open spec fn decimal_split(s: Seq<char>, p: int) -> bool {
    &&& 0 <= p <= s.len()
    &&& all_digits(s.take(p))
    &&& if p == s.len() {
        p > 0
    } else {
        s[p] == '.' && all_digits(s.skip(p + 1)) && s.len() >= 2
    }
}

/// The fraction digits of a decimal split at `p`.
pub open spec fn fraction_part(s: Seq<char>, p: int) -> Seq<char> {
    if p < s.len() {
        s.skip(p + 1)
    } else {
        Seq::empty()
    }
}

pub open spec fn pow10(n: nat) -> nat
    decreases n,
{
    if n == 0 {
        1
    } else {
        10 * pow10((n - 1) as nat)
    }
}

pub open spec fn zeros(n: nat) -> Seq<char> {
    Seq::new(n, |i: int| '0')
}

/// The digits `d` with the decimal point after them moved `k` places to the
/// right (to the left where `k` is negative), and the digits that then stand
/// after the point dropped.
pub open spec fn shifted(d: Seq<char>, k: int) -> Seq<char> {
    if k >= 0 {
        d + zeros(k as nat)
    } else if d.len() + k > 0 {
        d.take(d.len() + k)
    } else {
        Seq::empty()
    }
}

pub open spec fn is_exponent_mark(c: char) -> bool {
    c == 'e' || c == 'E'
}

pub open spec fn sign_len(t: Seq<char>) -> int {
    if t.len() > 0 && (t[0] == '+' || t[0] == '-') {
        1
    } else {
        0
    }
}

/// Whether `t` is an exponent: an optional sign, then at least one digit.
pub open spec fn exponent_ok(t: Seq<char>) -> bool {
    t.len() > sign_len(t) && all_digits(t.skip(sign_len(t)))
}

pub open spec fn exponent_value(t: Seq<char>) -> int {
    if t.len() > 0 && t[0] == '-' {
        -digits_value(t.skip(1))
    } else {
        digits_value(t.skip(sign_len(t)))
    }
}

/// Whether `s` is a number written as an optional `+` of length `a`, a
/// decimal mantissa up to `e` whose integer part has `p` digits, and, from
/// `e` on, either nothing or `e`/`E` followed by an exponent.
pub open spec fn number_split(s: Seq<char>, a: int, e: int, p: int) -> bool {
    &&& a == (if s.len() > 0 && s[0] == '+' {
        1int
    } else {
        0int
    })
    &&& a <= e <= s.len()
    &&& forall|i: int| a <= i < e ==> !is_exponent_mark(#[trigger] s[i])
    &&& (e == s.len() || (is_exponent_mark(s[e]) && exponent_ok(s.skip(e + 1))))
    &&& decimal_split(s.subrange(a, e), p)
}

/// The digits of the price that a number split as above stands for, in units
/// of `10^-FRACTION_DIGITS`: its mantissa digits, shifted by the exponent.
pub open spec fn number_digits(s: Seq<char>, a: int, e: int, p: int) -> Seq<char> {
    let m = s.subrange(a, e);
    let f = fraction_part(m, p);
    let x = if e < s.len() {
        exponent_value(s.skip(e + 1))
    } else {
        0
    };
    shifted(m.take(p) + f, FRACTION_DIGITS + x - f.len())
}

/// The price that text `s` spells, in units of `10^-FRACTION_DIGITS`, if it
/// is a number (`"100"`, `"100.5"`, `"+1.5e-3"`, `"6E4"`). These are machine
/// limits: digits beyond `FRACTION_DIGITS` places after the point are
/// dropped, and a price above `u64::MAX` units (about 1.8e11) gives `None`.
pub open spec fn price_of(s: Seq<char>) -> Option<u64> {
    if exists|t: (int, int, int)| number_split(s, t.0, t.1, t.2) {
        let t = choose|t: (int, int, int)| number_split(s, t.0, t.1, t.2);
        let v = digits_value(number_digits(s, t.0, t.1, t.2));
        if v <= u64::MAX {
            Some(v as u64)
        } else {
            None
        }
    } else {
        None
    }
}

/// The largest exponent magnitude that is kept exactly.
pub const EXPONENT_CAP: u128 = 0x2_0000_0000_0000_0000;

fn is_digit_char(c: char) -> (r: bool)
    ensures
        r == is_digit(c),
{
    '0' <= c && c <= '9'
}

proof fn lemma_digits_value_nonneg(s: Seq<char>)
    requires
        all_digits(s),
    ensures
        digits_value(s) >= 0,
    decreases s.len(),
{
    if s.len() > 0 {
        lemma_digits_value_nonneg(s.drop_last());
    }
}

proof fn lemma_digits_value_prefix(s: Seq<char>, k: int)
    requires
        all_digits(s),
        0 <= k <= s.len(),
    ensures
        digits_value(s.take(k)) <= digits_value(s),
    decreases s.len(),
{
    if k < s.len() {
        assert(s.drop_last().take(k) =~= s.take(k));
        lemma_digits_value_prefix(s.drop_last(), k);
        lemma_digits_value_nonneg(s.drop_last());
    } else {
        assert(s.take(k) =~= s);
    }
}

/// The number that a sequence of digits spells, if it fits in a `u64`.
pub fn digits_to_u64(d: &Vec<char>) -> (r: Option<u64>)
    requires
        all_digits(d@),
    ensures
        r == (if digits_value(d@) <= u64::MAX {
            Some(digits_value(d@) as u64)
        } else {
            None::<u64>
        }),
{
    let mut v: u64 = 0;
    let mut k: usize = 0;
    while k < d.len()
        invariant
            all_digits(d@),
            0 <= k <= d@.len(),
            v == digits_value(d@.take(k as int)),
        decreases d@.len() - k,
    {
        let c = d[k];
        assert(d@.take(k + 1).drop_last() =~= d@.take(k as int));
        let digit: u64 = (c as u32 - '0' as u32) as u64;
        proof {
            lemma_digits_value_prefix(d@, k + 1);
        }
        if v > (u64::MAX - digit) / 10 {
            proof {
                assert(v * 10 + digit > u64::MAX) by (nonlinear_arith)
                    requires
                        v > (u64::MAX - digit) / 10,
                        digit <= 9,
                ;
            }
            return None;
        }
        proof {
            assert(v * 10 + digit <= u64::MAX) by (nonlinear_arith)
                requires
                    v <= (u64::MAX - digit) / 10,
                    digit <= 9,
            ;
        }
        v = v * 10 + digit;
        k = k + 1;
    }
    assert(d@.take(d@.len() as int) =~= d@);
    Some(v)
}

proof fn lemma_pow10_grows(j: nat, k: nat)
    requires
        j <= k,
    ensures
        pow10(j) <= pow10(k),
    decreases k,
{
    if j < k {
        lemma_pow10_grows(j, (k - 1) as nat);
    }
}

proof fn lemma_append_zeros(d: Seq<char>, k: nat)
    ensures
        digits_value(d + zeros(k)) == digits_value(d) * pow10(k),
    decreases k,
{
    if k > 0 {
        lemma_append_zeros(d, (k - 1) as nat);
        assert((d + zeros(k)).drop_last() =~= d + zeros((k - 1) as nat));
        assert((d + zeros(k)).last() == '0');
        assert(pow10(k) == 10 * pow10((k - 1) as nat));
        assert(digits_value(d + zeros(k)) == digits_value(d + zeros((k - 1) as nat)) * 10);
        let v = digits_value(d);
        let w = pow10((k - 1) as nat) as int;
        assert(v * w * 10 == v * (10 * w)) by (nonlinear_arith);
        assert(digits_value(d + zeros((k - 1) as nat)) == v * w);
        assert(digits_value(d) * pow10(k) == v * (10 * w));
    } else {
        assert(d + zeros(0) =~= d);
        assert(pow10(0) == 1);
    }
}

proof fn lemma_digits_value_zero(d: Seq<char>)
    requires
        forall|i: int| 0 <= i < d.len() ==> #[trigger] d[i] == '0',
    ensures
        digits_value(d) == 0,
    decreases d.len(),
{
    if d.len() > 0 {
        lemma_digits_value_zero(d.drop_last());
    }
}

proof fn lemma_digits_value_positive(d: Seq<char>, i: int)
    requires
        all_digits(d),
        0 <= i < d.len(),
        d[i] != '0',
    ensures
        digits_value(d) >= 1,
    decreases d.len(),
{
    lemma_digits_value_nonneg(d.drop_last());
    if i < d.len() - 1 {
        lemma_digits_value_positive(d.drop_last(), i);
    }
}

proof fn lemma_large_shift(d: Seq<char>, k: int, z: int)
    requires
        all_digits(d),
        k > 20,
        0 <= z < d.len(),
        d[z] != '0',
    ensures
        digits_value(shifted(d, k)) > u64::MAX,
{
    lemma_digits_value_positive(d, z);
    lemma_append_zeros(d, k as nat);
    lemma_pow10_grows(21, k as nat);
    reveal_with_fuel(pow10, 22);
    let v = digits_value(d);
    let w = pow10(k as nat) as int;
    assert(v * w >= w) by (nonlinear_arith)
        requires
            v >= 1,
            w >= 0,
    ;
}

fn chars_of(text: &str) -> (r: Vec<char>)
    ensures
        r@ == text@,
{
    let n = text.unicode_len();
    let mut r: Vec<char> = Vec::new();
    let mut i: usize = 0;
    while i < n
        invariant
            n == text@.len(),
            0 <= i <= n,
            r@ == text@.take(i as int),
        decreases n - i,
    {
        r.push(text.get_char(i));
        assert(r@ =~= text@.take(i + 1));
        i = i + 1;
    }
    assert(text@.take(n as int) =~= text@);
    r
}

fn copy_range(cs: &Vec<char>, from: usize, to: usize) -> (r: Vec<char>)
    requires
        from <= to <= cs@.len(),
    ensures
        r@ == cs@.subrange(from as int, to as int),
{
    let mut r: Vec<char> = Vec::new();
    let mut i: usize = from;
    while i < to
        invariant
            from <= i <= to <= cs@.len(),
            r@ == cs@.subrange(from as int, i as int),
        decreases to - i,
    {
        r.push(cs[i]);
        assert(r@ =~= cs@.subrange(from as int, i + 1));
        i = i + 1;
    }
    r
}

/// Where the integer part of decimal `m` ends, if `m` is a decimal.
fn decimal_point(m: &Vec<char>) -> (r: Option<usize>)
    ensures
        match r {
            Some(p) => decimal_split(m@, p as int) && forall|q: int|
                decimal_split(m@, q) ==> q == p,
            None => forall|q: int| !decimal_split(m@, q),
        },
{
    let n = m.len();
    let ghost s = m@;
    let mut p: usize = 0;
    while p < n && is_digit_char(m[p])
        invariant
            n == s.len(),
            s == m@,
            0 <= p <= n,
            all_digits(s.take(p as int)),
        decreases n - p,
    {
        assert(s.take(p + 1) =~= s.take(p as int).push(s[p as int]));
        p = p + 1;
    }
    // Any split of a decimal lies where its digits first stop.
    assert forall|q: int| decimal_split(s, q) implies q == p by {
        if q < p {
            assert(s.take(p as int)[q] == s[q]);
        } else if q > p {
            assert(s.take(q)[p as int] == s[p as int]);
        }
    }
    if p < n {
        if m[p] != '.' {
            return None;
        }
        let mut k: usize = p + 1;
        while k < n
            invariant
                n == s.len(),
                s == m@,
                p < k <= n,
                forall|j: int| p < j < k ==> is_digit(#[trigger] s[j]),
                forall|q: int| decimal_split(s, q) ==> q == p,
            decreases n - k,
        {
            if !is_digit_char(m[k]) {
                assert(s.skip(p + 1)[k - p - 1] == s[k as int]);
                assert(!decimal_split(s, p as int));
                return None;
            }
            k = k + 1;
        }
        assert(all_digits(s.skip(p + 1))) by {
            assert forall|i: int| 0 <= i < s.skip(p + 1).len() implies is_digit(
                #[trigger] s.skip(p + 1)[i],
            ) by {
                assert(s.skip(p + 1)[i] == s[p + 1 + i]);
            }
        }
        if n < 2 {
            return None;
        }
    } else if p == 0 {
        return None;
    }
    Some(p)
}

/// Reads exponent `t`: whether it is negative, and its magnitude, with a
/// magnitude of `EXPONENT_CAP` or more read as `EXPONENT_CAP`.
fn exponent_of(t: &Vec<char>) -> (r: Option<(bool, u128)>)
    ensures
        (r is Some) == exponent_ok(t@),
        r is Some ==> r->Some_0.0 == (t@[0] == '-') && r->Some_0.1 <= EXPONENT_CAP && (r->Some_0.1
            < EXPONENT_CAP ==> r->Some_0.1 == digits_value(t@.skip(sign_len(t@)))) && (r->Some_0.1
            == EXPONENT_CAP ==> digits_value(t@.skip(sign_len(t@))) >= EXPONENT_CAP),
{
    let n = t.len();
    let b: usize = if n > 0 && (t[0] == '+' || t[0] == '-') {
        1
    } else {
        0
    };
    assert(sign_len(t@) == b);
    if n <= b {
        return None;
    }
    let neg = t[0] == '-';
    let ghost ds = t@.skip(b as int);
    let mut v: u128 = 0;
    let mut i: usize = b;
    while i < n
        invariant
            b <= i <= n,
            n == t@.len(),
            sign_len(t@) == b,
            ds == t@.skip(b as int),
            all_digits(ds.take(i - b)),
            v <= EXPONENT_CAP,
            v < EXPONENT_CAP ==> v == digits_value(ds.take(i - b)),
            v == EXPONENT_CAP ==> digits_value(ds.take(i - b)) >= EXPONENT_CAP,
        decreases n - i,
    {
        let c = t[i];
        if !is_digit_char(c) {
            assert(ds[i - b] == c);
            assert(!is_digit(ds[i - b]));
            return None;
        }
        assert(ds.take(i + 1 - b).drop_last() =~= ds.take(i - b));
        assert(ds.take(i + 1 - b) =~= ds.take(i - b).push(c));
        proof {
            lemma_digits_value_nonneg(ds.take(i - b));
        }
        if v < EXPONENT_CAP {
            let next: u128 = v * 10 + (c as u32 - '0' as u32) as u128;
            v = if next < EXPONENT_CAP {
                next
            } else {
                EXPONENT_CAP
            };
        }
        i = i + 1;
    }
    assert(ds.take(n - b) =~= ds);
    Some((neg, v))
}

/// The price, in units of `10^-FRACTION_DIGITS`, of mantissa digits `d` of
/// which the last `f` stand after the point, with exponent `xr` read as a
/// sign and a magnitude capped at `EXPONENT_CAP`.
#[verifier::loop_isolation(false)]
fn scaled_value(d: Vec<char>, f: usize, neg: bool, mag: u128, Ghost(xr): Ghost<int>) -> (r: Option<
    u64,
>)
    requires
        all_digits(d@),
        f <= d@.len(),
        mag <= EXPONENT_CAP,
        mag < EXPONENT_CAP ==> xr == (if neg {
            -(mag as int)
        } else {
            mag as int
        }),
        mag == EXPONENT_CAP && neg ==> xr <= -(EXPONENT_CAP as int),
        mag == EXPONENT_CAP && !neg ==> xr >= EXPONENT_CAP as int,
    ensures
        r == (if digits_value(shifted(d@, FRACTION_DIGITS + xr - f)) <= u64::MAX {
            Some(digits_value(shifted(d@, FRACTION_DIGITS + xr - f)) as u64)
        } else {
            None::<u64>
        }),
{
    let mut d = d;
    let x: i128 = if neg {
        -(mag as i128)
    } else {
        mag as i128
    };
    assert(mag < EXPONENT_CAP ==> x == xr);
    assert(neg && mag == EXPONENT_CAP ==> xr <= -(EXPONENT_CAP as int));
    assert(!neg && mag == EXPONENT_CAP ==> xr >= EXPONENT_CAP as int);
    let k: i128 = FRACTION_DIGITS as i128 + x - f as i128;
    let ghost kr: int = FRACTION_DIGITS + xr - f;
    if k >= 0 {
        if k > 20 {
            assert(kr > 20);
            let mut z: usize = 0;
            while z < d.len()
                invariant
                    0 <= z <= d@.len(),
                    kr > 20,
                    all_digits(d@),
                    forall|i: int| 0 <= i < z ==> #[trigger] d@[i] == '0',
                decreases d@.len() - z,
            {
                if d[z] != '0' {
                    proof {
                        lemma_large_shift(d@, kr, z as int);
                    }
                    return None;
                }
                z = z + 1;
            }
            proof {
                lemma_digits_value_zero(d@);
                lemma_append_zeros(d@, kr as nat);
            }
            return Some(0);
        }
        assert(k == kr);
        let mut j: usize = 0;
        let kk: usize = k as usize;
        let ghost d0 = d@;
        while j < kk
            invariant
                0 <= j <= kk,
                d@ == d0 + zeros(j as nat),
            decreases kk - j,
        {
            d.push('0');
            assert(d@ =~= d0 + zeros((j + 1) as nat));
            j = j + 1;
        }
        assert(all_digits(d@)) by {
            assert forall|i: int| 0 <= i < d@.len() implies is_digit(#[trigger] d@[i]) by {
                if i >= d0.len() {
                    assert(zeros(kk as nat)[i - d0.len()] == '0');
                }
            }
        }
        digits_to_u64(&d)
    } else {
        let keep: i128 = d.len() as i128 + k;
        assert(d@.len() + kr <= 0 ==> keep <= 0);
        if keep <= 0 {
            assert(shifted(d@, kr) =~= Seq::<char>::empty());
            let empty: Vec<char> = Vec::new();
            assert(all_digits(empty@));
            return digits_to_u64(&empty);
        }
        assert(keep == d@.len() + kr);
        let kept = copy_range(&d, 0, keep as usize);
        assert(kept@ =~= shifted(d@, kr));
        assert(all_digits(kept@)) by {
            assert forall|i: int| 0 <= i < kept@.len() implies is_digit(#[trigger] kept@[i]) by {
                assert(kept@[i] == d@[i]);
            }
        }
        digits_to_u64(&kept)
    }
}

#[verifier::loop_isolation(false)]
/// Reads a price written as a number (`"96000000"`, `"100.5"`, `"1.5e-3"`)
/// into units of `10^-FRACTION_DIGITS`. Gives `None` on any other text and
/// on a price too large for a `u64`.
pub fn parse_price(text: &str) -> (r: Option<u64>)
    ensures
        r == price_of(text@),
{
    let cs = chars_of(text);
    let ghost s = text@;
    let n = cs.len();
    let a: usize = if n > 0 && cs[0] == '+' {
        1
    } else {
        0
    };
    let mut e: usize = a;
    while e < n && !(cs[e] == 'e' || cs[e] == 'E')
        invariant
            cs@ == s,
            n == s.len(),
            a <= e <= n,
            forall|i: int| a <= i < e ==> !is_exponent_mark(#[trigger] s[i]),
        decreases n - e,
    {
        e = e + 1;
    }
    // The mantissa ends at the first exponent mark.
    assert forall|t: (int, int, int)| number_split(s, t.0, t.1, t.2) implies t.0 == a && t.1
        == e by {
        if t.1 < e {
            assert(!is_exponent_mark(s[t.1]));
        } else if t.1 > e {
            assert(!is_exponent_mark(s[e as int]));
        }
    }
    let m = copy_range(&cs, a, e);
    let p = match decimal_point(&m) {
        Some(p) => p,
        None => {
            return None;
        },
    };
    let mut neg = false;
    let mut mag: u128 = 0;
    if e < n {
        let t = copy_range(&cs, e + 1, n);
        assert(t@ =~= s.skip(e + 1));
        match exponent_of(&t) {
            Some(x) => {
                neg = x.0;
                mag = x.1;
            },
            None => {
                return None;
            },
        }
    }
    assert(number_split(s, a as int, e as int, p as int));
    let ghost split = (a as int, e as int, p as int);
    assert forall|t: (int, int, int)| number_split(s, t.0, t.1, t.2) implies t == split by {
        assert(m@ == s.subrange(a as int, e as int));
    }
    assert(number_split(s, split.0, split.1, split.2));
    assert(exists|t: (int, int, int)| number_split(s, t.0, t.1, t.2));
    assert(split == choose|t: (int, int, int)| number_split(s, t.0, t.1, t.2));
    let ghost xr: int = if e < n {
        exponent_value(s.skip(e + 1))
    } else {
        0
    };
    let ghost frac = fraction_part(m@, p as int);
    // The mantissa's digits, without the point.
    let mut d = copy_range(&m, 0, p);
    assert(d@ =~= m@.take(p as int));
    let f: usize = if p < m.len() {
        m.len() - p - 1
    } else {
        0
    };
    if p < m.len() {
        let mut rest = copy_range(&m, p + 1, m.len());
        assert(rest@ =~= frac);
        d.append(&mut rest);
    } else {
        assert(frac =~= Seq::<char>::empty());
    }
    assert(d@ =~= m@.take(p as int) + frac);
    assert(all_digits(d@)) by {
        assert forall|i: int| 0 <= i < d@.len() implies is_digit(#[trigger] d@[i]) by {
            if i < p {
                assert(m@.take(p as int)[i] == m@[i]);
            } else {
                assert(frac[i - p] == m@.skip(p + 1)[i - p]);
            }
        }
    }
    let ghost kr: int = FRACTION_DIGITS + xr - frac.len();
    assert(number_digits(s, a as int, e as int, p as int) == shifted(d@, kr));
    scaled_value(d, f, neg, mag, Ghost(xr))
}

/// The characters of an optional text.
pub open spec fn text_view(t: Option<String>) -> Option<Seq<char>> {
    match t {
        Some(s) => Some(s@),
        None => None,
    }
}

/// The price of an optional text; a missing text, text that is no decimal,
/// and a price too large all count as zero.
pub open spec fn price_or_zero_of(t: Option<Seq<char>>) -> u64 {
    match t {
        Some(s) => match price_of(s) {
            Some(v) => v,
            None => 0,
        },
        None => 0,
    }
}

/// A price read from text, with text that is no decimal, or too large,
/// counting as zero.
pub fn price_or_zero(text: &Option<String>) -> (r: u64)
    ensures
        r == price_or_zero_of(text_view(*text)),
{
    match text {
        Some(t) => match parse_price(t.as_str()) {
            Some(v) => v,
            None => 0,
        },
        None => 0,
    }
}

} // verus!
