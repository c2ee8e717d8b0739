use vstd::prelude::*;
use crate::text::copy_range;
use crate::text::has_at;
use crate::text::lowered;
use crate::text::split;
use crate::text::split_bounds;
use crate::text::to_lower;

verus! {

/// Whether `c` is one of the ten ASCII digits.
pub open spec fn spec_is_digit(c: char) -> bool {
    48 <= (c as u32) <= 57
}

/// Tests whether `c` is one of the ten ASCII digits.
#[verifier::when_used_as_spec(spec_is_digit)]
pub fn is_digit(c: char) -> (b: bool)
    ensures
        b == spec_is_digit(c),
{
    let n: u32 = c as u32;
    48 <= n && n <= 57
}

/// The number that a digit stands for.
pub open spec fn digit_of(c: char) -> int {
    (c as u32) - 48
}

/// Whether `s` holds digits only.
pub open spec fn all_digits(s: Seq<char>) -> bool {
    forall|i: int| 0 <= i < s.len() ==> is_digit(#[trigger] s[i])
}

/// The number that a run of digits writes in base ten; nothing writes zero.
pub open spec fn digits_value(s: Seq<char>) -> int
    decreases s.len(),
{
    if s.len() == 0 {
        0
    } else {
        digits_value(s.drop_last()) * 10 + digit_of(s.last())
    }
}

/// The `i`-th digit of a fraction, zero past its end.
pub open spec fn frac_digit(f: Seq<char>, i: int) -> int {
    if 0 <= i < f.len() {
        digit_of(f[i])
    } else {
        0
    }
}

/// The thousandths that a fraction's first three digits write; further digits
/// are cut off.
pub open spec fn frac_milli(f: Seq<char>) -> int {
    frac_digit(f, 0) * 100 + frac_digit(f, 1) * 10 + frac_digit(f, 2)
}

/// How many characters of `s` are a sign: one for a leading `+` or `-`.
pub open spec fn sign_len(s: Seq<char>) -> int {
    if s.len() > 0 && (s[0] == '-' || s[0] == '+') {
        1
    } else {
        0
    }
}

/// Whether a text starts with a minus sign.
pub open spec fn is_negative(s: Seq<char>) -> bool {
    s.len() > 0 && s[0] == '-'
}

/// So many zeros in a row.
pub open spec fn zeros(n: int) -> Seq<char> {
    Seq::new(n as nat, |i: int| '0')
}

/// Whether an unsigned text in lower case names infinity.
pub open spec fn is_infinity(b: Seq<char>) -> bool {
    b == seq!['i', 'n', 'f'] || b == seq!['i', 'n', 'f', 'i', 'n', 'i', 't', 'y']
}

/// The part of an unsigned number before its exponent mark.
pub open spec fn mantissa_of(b: Seq<char>) -> Seq<char> {
    split(b, 'e')[0]
}

/// The digits before the point.
pub open spec fn whole_of(b: Seq<char>) -> Seq<char> {
    split(mantissa_of(b), '.')[0]
}

/// The digits after the point; none where there is no point.
pub open spec fn frac_of(b: Seq<char>) -> Seq<char> {
    if split(mantissa_of(b), '.').len() == 2 {
        split(mantissa_of(b), '.')[1]
    } else {
        Seq::<char>::empty()
    }
}

/// What follows the exponent mark; nothing where there is no mark.
pub open spec fn exponent_text(b: Seq<char>) -> Seq<char> {
    if split(b, 'e').len() == 2 {
        split(b, 'e')[1]
    } else {
        Seq::<char>::empty()
    }
}

/// The digits of the exponent, its sign apart.
pub open spec fn exponent_digits(b: Seq<char>) -> Seq<char> {
    exponent_text(b).skip(sign_len(exponent_text(b)))
}

/// The exponent: by how many places the point moves to the right; zero where
/// there is no exponent mark.
pub open spec fn exponent_of(b: Seq<char>) -> int {
    if is_negative(exponent_text(b)) {
        -digits_value(exponent_digits(b))
    } else {
        digits_value(exponent_digits(b))
    }
}

/// An unsigned number in lower case is digits with at most one point among
/// them, at least one digit in all, and then, if at all, one exponent mark
/// `e` with an optional sign and at least one digit.
pub open spec fn is_number(b: Seq<char>) -> bool {
    &&& split(b, 'e').len() <= 2
    &&& split(mantissa_of(b), '.').len() <= 2
    &&& all_digits(whole_of(b))
    &&& all_digits(frac_of(b))
    &&& whole_of(b).len() + frac_of(b).len() > 0
    &&& split(b, 'e').len() == 2 ==> exponent_digits(b).len() > 0 && all_digits(
        exponent_digits(b),
    )
}

/// The digits before the point once the point stands after the first `p` of
/// the digits `d`: zeros fill in where the point moves past the last digit.
pub open spec fn shifted_whole(d: Seq<char>, p: int) -> Seq<char> {
    if p <= 0 {
        Seq::<char>::empty()
    } else if p >= d.len() {
        d + zeros(p - d.len())
    } else {
        d.take(p)
    }
}

/// The digits after the point once the point stands after the first `p` of
/// the digits `d`: zeros fill in where the point moves before the first digit.
pub open spec fn shifted_frac(d: Seq<char>, p: int) -> Seq<char> {
    if p <= 0 {
        zeros(-p) + d
    } else if p >= d.len() {
        Seq::<char>::empty()
    } else {
        d.skip(p)
    }
}

/// The thousandths that the digits `d` write with the point after the first
/// `p` of them; what lies past the third place after the point is cut off.
pub open spec fn shifted_milli(d: Seq<char>, p: int) -> int {
    digits_value(shifted_whole(d, p)) * 1000 + frac_milli(shifted_frac(d, p))
}

/// The size of an unsigned number in thousandths: its digits, with the point
/// moved by the exponent.
pub open spec fn magnitude_of(b: Seq<char>) -> int {
    shifted_milli(whole_of(b) + frac_of(b), whole_of(b).len() + exponent_of(b))
}

/// A size as it is kept: a size past the largest is kept as the largest.
pub open spec fn clamped(size: int) -> i64 {
    if size > i64::MAX {
        i64::MAX
    } else {
        size as i64
    }
}

/// A kept size with its sign.
pub open spec fn signed(negative: bool, size: i64) -> i64 {
    if negative {
        (-size) as i64
    } else {
        size
    }
}

/// What a text reads as, in thousandths. Letters count in either case. After
/// an optional sign, `inf` and `infinity` read as the largest size, and a
/// number reads as its size, the largest at most; any other text, `nan`
/// among them, reads as nothing.
pub open spec fn parse_milli(s: Seq<char>) -> Option<i64> {
    let t = lowered(s);
    let b = t.skip(sign_len(t));
    if is_infinity(b) {
        Some(signed(is_negative(t), i64::MAX))
    } else if is_number(b) {
        Some(signed(is_negative(t), clamped(magnitude_of(b))))
    } else {
        None
    }
}

/// A run of digits writes at least what any of its beginnings writes.
pub proof fn lemma_digits_value_grows(s: Seq<char>, k: int)
    requires
        all_digits(s),
        0 <= k <= s.len(),
    ensures
        0 <= digits_value(s.take(k)) <= digits_value(s),
    decreases s.len() - k,
{
    if k == s.len() {
        assert(s.take(k) =~= s);
        lemma_digits_value_nonneg(s);
    } else {
        lemma_digits_value_grows(s, k + 1);
        assert(s.take(k + 1).drop_last() =~= s.take(k));
        assert(is_digit(s[k]));
        assert(s.take(k + 1).last() == s[k]);
        lemma_digits_value_nonneg(s.take(k));
    }
}

proof fn lemma_digits_value_nonneg(s: Seq<char>)
    requires
        all_digits(s),
    ensures
        0 <= digits_value(s),
    decreases s.len(),
{
    if s.len() > 0 {
        assert(is_digit(s.last()));
        assert forall|i: int| 0 <= i < s.drop_last().len() implies is_digit(
            #[trigger] s.drop_last()[i],
        ) by {
            assert(s.drop_last()[i] == s[i]);
        }
        lemma_digits_value_nonneg(s.drop_last());
    }
}

/// Zeros after digits that write zero still write zero.
proof fn lemma_zeros_keep_zero(d: Seq<char>, n: int)
    requires
        n >= 0,
        digits_value(d) == 0,
    ensures
        digits_value(d + zeros(n)) == 0,
    decreases n,
{
    if n == 0 {
        assert(d + zeros(0) =~= d);
    } else {
        lemma_zeros_keep_zero(d, n - 1);
        assert((d + zeros(n)).drop_last() =~= d + zeros(n - 1));
        assert((d + zeros(n)).last() == '0');
    }
}

/// The largest whole part whose thousandths can still fit.
pub const WHOLE_LIMIT: u128 = 9_223_372_036_854_775;

/// The largest limit with which digits can be read.
pub const READ_LIMIT: u128 = 0x0fff_ffff_ffff_ffff_ffff_ffff_ffff_ffff;

/// Reads the digits `cs[from..to)` as a number in base ten: their value where
/// all are digits and the value is at most `limit`, nothing otherwise. No
/// digits read as zero.
pub fn read_digits(cs: &Vec<char>, from: usize, to: usize, limit: u128) -> (r: Option<u128>)
    requires
        from <= to <= cs.len(),
        limit <= READ_LIMIT,
    ensures
        r is Some <==> all_digits(cs@.subrange(from as int, to as int)) && digits_value(
            cs@.subrange(from as int, to as int),
        ) <= limit,
        r matches Some(v) ==> v == digits_value(cs@.subrange(from as int, to as int)),
{
    let ghost run = cs@.subrange(from as int, to as int);
    let mut acc: u128 = 0;
    let mut i: usize = from;
    assert(run.take(0) =~= Seq::<char>::empty());
    while i < to
        invariant
            from <= i <= to <= cs.len(),
            limit <= READ_LIMIT,
            run == cs@.subrange(from as int, to as int),
            all_digits(run.take(i - from)),
            acc == digits_value(run.take(i - from)),
            acc <= limit,
        decreases to - i,
    {
        let c = cs[i];
        proof {
            assert(run.take(i - from + 1).drop_last() =~= run.take(i - from));
            assert(run.take(i - from + 1).last() == c);
        }
        if !is_digit(c) {
            assert(run[i - from] == c);
            return None;
        }
        let next: u128 = acc * 10 + ((c as u32 - 48) as u128);
        i = i + 1;
        proof {
            assert forall|j: int| 0 <= j < run.take(i - from).len() implies is_digit(
                #[trigger] run.take(i - from)[j],
            ) by {
                if j < i - from - 1 {
                    assert(run.take(i - from - 1)[j] == run[j]);
                }
            }
        }
        if next > limit {
            proof {
                if all_digits(run) {
                    lemma_digits_value_grows(run, i - from);
                }
            }
            return None;
        }
        acc = next;
    }
    assert(run.take(to - from) =~= run);
    Some(acc)
}

/// Tests whether `cs[from..to)` holds digits only.
pub fn only_digits(cs: &Vec<char>, from: usize, to: usize) -> (b: bool)
    requires
        from <= to <= cs.len(),
    ensures
        b == all_digits(cs@.subrange(from as int, to as int)),
{
    let ghost run = cs@.subrange(from as int, to as int);
    let mut i: usize = from;
    while i < to
        invariant
            from <= i <= to <= cs.len(),
            run == cs@.subrange(from as int, to as int),
            forall|j: int| 0 <= j < i - from ==> is_digit(#[trigger] run[j]),
        decreases to - i,
    {
        if !is_digit(cs[i]) {
            assert(run[i - from] == cs@[i as int]);
            return false;
        }
        i = i + 1;
    }
    true
}

/// Reads the fraction `cs[from..to)`: its thousandths where all are digits.
fn read_frac(cs: &Vec<char>, from: usize, to: usize) -> (r: Option<u64>)
    requires
        from <= to <= cs.len(),
    ensures
        match r {
            Some(v) => all_digits(cs@.subrange(from as int, to as int)) && v == frac_milli(
                cs@.subrange(from as int, to as int),
            ) && v <= 999,
            None => !all_digits(cs@.subrange(from as int, to as int)),
        },
{
    let ghost run = cs@.subrange(from as int, to as int);
    let mut i: usize = from;
    while i < to
        invariant
            from <= i <= to <= cs.len(),
            run == cs@.subrange(from as int, to as int),
            forall|j: int| 0 <= j < i - from ==> is_digit(#[trigger] run[j]),
        decreases to - i,
    {
        if !is_digit(cs[i]) {
            assert(run[i - from] == cs@[i as int]);
            return None;
        }
        i = i + 1;
    }
    let mut v: u64 = 0;
    if to - from > 0 {
        assert(is_digit(run[0]) && run[0] == cs@[from as int]);
        v = v + ((cs[from] as u32 - 48) as u64) * 100;
    }
    if to - from > 1 {
        assert(is_digit(run[1]) && run[1] == cs@[from + 1]);
        v = v + ((cs[from + 1] as u32 - 48) as u64) * 10;
    }
    if to - from > 2 {
        assert(is_digit(run[2]) && run[2] == cs@[from + 2]);
        v = v + ((cs[from + 2] as u32 - 48) as u64);
    }
    Some(v)
}

/// The digit that stands `i` places after the point where `z` zeros, at most
/// two, stand before the digits `d`.
fn padded_digit(d: &Vec<char>, z: usize, i: usize) -> (v: u64)
    requires
        all_digits(d@),
        z <= 2,
        i <= 2,
    ensures
        v == frac_digit(zeros(z as int) + d@, i as int),
        v <= 9,
{
    let ghost padded = zeros(z as int) + d@;
    if i < z {
        assert(padded[i as int] == '0');
        0
    } else if i - z < d.len() {
        assert(padded[i as int] == d@[i - z]);
        assert(is_digit(d@[i - z]));
        (d[i - z] as u32 - 48) as u64
    } else {
        0
    }
}

/// Past this the place of the point is told apart no further.
const FAR: i128 = 0x8_0000_0000_0000_0000_0000_0000;

/// Reads the digits `d` with the point after the first `p` of them, as kept
/// thousandths. A place beyond `FAR` in either direction stands for any place
/// that lies at least as far in that direction.
fn shifted_size(d: &Vec<char>, p: i128, Ghost(place): Ghost<int>) -> (size: i64)
    requires
        all_digits(d@),
        -4 * FAR <= p <= 4 * FAR,
        p == place || (p > FAR && place >= p) || (p < -FAR && place <= p),
    ensures
        size == clamped(shifted_milli(d@, place)),
        size >= 0,
{
    let len: usize = d.len();
    assert(d@.subrange(0, len as int) =~= d@);
    proof {
        lemma_digits_value_nonneg(d@);
    }
    if p <= 0 {
        assert(digits_value(shifted_whole(d@, place)) == 0);
        if p < -2 {
            let ghost padded = zeros(-place) + d@;
            assert(padded[0] == '0' && padded[1] == '0' && padded[2] == '0');
            return 0;
        }
        let z: usize = (-p) as usize;
        let a = padded_digit(d, z, 0);
        let b = padded_digit(d, z, 1);
        let c = padded_digit(d, z, 2);
        return (a * 100 + b * 10 + c) as i64;
    }
    if p >= len as i128 {
        let ghost all = d@ + zeros(place - len);
        assert(shifted_frac(d@, place) =~= Seq::<char>::empty());
        assert(all_digits(all)) by {
            assert forall|i: int| 0 <= i < all.len() implies is_digit(#[trigger] all[i]) by {
                if i < len {
                    assert(all[i] == d@[i]);
                }
            }
        }
        assert(all.take(len as int) =~= d@);
        proof {
            lemma_digits_value_grows(all, len as int);
        }
        let start = match read_digits(d, 0, len, WHOLE_LIMIT) {
            Some(v) => v,
            None => {
                return i64::MAX;
            },
        };
        if start == 0 {
            proof {
                lemma_zeros_keep_zero(d@, place - len);
            }
            return 0;
        }
        let count: i128 = p - len as i128;
        let mut acc: u128 = start;
        let mut j: i128 = 0;
        assert(d@ + zeros(0) =~= d@);
        while j < count
            invariant
                len == d@.len(),
                0 <= j <= count <= place - len,
                all == d@ + zeros(place - len),
                all_digits(all),
                acc == digits_value(d@ + zeros(j as int)),
                j + 1 <= acc <= WHOLE_LIMIT,
            decreases WHOLE_LIMIT - acc,
        {
            proof {
                assert((d@ + zeros(j + 1)).drop_last() =~= d@ + zeros(j as int));
                assert((d@ + zeros(j + 1)).last() == '0');
                assert(all.take(len + j + 1) =~= d@ + zeros(j + 1));
                lemma_digits_value_grows(all, len + j + 1);
            }
            acc = acc * 10;
            j = j + 1;
            if acc > WHOLE_LIMIT {
                return i64::MAX;
            }
        }
        assert(count == place - len);
        return (acc * 1000) as i64;
    }
    let at: usize = p as usize;
    let ghost whole = d@.take(at as int);
    assert(d@.subrange(0, at as int) =~= whole);
    assert(d@.subrange(at as int, len as int) =~= d@.skip(at as int));
    assert(all_digits(whole)) by {
        assert forall|i: int| 0 <= i < whole.len() implies is_digit(#[trigger] whole[i]) by {
            assert(whole[i] == d@[i]);
        }
    }
    assert(all_digits(d@.skip(at as int))) by {
        assert forall|i: int| 0 <= i < d@.skip(at as int).len() implies is_digit(
            #[trigger] d@.skip(at as int)[i],
        ) by {
            assert(d@.skip(at as int)[i] == d@[at + i]);
        }
    }
    proof {
        lemma_digits_value_nonneg(whole);
    }
    let w = match read_digits(d, 0, at, WHOLE_LIMIT) {
        Some(v) => v,
        None => {
            return i64::MAX;
        },
    };
    let f = match read_frac(d, at, len) {
        Some(v) => v,
        None => 0,
    };
    let size: u128 = w * 1000 + f as u128;
    if size > 9_223_372_036_854_775_807 {
        i64::MAX
    } else {
        size as i64
    }
}

/// Tests whether an unsigned text in lower case names infinity.
fn names_infinity(b: &Vec<char>) -> (yes: bool)
    ensures
        yes == is_infinity(b@),
{
    let short: Vec<char> = vec!['i', 'n', 'f'];
    let long: Vec<char> = vec!['i', 'n', 'f', 'i', 'n', 'i', 't', 'y'];
    assert(short@ =~= seq!['i', 'n', 'f']);
    assert(long@ =~= seq!['i', 'n', 'f', 'i', 'n', 'i', 't', 'y']);
    assert(b@.subrange(0, b@.len() as int) =~= b@);
    (b.len() == 3 && has_at(b, &short, 0)) || (b.len() == 8 && has_at(b, &long, 0))
}

/// The largest exponent that is read out in full.
const EXPONENT_LIMIT: u128 = 0x10_0000_0000_0000_0000_0000_0000;

/// Reads an unsigned number in lower case as kept thousandths.
fn number_size(b: &Vec<char>) -> (r: Option<i64>)
    ensures
        r is Some <==> is_number(b@),
        r matches Some(size) ==> size == clamped(magnitude_of(b@)) && size >= 0,
{
    let parts = split_bounds(b, 'e');
    if parts.len() > 2 {
        return None;
    }
    let m = copy_range(b, parts[0].0, parts[0].1);
    assert(m@ == mantissa_of(b@));
    let sides = split_bounds(&m, '.');
    if sides.len() > 2 {
        return None;
    }
    let w = sides[0];
    let f = if sides.len() == 2 {
        sides[1]
    } else {
        (w.1, w.1)
    };
    assert(m@.subrange(w.0 as int, w.1 as int) == whole_of(b@));
    assert(m@.subrange(f.0 as int, f.1 as int) =~= frac_of(b@));
    if w.1 == w.0 && f.1 == f.0 {
        return None;
    }
    if !only_digits(&m, w.0, w.1) || !only_digits(&m, f.0, f.1) {
        return None;
    }
    let mut shift: i128 = 0;
    if parts.len() == 2 {
        let x = parts[1];
        let ghost text = b@.subrange(x.0 as int, x.1 as int);
        assert(text == exponent_text(b@));
        let mut from: usize = x.0;
        let mut down = false;
        if x.1 > x.0 {
            let c = b[x.0];
            assert(text[0] == c);
            if c == '-' || c == '+' {
                from = from + 1;
                down = c == '-';
            }
        }
        assert(from - x.0 == sign_len(text));
        assert(b@.subrange(from as int, x.1 as int) =~= exponent_digits(b@));
        if from == x.1 || !only_digits(b, from, x.1) {
            return None;
        }
        let size: u128 = match read_digits(b, from, x.1, EXPONENT_LIMIT) {
            Some(v) => v,
            None => EXPONENT_LIMIT + 1,
        };
        shift = if down {
            -(size as i128)
        } else {
            size as i128
        };
        proof {
            lemma_digits_value_nonneg(exponent_digits(b@));
        }
    } else {
        assert(exponent_text(b@).len() == 0);
        assert(exponent_digits(b@) =~= Seq::<char>::empty());
    }
    let mut d = copy_range(&m, w.0, w.1);
    let mut i: usize = f.0;
    assert(m@.subrange(f.0 as int, f.0 as int) =~= Seq::<char>::empty());
    assert(d@ =~= whole_of(b@) + m@.subrange(f.0 as int, i as int));
    while i < f.1
        invariant
            f.0 <= i <= f.1 <= m.len(),
            d@ == whole_of(b@) + m@.subrange(f.0 as int, i as int),
        decreases f.1 - i,
    {
        d.push(m[i]);
        i = i + 1;
        assert(d@ =~= whole_of(b@) + m@.subrange(f.0 as int, i as int));
    }
    assert(all_digits(d@)) by {
        assert forall|k: int| 0 <= k < d@.len() implies is_digit(#[trigger] d@[k]) by {
            if k < whole_of(b@).len() {
                assert(d@[k] == whole_of(b@)[k]);
            } else {
                assert(d@[k] == frac_of(b@)[k - whole_of(b@).len()]);
            }
        }
    }
    let p: i128 = (w.1 - w.0) as i128 + shift;
    Some(shifted_size(&d, p, Ghost(whole_of(b@).len() + exponent_of(b@))))
}

/// Puts every character of `cs` in lower case, as far as ASCII letters go.
fn lower_all(cs: &Vec<char>) -> (t: Vec<char>)
    ensures
        t@ == lowered(cs@),
{
    let mut t: Vec<char> = Vec::new();
    let mut i: usize = 0;
    while i < cs.len()
        invariant
            i <= cs.len(),
            t@ == lowered(cs@).take(i as int),
        decreases cs.len() - i,
    {
        t.push(to_lower(cs[i]));
        i = i + 1;
        assert(t@ =~= lowered(cs@).take(i as int));
    }
    assert(lowered(cs@).take(cs@.len() as int) =~= lowered(cs@));
    t
}

/// Reads a text as whole thousandths.
pub fn parse_decimal(cs: &Vec<char>) -> (r: Option<i64>)
    ensures
        r == parse_milli(cs@),
{
    let t = lower_all(cs);
    let mut start: usize = 0;
    let mut negative = false;
    if t.len() > 0 {
        let c = t[0];
        if c == '-' || c == '+' {
            start = 1;
            negative = c == '-';
        }
    }
    let b = copy_range(&t, start, t.len());
    assert(b@ =~= t@.skip(sign_len(t@)));
    if names_infinity(&b) {
        return Some(
            if negative {
                -i64::MAX
            } else {
                i64::MAX
            },
        );
    }
    match number_size(&b) {
        Some(size) => Some(
            if negative {
                -size
            } else {
                size
            },
        ),
        None => None,
    }
}

} // verus!
