//! Two-line element sets: the fixed-column text format and its decoding into
//! orbital elements held as exact fixed-point integers.
use vstd::prelude::*;
use vstd::utf8::encode_utf8;

verus! {

/// Length of each element line, checksum digit included.
pub const LINE_LENGTH: usize = 69;

/// A named element set as it is distributed: a free-text label and two lines.
pub struct Tle {
    pub name: String,
    pub line1: String,
    pub line2: String,
}

/// A number written as `±0.ddddd` times ten to the power `±e`.
#[derive(Clone, Copy, Debug, PartialEq, Eq, Structural)]
pub struct Exponential {
    /// The five mantissa digits as an integer, with the sign.
    pub mantissa: i64,
    pub exponent: i64,
}

/// The decoded orbital elements. A field named `_eN` holds the value times 10^N.
#[derive(Clone, Copy, Debug, PartialEq, Eq, Structural)]
pub struct ElementSet {
    pub catalog_number: u64,
    /// Last two digits of the epoch year.
    pub epoch_year: u64,
    /// Day of the year of the epoch, fractional.
    pub epoch_day_e8: u64,
    /// First time derivative of the mean motion, divided by two, in revolutions per day squared.
    pub mean_motion_dot_e8: i64,
    /// Second time derivative of the mean motion, divided by six.
    pub mean_motion_ddot: Exponential,
    /// Drag term, in inverse earth radii.
    pub bstar: Exponential,
    pub inclination_deg_e4: u64,
    pub right_ascension_deg_e4: u64,
    pub eccentricity_e7: u64,
    pub argument_of_perigee_deg_e4: u64,
    pub mean_anomaly_deg_e4: u64,
    /// Revolutions per day.
    pub mean_motion_e8: u64,
    pub revolution_number: u64,
}

pub open spec fn is_digit(c: u8) -> bool {
    48 <= c <= 57
}

pub open spec fn digit_value(c: u8) -> int {
    if is_digit(c) {
        c - 48
    } else {
        0
    }
}

pub open spec fn pow10(n: nat) -> int
    decreases n,
{
    if n == 0 {
        1
    } else {
        10 * pow10((n - 1) as nat)
    }
}

/// The number that a run of decimal digits writes; a leading space counts as zero.
pub open spec fn digits_value(s: Seq<u8>) -> int
    decreases s.len(),
{
    if s.len() == 0 {
        0
    } else {
        digits_value(s.drop_last()) * 10 + digit_value(s.last())
    }
}

/// Reading a field left to right: 0 while only spaces were seen, 1 once digits
/// follow them, 2 on anything else.
pub open spec fn field_state(s: Seq<u8>) -> int
    decreases s.len(),
{
    if s.len() == 0 {
        0
    } else {
        let p = field_state(s.drop_last());
        let c = s.last();
        if p == 2 {
            2
        } else if is_digit(c) {
            1
        } else if c == 32 && p == 0 {
            0
        } else {
            2
        }
    }
}

/// Spaces, then at least one digit.
pub open spec fn padded_digits(s: Seq<u8>) -> bool {
    field_state(s) == 1
}

/// Digits only, at least one.
pub open spec fn plain_digits(s: Seq<u8>) -> bool {
    padded_digits(s) && is_digit(s[0])
}

/// Sum of the digits of a line, with one for each minus sign, modulo ten.
pub open spec fn checksum_sum(s: Seq<u8>) -> int
    decreases s.len(),
{
    if s.len() == 0 {
        0
    } else {
        checksum_sum(s.drop_last()) + if s.last() == 45 {
            1
        } else {
            digit_value(s.last())
        }
    }
}

/// Right length, the line number in the first column and a blank after it,
/// and a last column that holds the checksum of the others.
pub open spec fn line_ok(s: Seq<u8>, number: u8) -> bool {
    s.len() == LINE_LENGTH && s[0] == number && s[1] == 32 && is_digit(s[68]) && digit_value(s[68])
        == checksum_sum(s.subrange(0, 68)) % 10
}

pub open spec fn cols(s: Seq<u8>, lo: int, hi: int) -> Seq<u8> {
    s.subrange(lo, hi)
}

/// Fixed-point value of a field `iii.ffff`: padded digits, a point, digits.
pub open spec fn decimal_ok(s: Seq<u8>, lo: int, point: int, hi: int) -> bool {
    padded_digits(cols(s, lo, point)) && s[point] == 46 && plain_digits(cols(s, point + 1, hi))
}

pub open spec fn decimal_value(s: Seq<u8>, lo: int, point: int, hi: int) -> int {
    digits_value(cols(s, lo, point)) * pow10((hi - point - 1) as nat) + digits_value(
        cols(s, point + 1, hi),
    )
}

pub open spec fn sign_ok(c: u8) -> bool {
    c == 32 || c == 43 || c == 45
}

pub open spec fn signed(c: u8, v: int) -> int {
    if c == 45 {
        -v
    } else {
        v
    }
}

/// A field `±ddddd±e` of eight columns starting at `lo`.
pub open spec fn exponential_ok(s: Seq<u8>, lo: int) -> bool {
    sign_ok(s[lo]) && plain_digits(cols(s, lo + 1, lo + 6)) && sign_ok(s[lo + 6]) && is_digit(
        s[lo + 7],
    )
}

pub open spec fn exponential_value(s: Seq<u8>, lo: int) -> Exponential {
    Exponential {
        mantissa: signed(s[lo], digits_value(cols(s, lo + 1, lo + 6))) as i64,
        exponent: signed(s[lo + 6], digit_value(s[lo + 7])) as i64,
    }
}

/// What a pair of lines must hold to decode.
pub open spec fn elements_ok(l1: Seq<u8>, l2: Seq<u8>) -> bool {
    &&& line_ok(l1, 49)
    &&& line_ok(l2, 50)
    &&& plain_digits(cols(l1, 2, 7))
    &&& cols(l1, 2, 7) == cols(l2, 2, 7)
    &&& plain_digits(cols(l1, 18, 20))
    &&& decimal_ok(l1, 20, 23, 32)
    &&& sign_ok(l1[33]) && l1[34] == 46 && plain_digits(cols(l1, 35, 43))
    &&& exponential_ok(l1, 44)
    &&& exponential_ok(l1, 53)
    &&& decimal_ok(l2, 8, 11, 16)
    &&& decimal_ok(l2, 17, 20, 25)
    &&& plain_digits(cols(l2, 26, 33))
    &&& decimal_ok(l2, 34, 37, 42)
    &&& decimal_ok(l2, 43, 46, 51)
    &&& decimal_ok(l2, 52, 54, 63)
    &&& padded_digits(cols(l2, 63, 68))
    &&& decimal_value(l2, 8, 11, 16) <= 1_800_000
    &&& decimal_value(l2, 17, 20, 25) < 3_600_000
    &&& decimal_value(l2, 34, 37, 42) < 3_600_000
    &&& decimal_value(l2, 43, 46, 51) < 3_600_000
    &&& decimal_value(l2, 52, 54, 63) > 0
}

/// The elements that a pair of lines writes.
pub open spec fn elements_value(l1: Seq<u8>, l2: Seq<u8>) -> ElementSet {
    ElementSet {
        catalog_number: digits_value(cols(l1, 2, 7)) as u64,
        epoch_year: digits_value(cols(l1, 18, 20)) as u64,
        epoch_day_e8: decimal_value(l1, 20, 23, 32) as u64,
        mean_motion_dot_e8: signed(l1[33], digits_value(cols(l1, 35, 43))) as i64,
        mean_motion_ddot: exponential_value(l1, 44),
        bstar: exponential_value(l1, 53),
        inclination_deg_e4: decimal_value(l2, 8, 11, 16) as u64,
        right_ascension_deg_e4: decimal_value(l2, 17, 20, 25) as u64,
        eccentricity_e7: digits_value(cols(l2, 26, 33)) as u64,
        argument_of_perigee_deg_e4: decimal_value(l2, 34, 37, 42) as u64,
        mean_anomaly_deg_e4: decimal_value(l2, 43, 46, 51) as u64,
        mean_motion_e8: decimal_value(l2, 52, 54, 63) as u64,
        revolution_number: digits_value(cols(l2, 63, 68)) as u64,
    }
}

/// Decoding of two element lines given as text.
pub open spec fn decode(line1: Seq<char>, line2: Seq<char>) -> Option<ElementSet> {
    let l1 = encode_utf8(line1);
    let l2 = encode_utf8(line2);
    if elements_ok(l1, l2) {
        Some(elements_value(l1, l2))
    } else {
        None
    }
}

pub proof fn lemma_pow10_monotone(a: nat, b: nat)
    requires
        a <= b,
    ensures
        1 <= pow10(a) <= pow10(b),
    decreases b,
{
    if a < b {
        lemma_pow10_monotone(a, (b - 1) as nat);
    } else if a > 0 {
        lemma_pow10_monotone((a - 1) as nat, (a - 1) as nat);
    }
}

pub proof fn lemma_digits_value_bound(s: Seq<u8>)
    ensures
        0 <= digits_value(s) < pow10(s.len()),
    decreases s.len(),
{
    if s.len() > 0 {
        lemma_digits_value_bound(s.drop_last());
    }
}

/// Reads the padded decimal field `s[lo..hi]`.
pub fn parse_padded(s: &[u8], lo: usize, hi: usize) -> (r: Option<u64>)
    requires
        lo < hi <= s@.len(),
        hi - lo <= 12,
    ensures
        r == (if padded_digits(cols(s@, lo as int, hi as int)) {
            Some(digits_value(cols(s@, lo as int, hi as int)) as u64)
        } else {
            None
        }),
{
    let mut state: u8 = 0;
    let mut value: u64 = 0;
    let mut i: usize = lo;
    while i < hi
        invariant
            lo <= i <= hi <= s@.len(),
            hi - lo <= 12,
            state == field_state(cols(s@, lo as int, i as int)),
            value == digits_value(cols(s@, lo as int, i as int)),
        decreases hi - i,
    {
        let c = s[i];
        proof {
            let t = cols(s@, lo as int, i as int + 1);
            assert(t.drop_last() =~= cols(s@, lo as int, i as int));
            assert(t.last() == c);
            lemma_digits_value_bound(cols(s@, lo as int, i as int));
            lemma_pow10_monotone((i - lo) as nat, 11);
            reveal_with_fuel(pow10, 12);
        }
        if state != 2 {
            if 48 <= c && c <= 57 {
                state = 1;
            } else if c == 32 && state == 0 {
                state = 0;
            } else {
                state = 2;
            }
        }
        value = value * 10 + if 48 <= c && c <= 57 {
            (c - 48) as u64
        } else {
            0
        };
        i = i + 1;
    }
    if state == 1 {
        Some(value)
    } else {
        None
    }
}

/// Reads the digits-only field `s[lo..hi]`.
pub fn parse_plain(s: &[u8], lo: usize, hi: usize) -> (r: Option<u64>)
    requires
        lo < hi <= s@.len(),
        hi - lo <= 12,
    ensures
        r == (if plain_digits(cols(s@, lo as int, hi as int)) {
            Some(digits_value(cols(s@, lo as int, hi as int)) as u64)
        } else {
            None
        }),
{
    let c = s[lo];
    if !(48 <= c && c <= 57) {
        return None;
    }
    parse_padded(s, lo, hi)
}

/// Reads the fixed-point field `s[lo..hi]` whose point stands at `point`.
pub fn parse_decimal(s: &[u8], lo: usize, point: usize, hi: usize) -> (r: Option<u64>)
    requires
        lo < point,
        point + 1 < hi <= s@.len(),
        hi - lo <= 13,
    ensures
        r == (if decimal_ok(s@, lo as int, point as int, hi as int) {
            Some(decimal_value(s@, lo as int, point as int, hi as int) as u64)
        } else {
            None
        }),
{
    let whole = parse_padded(s, lo, point);
    let fraction = parse_plain(s, point + 1, hi);
    if s[point] != 46 {
        return None;
    }
    match (whole, fraction) {
        (Some(w), Some(f)) => {
            let mut scale: u64 = 1;
            let mut k: usize = point + 1;
            proof {
                lemma_digits_value_bound(cols(s@, lo as int, point as int));
                lemma_digits_value_bound(cols(s@, point as int + 1, hi as int));
                lemma_pow10_monotone((point - lo) as nat, 12);
                lemma_pow10_monotone((hi - point - 1) as nat, 12);
                reveal_with_fuel(pow10, 13);
            }
            while k < hi
                invariant
                    point + 1 <= k <= hi,
                    hi - point - 1 <= 12,
                    scale == pow10((k - point - 1) as nat),
                    pow10((hi - point - 1) as nat) <= 1_000_000_000_000,
                decreases hi - k,
            {
                proof {
                    lemma_pow10_monotone((k + 1 - point - 1) as nat, (hi - point - 1) as nat);
                }
                scale = scale * 10;
                k = k + 1;
            }
            proof {
                let pw = pow10((point - lo) as nat);
                let pf = pow10((hi - point - 1) as nat);
                lemma_pow10_add((point - lo) as nat, (hi - point - 1) as nat);
                lemma_pow10_monotone((hi - lo - 1) as nat, 12);
                assert((hi - lo - 1) as nat == ((point - lo) as nat + (hi - point - 1) as nat));
                assert(w * scale + f < pw * pf) by (nonlinear_arith)
                    requires
                        0 <= w < pw,
                        0 <= f < pf,
                        scale == pf,
                ;
            }
            Some(w * scale + f)
        },
        _ => None,
    }
}

pub proof fn lemma_pow10_add(a: nat, b: nat)
    ensures
        pow10(a) * pow10(b) == pow10(a + b),
    decreases a,
{
    if a > 0 {
        lemma_pow10_add((a - 1) as nat, b);
        assert(pow10(a) * pow10(b) == 10 * (pow10((a - 1) as nat) * pow10(b))) by (nonlinear_arith)
            requires
                pow10(a) == 10 * pow10((a - 1) as nat),
        ;
    }
}

pub proof fn lemma_decimal_value_bound(s: Seq<u8>, lo: int, point: int, hi: int)
    requires
        0 <= lo < point,
        point + 1 < hi <= s.len(),
        hi - lo <= 13,
    ensures
        0 <= decimal_value(s, lo, point, hi) < 1_000_000_000_000,
{
    let pw = pow10((point - lo) as nat);
    let pf = pow10((hi - point - 1) as nat);
    let w = digits_value(cols(s, lo, point));
    let f = digits_value(cols(s, point + 1, hi));
    lemma_digits_value_bound(cols(s, lo, point));
    lemma_digits_value_bound(cols(s, point + 1, hi));
    lemma_pow10_add((point - lo) as nat, (hi - point - 1) as nat);
    lemma_pow10_monotone((hi - lo - 1) as nat, 12);
    lemma_pow10_monotone(0, (hi - point - 1) as nat);
    reveal_with_fuel(pow10, 13);
    assert((hi - lo - 1) as nat == ((point - lo) as nat + (hi - point - 1) as nat));
    assert(0 <= w * pf + f < pw * pf) by (nonlinear_arith)
        requires
            0 <= w < pw,
            0 <= f < pf,
    ;
}

fn sign_of(c: u8) -> (r: Option<bool>)
    ensures
        r == (if sign_ok(c) {
            Some(c == 45)
        } else {
            None
        }),
{
    if c == 32 || c == 43 {
        Some(false)
    } else if c == 45 {
        Some(true)
    } else {
        None
    }
}

/// Reads the field `±ddddd±e` of eight columns starting at `lo`.
pub fn parse_exponential(s: &[u8], lo: usize) -> (r: Option<Exponential>)
    requires
        lo + 8 <= s@.len(),
    ensures
        r == (if exponential_ok(s@, lo as int) {
            Some(exponential_value(s@, lo as int))
        } else {
            None
        }),
{
    let negative = sign_of(s[lo]);
    let mantissa = parse_plain(s, lo + 1, lo + 6);
    let exponent_negative = sign_of(s[lo + 6]);
    let e = s[lo + 7];
    match (negative, mantissa, exponent_negative) {
        (Some(n), Some(m), Some(en)) => {
            if !(48 <= e && e <= 57) {
                return None;
            }
            proof {
                lemma_digits_value_bound(cols(s@, lo as int + 1, lo as int + 6));
                reveal_with_fuel(pow10, 6);
            }
            let m: i64 = m as i64;
            let d: i64 = (e - 48) as i64;
            Some(
                Exponential {
                    mantissa: if n {
                        -m
                    } else {
                        m
                    },
                    exponent: if en {
                        -d
                    } else {
                        d
                    },
                },
            )
        },
        _ => None,
    }
}

/// Whether the last column of a line holds the checksum of the columns before it.
pub fn checksum_ok(s: &[u8]) -> (r: bool)
    requires
        s@.len() == LINE_LENGTH,
    ensures
        r == (is_digit(s@[68]) && digit_value(s@[68]) == checksum_sum(s@.subrange(0, 68)) % 10),
{
    let mut sum: u64 = 0;
    let mut i: usize = 0;
    while i < 68
        invariant
            0 <= i <= 68,
            s@.len() == LINE_LENGTH,
            sum == checksum_sum(s@.subrange(0, i as int)),
            sum <= 9 * i,
        decreases 68 - i,
    {
        let c = s[i];
        assert(s@.subrange(0, i as int + 1).drop_last() =~= s@.subrange(0, i as int));
        if c == 45 {
            sum = sum + 1;
        } else if 48 <= c && c <= 57 {
            sum = sum + (c - 48) as u64;
        }
        i = i + 1;
    }
    let last = s[68];
    48 <= last && last <= 57 && (last - 48) as u64 == sum % 10
}

/// Decodes two element lines given as bytes.
pub fn parse_elements(l1: &[u8], l2: &[u8]) -> (r: Option<ElementSet>)
    ensures
        r == (if elements_ok(l1@, l2@) {
            Some(elements_value(l1@, l2@))
        } else {
            None
        }),
{
    if l1.len() != LINE_LENGTH || l2.len() != LINE_LENGTH {
        return None;
    }
    if l1[0] != 49 || l1[1] != 32 || l2[0] != 50 || l2[1] != 32 {
        return None;
    }
    if !checksum_ok(l1) || !checksum_ok(l2) {
        return None;
    }
    let mut k: usize = 2;
    while k < 7
        invariant
            2 <= k <= 7,
            l1@.len() == LINE_LENGTH,
            l2@.len() == LINE_LENGTH,
            forall|j: int| 2 <= j < k ==> l1@[j] == l2@[j],
        decreases 7 - k,
    {
        if l1[k] != l2[k] {
            assert(cols(l1@, 2, 7)[k - 2] != cols(l2@, 2, 7)[k - 2]);
            return None;
        }
        k = k + 1;
    }
    assert(cols(l1@, 2, 7) =~= cols(l2@, 2, 7));
    let catalog_number = parse_plain(l1, 2, 7);
    let epoch_year = parse_plain(l1, 18, 20);
    let epoch_day = parse_decimal(l1, 20, 23, 32);
    let dot_negative = sign_of(l1[33]);
    let dot_digits = parse_plain(l1, 35, 43);
    let ddot = parse_exponential(l1, 44);
    let bstar = parse_exponential(l1, 53);
    let inclination = parse_decimal(l2, 8, 11, 16);
    let right_ascension = parse_decimal(l2, 17, 20, 25);
    let eccentricity = parse_plain(l2, 26, 33);
    let perigee = parse_decimal(l2, 34, 37, 42);
    let anomaly = parse_decimal(l2, 43, 46, 51);
    let motion = parse_decimal(l2, 52, 54, 63);
    let revolution = parse_padded(l2, 63, 68);
    if l1[34] != 46 {
        return None;
    }
    match (catalog_number, epoch_year, epoch_day, dot_negative, dot_digits, ddot, bstar) {
        (Some(c), Some(y), Some(d), Some(dn), Some(dd), Some(dd2), Some(b)) => {
            match (inclination, right_ascension, eccentricity, perigee, anomaly, motion, revolution) {
                (Some(i), Some(ra), Some(e), Some(w), Some(m), Some(n), Some(rev)) => {
                    proof {
                        lemma_decimal_value_bound(l2@, 8, 11, 16);
                        lemma_decimal_value_bound(l2@, 17, 20, 25);
                        lemma_decimal_value_bound(l2@, 34, 37, 42);
                        lemma_decimal_value_bound(l2@, 43, 46, 51);
                        lemma_decimal_value_bound(l2@, 52, 54, 63);
                    }
                    if i > 1_800_000 || ra >= 3_600_000 || w >= 3_600_000 || m >= 3_600_000 || n
                        == 0 {
                        return None;
                    }
                    proof {
                        lemma_digits_value_bound(cols(l1@, 35, 43));
                        reveal_with_fuel(pow10, 9);
                    }
                    let dd: i64 = dd as i64;
                    Some(
                        ElementSet {
                            catalog_number: c,
                            epoch_year: y,
                            epoch_day_e8: d,
                            mean_motion_dot_e8: if dn {
                                -dd
                            } else {
                                dd
                            },
                            mean_motion_ddot: dd2,
                            bstar: b,
                            inclination_deg_e4: i,
                            right_ascension_deg_e4: ra,
                            eccentricity_e7: e,
                            argument_of_perigee_deg_e4: w,
                            mean_anomaly_deg_e4: m,
                            mean_motion_e8: n,
                            revolution_number: rev,
                        },
                    )
                },
                _ => None,
            }
        },
        _ => None,
    }
}

impl Tle {
    /// Decodes the two element lines; `None` when they are malformed.
    pub fn elements(&self) -> (r: Option<ElementSet>)
        ensures
            r == decode(self.line1@, self.line2@),
    {
        parse_elements(self.line1.as_str().as_bytes(), self.line2.as_str().as_bytes())
    }
}

} // verus!
