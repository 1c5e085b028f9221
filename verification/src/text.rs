//! ASCII text building and parsing helpers.
//!
//! Strings that the engine produces (URLs, tile paths, CSV lines) are built
//! as ASCII byte vectors and converted to `String` at the edge; strings it
//! inspects are read through `as_bytes`, so every contract is stated over
//! byte sequences.

use vstd::prelude::*;

verus! {

use vstd::string::StringSliceAdditionalSpecFns;

/// Decimal representation of `n`, most significant digit first, as ASCII bytes.
pub open spec fn dec_rep(n: nat) -> Seq<u8>
    decreases n,
{
    if n < 10 {
        seq![(48 + n) as u8]
    } else {
        dec_rep(n / 10).push((48 + n % 10) as u8)
    }
}

/// Appends the decimal digits of `n` to `out`.
pub fn push_dec_u64(out: &mut Vec<u8>, n: u64)
    ensures
        final(out)@ == old(out)@ + dec_rep(n as nat),
    decreases n,
{
    if n >= 10 {
        push_dec_u64(out, n / 10);
    }
    out.push(48 + (n % 10) as u8);
    assert(final(out)@ =~= old(out)@ + dec_rep(n as nat));
}

/// Every byte of a decimal representation is an ASCII digit.
pub proof fn lemma_dec_rep_digits(n: nat)
    ensures
        forall|i: int| 0 <= i < dec_rep(n).len() ==> 48 <= #[trigger] dec_rep(n)[i] <= 57,
    decreases n,
{
    if n >= 10 {
        lemma_dec_rep_digits(n / 10);
        assert forall|i: int| 0 <= i < dec_rep(n).len() implies 48 <= #[trigger] dec_rep(n)[i]
            <= 57 by {
            if i < dec_rep(n / 10).len() {
                assert(dec_rep(n)[i] == dec_rep(n / 10)[i]);
            } else {
                assert(dec_rep(n)[i] == (48 + n % 10) as u8);
            }
        }
    }
}

/// A rendered decimal has at least one digit.
pub proof fn lemma_dec_rep_len_pos(n: nat)
    ensures
        dec_rep(n).len() >= 1,
{
    if n < 10 {
        assert(dec_rep(n) =~= seq![(48 + n) as u8]);
    } else {
        assert(dec_rep(n) =~= dec_rep(n / 10).push((48 + n % 10) as u8));
    }
}

/// A rendered decimal is canonical: no leading zero unless it is the
/// single digit zero.
pub proof fn lemma_dec_rep_canonical(n: nat)
    ensures
        dec_rep(n).len() >= 1,
        dec_rep(n).len() == 1 || dec_rep(n)[0] != 48,
    decreases n,
{
    if n < 10 {
        assert(dec_rep(n) =~= seq![(48 + n) as u8]);
    } else {
        lemma_dec_rep_canonical(n / 10);
        assert(dec_rep(n) =~= dec_rep(n / 10).push((48 + n % 10) as u8));
        assert(dec_rep(n).len() == dec_rep(n / 10).len() + 1);
        assert(dec_rep(n)[0] == dec_rep(n / 10)[0]);
        if n / 10 < 10 {
            assert(dec_rep(n / 10) =~= seq![(48 + n / 10) as u8]);
            assert(n / 10 >= 1);
            assert(dec_rep(n / 10)[0] == (48 + n / 10) as u8);
        } else {
            lemma_dec_rep_len_pos(n / 10 / 10);
            assert(dec_rep(n / 10) =~= dec_rep(n / 10 / 10).push((48 + (n / 10) % 10) as u8));
            assert(dec_rep(n / 10).len() >= 2);
        }
    }
}

/// Reading a rendered decimal back gives the value.
pub proof fn lemma_dec_value_of_rep(n: nat)
    ensures
        dec_value(dec_rep(n)) == n,
    decreases n,
{
    if n < 10 {
        assert(dec_rep(n) =~= seq![(48 + n) as u8]);
        assert(dec_rep(n).drop_last() =~= Seq::<u8>::empty());
        assert(dec_value(dec_rep(n)) == dec_value(Seq::<u8>::empty()) * 10 + ((48 + n) as u8
            - 48) as nat);
    } else {
        lemma_dec_value_of_rep(n / 10);
        assert(dec_rep(n) =~= dec_rep(n / 10).push((48 + n % 10) as u8));
        assert(dec_rep(n).drop_last() =~= dec_rep(n / 10));
        assert(dec_rep(n).last() == (48 + n % 10) as u8);
        assert(dec_value(dec_rep(n)) == dec_value(dec_rep(n / 10)) * 10 + ((48 + n % 10) as u8
            - 48) as nat);
    }
}

/// The first occurrence of a byte is where the first occurrence is.
pub proof fn lemma_first_byte_at(s: Seq<u8>, x: u8, pos: int)
    requires
        0 <= pos < s.len(),
        s[pos] == x,
        forall|j: int| 0 <= j < pos ==> s[j] != x,
    ensures
        first_byte_idx(s, x) == pos,
{
    lemma_first_byte_idx(s, x);
    let idx = first_byte_idx(s, x);
    if idx < 0 {
        assert(s[pos] != x);
    } else if idx < pos {
        assert(s[idx] != x);
    } else if idx > pos {
        assert(s[pos] != x);
    }
}

/// The characters spelled by a sequence of ASCII bytes.
pub open spec fn ascii_view(bytes: Seq<u8>) -> Seq<char> {
    bytes.map_values(|b: u8| b as char)
}

/// The decimal form of `n`, as a `String`.
pub fn u64_to_string(n: u64) -> (s: String)
    ensures
        s@ == ascii_view(dec_rep(n as nat)),
{
    let mut out: Vec<u8> = Vec::new();
    push_dec_u64(&mut out, n);
    proof {
        lemma_dec_rep_digits(n as nat);
    }
    ascii_to_string(out)
}

/// Relies on `String::from_utf8`: a vector of ASCII bytes is valid UTF-8 and
/// converts to the string whose characters are exactly those bytes.
#[verifier::external_body]
pub(crate) fn ascii_to_string(v: Vec<u8>) -> (s: String)
    requires
        forall|i: int| 0 <= i < v@.len() ==> v@[i] < 128,
    ensures
        s@ == ascii_view(v@),
{
    String::from_utf8(v).unwrap_or_default()
}

/// True iff every byte is an ASCII digit.
pub open spec fn all_digits(s: Seq<u8>) -> bool {
    forall|i: int| 0 <= i < s.len() ==> 48 <= #[trigger] s[i] <= 57
}

/// Numeric value of a digit string, most significant digit first.
pub open spec fn dec_value(s: Seq<u8>) -> nat
    decreases s.len(),
{
    if s.len() == 0 {
        0
    } else {
        dec_value(s.drop_last()) * 10 + (s.last() - 48) as nat
    }
}

/// Extending a digit string by one digit multiplies the value by ten.
proof fn lemma_dec_value_step(s: Seq<u8>, k: int)
    requires
        0 <= k < s.len(),
        48 <= s[k],
    ensures
        dec_value(s.subrange(0, k + 1)) == dec_value(s.subrange(0, k)) * 10 + (s[k] - 48),
{
    let t = s.subrange(0, k + 1);
    assert(t.len() == k + 1);
    assert(dec_value(t) == dec_value(t.drop_last()) * 10 + (t.last() - 48) as nat);
    assert(t.drop_last() =~= s.subrange(0, k));
    assert(t.last() == s[k]);
}

/// The value of a digit string is at least the value of any of its prefixes.
proof fn lemma_dec_value_prefix(s: Seq<u8>, k: int)
    requires
        0 <= k <= s.len(),
        all_digits(s),
    ensures
        dec_value(s) >= dec_value(s.subrange(0, k)),
    decreases s.len() - k,
{
    if k == s.len() {
        assert(s.subrange(0, k) =~= s);
    } else {
        lemma_dec_value_step(s, k);
        lemma_dec_value_prefix(s, k + 1);
    }
}

/// Parses an unsigned decimal integer; `None` on an empty string, a non-digit
/// byte, or a value that does not fit.
pub fn parse_u32(b: &[u8]) -> (r: Option<u32>)
    ensures
        r is Some <==> (b@.len() > 0 && all_digits(b@) && dec_value(b@) <= u32::MAX),
        r is Some ==> r->0 == dec_value(b@),
{
    if b.len() == 0 {
        return None;
    }
    let mut acc: u32 = 0;
    let mut k: usize = 0;
    while k < b.len()
        invariant
            k <= b@.len(),
            all_digits(b@.subrange(0, k as int)),
            acc == dec_value(b@.subrange(0, k as int)),
        decreases b@.len() - k,
    {
        let c = b[k];
        if c < 48 || c > 57 {
            assert(!all_digits(b@));
            return None;
        }
        let d = (c - 48) as u32;
        proof {
            lemma_dec_value_step(b@, k as int);
        }
        if acc > (u32::MAX - d) / 10 {
            proof {
                assert(all_digits(b@.subrange(0, k as int + 1)));
                assert(dec_value(b@.subrange(0, k as int + 1)) > u32::MAX);
                if all_digits(b@) {
                    lemma_dec_value_prefix(b@, k as int + 1);
                }
            }
            return None;
        }
        acc = acc * 10 + d;
        k = k + 1;
    }
    assert(b@.subrange(0, b@.len() as int) =~= b@);
    Some(acc)
}

/// Powers of ten.
pub open spec fn pow10(k: nat) -> nat
    decreases k,
{
    if k == 0 {
        1
    } else {
        10 * pow10((k - 1) as nat)
    }
}

/// Value contributed by a fraction written after the decimal point, in units
/// of `10^-k`: the first `k` digits are read, later digits are cut off.
pub open spec fn frac_value(s: Seq<u8>, k: nat) -> nat
    decreases k,
{
    if k == 0 || s.len() == 0 {
        0
    } else {
        (s[0] - 48) as nat * pow10((k - 1) as nat) + frac_value(s.drop_first(), (k - 1) as nat)
    }
}

/// Fractional digits in units of `10^-7`, as stored coordinates use.
pub fn parse_frac_e7(b: &[u8]) -> (r: Option<u64>)
    ensures
        r is Some <==> all_digits(b@),
        r is Some ==> r->0 == frac_value(b@, 7) && r->0 < 10000000,
{
    proof {
        lemma_pow10_7();
    }
    let mut acc: u64 = 0;
    let mut k: usize = 0;
    let mut scale: u64 = 10000000;
    while k < b.len()
        invariant
            k <= b@.len(),
            all_digits(b@.subrange(0, k as int)),
            scale == if k < 7 { pow10((7 - k) as nat) } else { 1nat },
            acc == frac_value(b@.subrange(0, k as int), 7),
            acc < 10000000,
        decreases b@.len() - k,
    {
        let c = b[k];
        if c < 48 || c > 57 {
            assert(!all_digits(b@));
            return None;
        }
        proof {
            lemma_frac_prefix_step(b@, k as int);
        }
        if k < 7 {
            let d = (c - 48) as u64;
            scale = scale / 10;
            proof {
                assert(pow10((7 - k) as nat) == 10 * pow10((6 - k) as nat));
                lemma_pow10_7();
                lemma_pow10_mono((6 - k) as nat, 7);
                assert(all_digits(b@.subrange(0, k as int + 1)));
                lemma_frac_bound(b@.subrange(0, k as int + 1), 7);
            }
            acc = acc + d * scale;
        }
        k = k + 1;
    }
    assert(b@.subrange(0, b@.len() as int) =~= b@);
    Some(acc)
}

/// Ten to the seventh, spelled out for the solver.
proof fn lemma_pow10_7()
    ensures
        pow10(7) == 10000000,
{
    assert(pow10(0) == 1);
    assert(pow10(1) == 10);
    assert(pow10(2) == 100);
    assert(pow10(3) == 1000);
    assert(pow10(4) == 10000);
    assert(pow10(5) == 100000);
    assert(pow10(6) == 1000000);
    assert(pow10(7) == 10000000);
}

/// Powers of ten grow with the exponent.
proof fn lemma_pow10_mono(a: nat, b: nat)
    requires
        a <= b,
    ensures
        pow10(a) <= pow10(b),
    decreases b,
{
    if a < b {
        lemma_pow10_mono(a, (b - 1) as nat);
        assert(pow10(b) == 10 * pow10((b - 1) as nat));
    }
}

/// Reading one more fractional digit adds its scaled value while the first
/// seven positions are being filled, and changes nothing afterwards.
proof fn lemma_frac_prefix_step(s: Seq<u8>, k: int)
    requires
        0 <= k < s.len(),
        48 <= s[k],
    ensures
        k < 7 ==> frac_value(s.subrange(0, k + 1), 7) == frac_value(s.subrange(0, k), 7) + (
        s[k] - 48) * pow10((6 - k) as nat),
        k >= 7 ==> frac_value(s.subrange(0, k + 1), 7) == frac_value(s.subrange(0, k), 7),
{
    lemma_frac_append(s.subrange(0, k), s[k], 7);
    assert(s.subrange(0, k).push(s[k]) =~= s.subrange(0, k + 1));
}

/// Powers of ten are positive.
proof fn lemma_pow10_pos(k: nat)
    ensures
        pow10(k) >= 1,
    decreases k,
{
    if k > 0 {
        lemma_pow10_pos((k - 1) as nat);
    }
}

/// Appending a digit to a fraction already `k` digits long.
proof fn lemma_frac_append(s: Seq<u8>, c: u8, k: nat)
    requires
        48 <= c,
    ensures
        s.len() < k ==> frac_value(s.push(c), k) == frac_value(s, k) + (c - 48) * pow10(
            (k - s.len() - 1) as nat,
        ),
        s.len() >= k ==> frac_value(s.push(c), k) == frac_value(s, k),
    decreases k,
{
    if k == 0 {
    } else if s.len() == 0 {
        assert(s.push(c)[0] == c);
        assert(s.push(c).drop_first() =~= s);
        assert(frac_value(s.push(c), k) == (c - 48) as nat * pow10((k - 1) as nat)
            + frac_value(s.push(c).drop_first(), (k - 1) as nat));
        assert(frac_value(s, (k - 1) as nat) == 0);
        assert(frac_value(s, k) == 0);
    } else {
        lemma_frac_append(s.drop_first(), c, (k - 1) as nat);
        assert(s.push(c).drop_first() =~= s.drop_first().push(c));
        assert(s.push(c)[0] == s[0]);
        assert(frac_value(s.push(c), k) == (s[0] - 48) as nat * pow10((k - 1) as nat)
            + frac_value(s.drop_first().push(c), (k - 1) as nat));
        assert(frac_value(s, k) == (s[0] - 48) as nat * pow10((k - 1) as nat) + frac_value(
            s.drop_first(),
            (k - 1) as nat,
        ));
    }
}

/// A fraction of `k` digits is below one whole unit.
proof fn lemma_frac_bound(s: Seq<u8>, k: nat)
    requires
        all_digits(s),
    ensures
        frac_value(s, k) < pow10(k),
    decreases k,
{
    if k == 0 {
    } else if s.len() == 0 {
        lemma_pow10_pos(k);
    } else {
        assert(all_digits(s.drop_first())) by {
            assert(forall|i: int| 0 <= i < s.drop_first().len() ==> s.drop_first()[i] == s[i
                + 1]);
        }
        lemma_frac_bound(s.drop_first(), (k - 1) as nat);
        assert(48 <= s[0] <= 57);
        assert((s[0] - 48) as nat * pow10((k - 1) as nat) <= 9 * pow10((k - 1) as nat)) by {
            vstd::arithmetic::mul::lemma_mul_inequality(
                (s[0] - 48) as int,
                9,
                pow10((k - 1) as nat) as int,
            );
        }
        assert(pow10(k) == 10 * pow10((k - 1) as nat));
    }
}

/// Index of the first occurrence of `x`, or `-1` when absent.
pub open spec fn first_byte_idx(s: Seq<u8>, x: u8) -> int
    decreases s.len(),
{
    if s.len() == 0 {
        -1
    } else if s[0] == x {
        0
    } else if first_byte_idx(s.drop_first(), x) < 0 {
        -1
    } else {
        first_byte_idx(s.drop_first(), x) + 1
    }
}

/// What `first_byte_idx` means, element by element.
pub proof fn lemma_first_byte_idx(s: Seq<u8>, x: u8)
    ensures
        first_byte_idx(s, x) < 0 ==> forall|i: int| 0 <= i < s.len() ==> s[i] != x,
        first_byte_idx(s, x) >= 0 ==> 0 <= first_byte_idx(s, x) < s.len() && s[first_byte_idx(
            s,
            x,
        )] == x && forall|i: int| 0 <= i < first_byte_idx(s, x) ==> s[i] != x,
    decreases s.len(),
{
    if s.len() > 0 && s[0] != x {
        lemma_first_byte_idx(s.drop_first(), x);
        if first_byte_idx(s.drop_first(), x) < 0 {
            assert forall|i: int| 0 <= i < s.len() implies s[i] != x by {
                if i > 0 {
                    assert(s.drop_first()[i - 1] == s[i]);
                }
            }
        } else {
            let d = first_byte_idx(s.drop_first(), x);
            assert(s.drop_first()[d] == s[d + 1]);
            assert forall|i: int| 0 <= i < d + 1 implies s[i] != x by {
                if i > 0 {
                    assert(s.drop_first()[i - 1] == s[i]);
                }
            }
        }
    }
}

/// Finds the first occurrence of a byte.
pub fn find_byte(b: &[u8], x: u8) -> (r: Option<usize>)
    ensures
        r is None <==> first_byte_idx(b@, x) < 0,
        r is Some ==> r->0 == first_byte_idx(b@, x),
{
    proof {
        lemma_first_byte_idx(b@, x);
    }
    let mut k: usize = 0;
    while k < b.len()
        invariant
            k <= b@.len(),
            forall|j: int| 0 <= j < k ==> b@[j] != x,
            first_byte_idx(b@, x) < 0 ==> forall|i: int| 0 <= i < b@.len() ==> b@[i] != x,
            first_byte_idx(b@, x) >= 0 ==> 0 <= first_byte_idx(b@, x) < b@.len() && b@[
                first_byte_idx(b@, x)] == x && forall|i: int|
                0 <= i < first_byte_idx(b@, x) ==> b@[i] != x,
        decreases b@.len() - k,
    {
        if b[k] == x {
            return Some(k);
        }
        k = k + 1;
    }
    None
}

/// Sign factor of a fixed-point coordinate literal.
pub open spec fn e7_sign(b: Seq<u8>) -> int {
    if b.len() > 0 && b[0] == 45 {
        -1
    } else {
        1
    }
}

/// The digits of the literal, with a leading minus stripped.
pub open spec fn e7_body(b: Seq<u8>) -> Seq<u8> {
    if b.len() > 0 && b[0] == 45 {
        b.drop_first()
    } else {
        b
    }
}

/// Integer digits of the body: everything before the first dot.
pub open spec fn e7_int(body: Seq<u8>) -> Seq<u8> {
    if first_byte_idx(body, 46) < 0 {
        body
    } else {
        body.subrange(0, first_byte_idx(body, 46))
    }
}

/// Fraction digits of the body: everything after the first dot.
pub open spec fn e7_frac(body: Seq<u8>) -> Seq<u8> {
    if first_byte_idx(body, 46) < 0 {
        Seq::empty()
    } else {
        body.subrange(first_byte_idx(body, 46) + 1, body.len() as int)
    }
}

/// A well-formed coordinate literal: optional minus, one to ten integer
/// digits, then optionally a dot and fraction digits.
pub open spec fn e7_valid(b: Seq<u8>) -> bool {
    &&& 0 < e7_int(e7_body(b)).len() <= 10
    &&& all_digits(e7_int(e7_body(b)))
    &&& all_digits(e7_frac(e7_body(b)))
}

/// The value of the literal in units of `10^-7` degrees; fraction digits past
/// the seventh are cut off.
pub open spec fn e7_value(b: Seq<u8>) -> int {
    e7_sign(b) * (dec_value(e7_int(e7_body(b))) * 10000000 + frac_value(
        e7_frac(e7_body(b)),
        7,
    ))
}

/// A digit string of `n` digits is below `10^n`.
proof fn lemma_dec_value_len(s: Seq<u8>)
    requires
        all_digits(s),
    ensures
        dec_value(s) < pow10(s.len()),
    decreases s.len(),
{
    if s.len() == 0 {
    } else {
        assert(all_digits(s.drop_last()));
        lemma_dec_value_len(s.drop_last());
        assert(pow10(s.len()) == 10 * pow10((s.len() - 1) as nat));
        assert((s.last() - 48) as nat <= 9);
    }
}

/// Ten to the tenth, spelled out for the solver.
proof fn lemma_pow10_10()
    ensures
        pow10(10) == 10000000000,
{
    lemma_pow10_7();
    assert(pow10(8) == 10 * pow10(7));
    assert(pow10(9) == 10 * pow10(8));
    assert(pow10(10) == 10 * pow10(9));
}

/// Integer digits of a coordinate: at most ten of them, value exact.
fn parse_int_part(b: &[u8]) -> (r: Option<u64>)
    ensures
        r is Some <==> (0 < b@.len() <= 10 && all_digits(b@)),
        r is Some ==> r->0 == dec_value(b@) && r->0 < 10000000000,
{
    if b.len() == 0 || b.len() > 10 {
        return None;
    }
    proof {
        lemma_pow10_10();
    }
    let mut acc: u64 = 0;
    let mut k: usize = 0;
    while k < b.len()
        invariant
            0 < b@.len() <= 10,
            k <= b@.len(),
            all_digits(b@.subrange(0, k as int)),
            acc == dec_value(b@.subrange(0, k as int)),
            acc < 10000000000,
            pow10(10) == 10000000000,
        decreases b@.len() - k,
    {
        let c = b[k];
        if c < 48 || c > 57 {
            assert(!all_digits(b@));
            return None;
        }
        proof {
            lemma_dec_value_step(b@, k as int);
            assert(all_digits(b@.subrange(0, k as int + 1)));
            lemma_dec_value_len(b@.subrange(0, k as int + 1));
            lemma_pow10_mono((k + 1) as nat, 10);
        }
        acc = acc * 10 + (c - 48) as u64;
        k = k + 1;
    }
    assert(b@.subrange(0, b@.len() as int) =~= b@);
    Some(acc)
}

/// Parses a decimal coordinate literal into units of `10^-7` degrees.
pub fn parse_e7(b: &[u8]) -> (r: Option<i64>)
    ensures
        r is Some <==> e7_valid(b@),
        r is Some ==> r->0 == e7_value(b@),
{
    let body: &[u8] = if b.len() > 0 && b[0] == 45 {
        &b[1..b.len()]
    } else {
        &b[0..b.len()]
    };
    assert(body@ =~= e7_body(b@));
    proof {
        lemma_first_byte_idx(body@, 46);
    }
    let (int_part, frac_part): (&[u8], &[u8]) = match find_byte(body, 46) {
        Some(d) => {
            let ip = &body[0..d];
            let fp = &body[d + 1..body.len()];
            (ip, fp)
        },
        None => {
            let e = body.len();
            (&body[0..e], &body[e..e])
        },
    };
    assert(int_part@ =~= e7_int(e7_body(b@)));
    assert(frac_part@ =~= e7_frac(e7_body(b@)));
    let int_val = match parse_int_part(int_part) {
        Some(v) => v,
        None => {
            return None;
        },
    };
    let frac_val = match parse_frac_e7(frac_part) {
        Some(v) => v,
        None => {
            return None;
        },
    };
    let magnitude: u64 = int_val * 10000000 + frac_val;
    proof {
        assert(magnitude == dec_value(e7_int(e7_body(b@))) * 10000000 + frac_value(
            e7_frac(e7_body(b@)),
            7,
        ));
        assert(magnitude <= 100000000000000000);
    }
    let signed: i64 = if b.len() > 0 && b[0] == 45 {
        assert(e7_sign(b@) == -1);
        -(magnitude as i64)
    } else {
        assert(e7_sign(b@) == 1);
        magnitude as i64
    };
    Some(signed)
}

/// A digit string with its trailing zeros removed.
pub open spec fn strip_zeros(s: Seq<u8>) -> Seq<u8>
    decreases s.len(),
{
    if s.len() > 0 && s.last() == 48 {
        strip_zeros(s.drop_last())
    } else {
        s
    }
}

/// The seven fraction digits of a value below `10^7`, zero-padded at the
/// front.
pub open spec fn frac7_padded(f: nat) -> Seq<u8> {
    Seq::new((7 - dec_rep(f).len()) as nat, |i: int| 48u8) + dec_rep(f)
}

/// Decimal rendering of a fixed-point value: sign, whole degrees, then a
/// point and the fraction digits with trailing zeros dropped; no point at
/// all when the fraction is zero.
pub open spec fn e7_rep(v: int) -> Seq<u8> {
    let m = if v < 0 {
        -v
    } else {
        v
    };
    let sign: Seq<u8> = if v < 0 {
        seq![45u8]
    } else {
        Seq::empty()
    };
    let frac = strip_zeros(frac7_padded((m % 10000000) as nat));
    if frac.len() == 0 {
        sign + dec_rep((m / 10000000) as nat)
    } else {
        sign + dec_rep((m / 10000000) as nat) + seq![46u8] + frac
    }
}

/// `dec_rep` of a value below `10^k` has at most `k` digits.
proof fn lemma_dec_rep_len(n: nat, k: nat)
    requires
        n < pow10(k),
        k >= 1,
    ensures
        dec_rep(n).len() <= k,
    decreases k,
{
    if n < 10 {
    } else {
        assert(pow10(k) == 10 * pow10((k - 1) as nat));
        lemma_dec_rep_len(n / 10, (k - 1) as nat);
    }
}

/// Appends the zero-padded seven fraction digits of `f`.
fn push_frac7(out: &mut Vec<u8>, f: u64)
    requires
        f < 10000000,
    ensures
        final(out)@ == old(out)@ + frac7_padded(f as nat),
{
    proof {
        lemma_pow10_7();
        lemma_dec_rep_len(f as nat, 7);
    }
    let mut digits: Vec<u8> = Vec::new();
    push_dec_u64(&mut digits, f);
    let mut pad: usize = 7 - digits.len();
    while pad > 0
        invariant
            digits@ == dec_rep(f as nat),
            pad <= 7 - digits@.len(),
            out@ == old(out)@ + Seq::new(((7 - digits@.len()) - pad) as nat, |i: int| 48u8),
        decreases pad,
    {
        out.push(48);
        assert(out@ =~= old(out)@ + Seq::new(
            ((7 - digits@.len()) - (pad - 1)) as nat,
            |i: int| 48u8,
        ));
        pad = pad - 1;
    }
    let mut k: usize = 0;
    while k < digits.len()
        invariant
            digits@ == dec_rep(f as nat),
            digits@.len() <= 7,
            k <= digits@.len(),
            out@ == old(out)@ + Seq::new((7 - digits@.len()) as nat, |i: int| 48u8)
                + digits@.subrange(0, k as int),
        decreases digits@.len() - k,
    {
        out.push(digits[k]);
        assert(out@ =~= old(out)@ + Seq::new((7 - digits@.len()) as nat, |i: int| 48u8)
            + digits@.subrange(0, k as int + 1));
        k = k + 1;
    }
    assert(digits@.subrange(0, digits@.len() as int) =~= digits@);
}

/// Renders a fixed-point degree value as its decimal literal.
pub fn e7_to_string(v: i64) -> (s: String)
    ensures
        s@ == ascii_view(e7_rep(v as int)),
{
    let m: u64 = if v < 0 {
        (-(v as i128)) as u64
    } else {
        v as u64
    };
    let whole = m / 10000000;
    let frac = m % 10000000;
    let mut out: Vec<u8> = Vec::new();
    if v < 0 {
        out.push(45);
    }
    let ghost sign_part = out@;
    push_dec_u64(&mut out, whole);
    let mut tail: Vec<u8> = Vec::new();
    push_frac7(&mut tail, frac);
    // strip trailing zeros of the fraction
    let mut end: usize = tail.len();
    assert(tail@.subrange(0, tail@.len() as int) =~= tail@);
    while end > 0 && tail[end - 1] == 48
        invariant
            tail@ == frac7_padded((m % 10000000) as nat),
            end <= tail@.len(),
            strip_zeros(tail@) == strip_zeros(tail@.subrange(0, end as int)),
        decreases end,
    {
        proof {
            assert(tail@.subrange(0, end as int).last() == tail@[end - 1]);
            assert(tail@.subrange(0, end as int).drop_last() =~= tail@.subrange(
                0,
                end as int - 1,
            ));
        }
        end = end - 1;
    }
    proof {
        if end > 0 {
            assert(tail@.subrange(0, end as int).last() == tail@[end - 1]);
            assert(strip_zeros(tail@.subrange(0, end as int)) == tail@.subrange(0, end as int));
        } else {
            assert(tail@.subrange(0, 0) =~= Seq::<u8>::empty());
            assert(strip_zeros(Seq::<u8>::empty()) =~= Seq::<u8>::empty());
        }
    }
    if end > 0 {
        out.push(46);
        let mut k: usize = 0;
        while k < end
            invariant
                tail@ == frac7_padded((m % 10000000) as nat),
                end <= tail@.len(),
                k <= end,
                out@ == sign_part + dec_rep((m / 10000000) as nat) + seq![46u8] + tail@.subrange(
                    0,
                    k as int,
                ),
            decreases end - k,
        {
            out.push(tail[k]);
            assert(out@ =~= sign_part + dec_rep((m / 10000000) as nat) + seq![46u8]
                + tail@.subrange(0, k as int + 1));
            k = k + 1;
        }
    }
    proof {
        lemma_pow10_7();
        lemma_frac7_digits((m % 10000000) as nat);
        lemma_strip_zeros_digits(frac7_padded((m % 10000000) as nat));
        lemma_dec_rep_digits((m / 10000000) as nat);
        assert(out@ =~= e7_rep(v as int));
    }
    ascii_to_string(out)
}

/// Fraction padding is made of digits.
proof fn lemma_frac7_digits(f: nat)
    ensures
        forall|i: int|
            0 <= i < frac7_padded(f).len() ==> 48 <= #[trigger] frac7_padded(f)[i] <= 57,
{
    lemma_dec_rep_digits(f);
    let pad = Seq::new((7 - dec_rep(f).len()) as nat, |i: int| 48u8);
    assert forall|i: int| 0 <= i < frac7_padded(f).len() implies 48 <= #[trigger] frac7_padded(
        f,
    )[i] <= 57 by {
        if i < pad.len() {
            assert(frac7_padded(f)[i] == pad[i]);
        } else {
            assert(frac7_padded(f)[i] == dec_rep(f)[i - pad.len()]);
        }
    }
}

/// Stripping zeros keeps only bytes of the input.
proof fn lemma_strip_zeros_digits(s: Seq<u8>)
    requires
        forall|i: int| 0 <= i < s.len() ==> 48 <= #[trigger] s[i] <= 57,
    ensures
        forall|i: int|
            0 <= i < strip_zeros(s).len() ==> 48 <= #[trigger] strip_zeros(s)[i] <= 57,
        strip_zeros(s).len() <= s.len(),
    decreases s.len(),
{
    if s.len() > 0 && s.last() == 48 {
        assert(forall|i: int| 0 <= i < s.drop_last().len() ==> s.drop_last()[i] == s[i]);
        lemma_strip_zeros_digits(s.drop_last());
    }
}

/// ASCII bytes encode to themselves: reading them as characters and
/// encoding those as UTF-8 gives the bytes back.
pub proof fn lemma_ascii_encode(d: Seq<u8>)
    requires
        forall|i: int| 0 <= i < d.len() ==> #[trigger] d[i] < 128,
    ensures
        vstd::utf8::encode_utf8(ascii_view(d)) == d,
    decreases d.len(),
{
    if d.len() == 0 {
        assert(ascii_view(d) =~= Seq::<char>::empty());
        assert(vstd::utf8::encode_utf8(ascii_view(d)) =~= Seq::<u8>::empty());
    } else {
        let chars = ascii_view(d);
        assert(chars[0] == d[0] as char);
        let x: u32 = (d[0] as char) as u32;
        assert(x == d[0]);
        assert(x & 0x7F == x) by (bit_vector)
            requires
                x < 128,
        ;
        assert(vstd::utf8::encode_scalar(x) =~= seq![d[0]]);
        assert(chars.drop_first() =~= ascii_view(d.drop_first())) by {
            assert(forall|i: int|
                0 <= i < d.drop_first().len() ==> d.drop_first()[i] == d[i + 1]);
        }
        assert(forall|i: int| 0 <= i < d.drop_first().len() ==> #[trigger] d.drop_first()[i]
            < 128);
        lemma_ascii_encode(d.drop_first());
        assert(vstd::utf8::encode_utf8(chars) =~= d);
    }
}

/// Every byte of a rendered fixed-point value is ASCII: a minus, a point
/// or a digit.
pub proof fn lemma_e7_rep_ascii(v: int)
    ensures
        forall|i: int| 0 <= i < e7_rep(v).len() ==> #[trigger] e7_rep(v)[i] < 128,
{
    let m = if v < 0 {
        -v
    } else {
        v
    };
    let sign: Seq<u8> = if v < 0 {
        seq![45u8]
    } else {
        Seq::empty()
    };
    let whole = dec_rep((m / 10000000) as nat);
    let fracp = frac7_padded((m % 10000000) as nat);
    let frac = strip_zeros(fracp);
    lemma_dec_rep_digits((m / 10000000) as nat);
    lemma_frac7_digits((m % 10000000) as nat);
    lemma_strip_zeros_digits(fracp);
    assert forall|i: int| 0 <= i < e7_rep(v).len() implies #[trigger] e7_rep(v)[i] < 128 by {
        if frac.len() == 0 {
            if i < sign.len() {
                assert(e7_rep(v)[i] == 45u8);
            } else {
                assert(e7_rep(v)[i] == whole[i - sign.len()]);
            }
        } else {
            if i < sign.len() {
                assert(e7_rep(v)[i] == 45u8);
            } else if i < sign.len() + whole.len() {
                assert(e7_rep(v)[i] == (sign + whole + seq![46u8] + frac)[i]);
                assert((sign + whole)[i] == whole[i - sign.len()]);
            } else if i == sign.len() + whole.len() {
                assert(e7_rep(v)[i] == 46u8);
            } else {
                assert(e7_rep(v)[i] == frac[i - sign.len() - whole.len() - 1]);
            }
        }
    }
}

/// Decimal rendering of a signed value.
pub open spec fn i64_rep(v: int) -> Seq<u8> {
    if v < 0 {
        seq![45u8] + dec_rep((-v) as nat)
    } else {
        dec_rep(v as nat)
    }
}

/// The decimal form of a signed value, as a `String`.
pub fn i64_to_string(v: i64) -> (s: String)
    ensures
        s@ == ascii_view(i64_rep(v as int)),
{
    let mut out: Vec<u8> = Vec::new();
    if v < 0 {
        out.push(45);
        push_dec_u64(&mut out, (-(v as i128)) as u64);
    } else {
        push_dec_u64(&mut out, v as u64);
    }
    proof {
        lemma_dec_rep_digits(if v < 0 {
            (-v) as nat
        } else {
            v as nat
        });
        assert(out@ =~= i64_rep(v as int));
    }
    ascii_to_string(out)
}

/// An ASCII whitespace byte.
pub open spec fn is_ws(b: u8) -> bool {
    b == 32 || b == 9 || b == 10 || b == 13
}

/// The byte string with leading ASCII whitespace removed.
pub open spec fn trim_start_bytes(s: Seq<u8>) -> Seq<u8>
    decreases s.len(),
{
    if s.len() > 0 && is_ws(s[0]) {
        trim_start_bytes(s.drop_first())
    } else {
        s
    }
}

/// The byte string with trailing ASCII whitespace removed.
pub open spec fn trim_end_bytes(s: Seq<u8>) -> Seq<u8>
    decreases s.len(),
{
    if s.len() > 0 && is_ws(s.last()) {
        trim_end_bytes(s.drop_last())
    } else {
        s
    }
}

/// The byte string with whitespace removed at both ends.
pub open spec fn trim_bytes(s: Seq<u8>) -> Seq<u8> {
    trim_end_bytes(trim_start_bytes(s))
}

/// A prefix of whitespace trims away.
proof fn lemma_trim_start_skip(s: Seq<u8>, k: int)
    requires
        0 <= k <= s.len(),
        forall|j: int| 0 <= j < k ==> is_ws(s[j]),
    ensures
        trim_start_bytes(s) == trim_start_bytes(s.subrange(k, s.len() as int)),
    decreases k,
{
    if k > 0 {
        assert(is_ws(s[0]));
        assert(trim_start_bytes(s) == trim_start_bytes(s.drop_first()));
        assert forall|j: int| 0 <= j < k - 1 implies is_ws(s.drop_first()[j]) by {
            assert(s.drop_first()[j] == s[j + 1]);
        }
        lemma_trim_start_skip(s.drop_first(), k - 1);
        assert(s.drop_first().subrange(k - 1, s.drop_first().len() as int) =~= s.subrange(
            k,
            s.len() as int,
        ));
    } else {
        assert(s.subrange(0, s.len() as int) =~= s);
    }
}

/// A suffix of whitespace trims away.
proof fn lemma_trim_end_skip(s: Seq<u8>, k: int)
    requires
        0 <= k <= s.len(),
        forall|j: int| k <= j < s.len() ==> is_ws(s[j]),
    ensures
        trim_end_bytes(s) == trim_end_bytes(s.subrange(0, k)),
    decreases s.len() - k,
{
    if k < s.len() {
        assert(is_ws(s.last()));
        assert(trim_end_bytes(s) == trim_end_bytes(s.drop_last()));
        lemma_trim_end_skip(s.drop_last(), k);
        assert(s.drop_last().subrange(0, k) =~= s.subrange(0, k));
    } else {
        assert(s.subrange(0, k) =~= s);
    }
}

/// A string that neither starts nor ends with whitespace trims to itself.
proof fn lemma_trim_fixed(s: Seq<u8>)
    requires
        s.len() > 0,
        !is_ws(s[0]),
        !is_ws(s.last()),
    ensures
        trim_bytes(s) == s,
{
}

/// Whitespace test on one byte.
fn ws_byte(c: u8) -> (r: bool)
    ensures
        r == is_ws(c),
{
    c == 32 || c == 9 || c == 10 || c == 13
}

/// Removes ASCII whitespace from both ends.  Multi-byte characters are
/// never touched: their bytes are all above the ASCII range.
pub fn trim_ascii(b: &[u8]) -> (r: Vec<u8>)
    ensures
        r@ == trim_bytes(b@),
{
    let n = b.len();
    let mut start: usize = 0;
    while start < n && ws_byte(b[start])
        invariant
            n == b@.len(),
            start <= n,
            forall|j: int| 0 <= j < start ==> is_ws(b@[j]),
        decreases n - start,
    {
        start = start + 1;
    }
    let mut end: usize = n;
    while end > start && ws_byte(b[end - 1])
        invariant
            n == b@.len(),
            start <= end <= n,
            forall|j: int| 0 <= j < start ==> is_ws(b@[j]),
            forall|j: int| end <= j < n ==> is_ws(b@[j]),
        decreases end,
    {
        end = end - 1;
    }
    let mut out: Vec<u8> = Vec::new();
    let mut k: usize = start;
    while k < end
        invariant
            n == b@.len(),
            start <= end <= n,
            start <= k <= end,
            out@ == b@.subrange(start as int, k as int),
        decreases end - k,
    {
        out.push(b[k]);
        assert(out@ =~= b@.subrange(start as int, k as int + 1));
        k = k + 1;
    }
    proof {
        lemma_trim_start_skip(b@, start as int);
        let tail = b@.subrange(start as int, n as int);
        assert(trim_start_bytes(b@) == trim_start_bytes(tail));
        if start < n && !is_ws(b@[start as int]) {
            assert(tail[0] == b@[start as int]);
            assert(trim_start_bytes(tail) == tail);
            assert forall|j: int| end - start <= j < tail.len() implies is_ws(tail[j]) by {
                assert(tail[j] == b@[j + start]);
            }
            lemma_trim_end_skip(tail, end - start);
            assert(tail.subrange(0, end - start) =~= b@.subrange(start as int, end as int));
            assert(out@ =~= b@.subrange(start as int, end as int));
        } else {
            // everything was whitespace
            assert(start == end);
            assert(tail.len() == n - start);
            if start < n {
                assert(is_ws(b@[start as int]));
            }
            assert forall|j: int| 0 <= j < tail.len() implies is_ws(tail[j]) by {
                assert(tail[j] == b@[j + start]);
            }
            lemma_trim_start_skip(tail, tail.len() as int);
            assert(trim_start_bytes(tail) == trim_start_bytes(
                tail.subrange(tail.len() as int, tail.len() as int),
            ));
            assert(tail.subrange(tail.len() as int, tail.len() as int) =~= Seq::<u8>::empty());
            assert(trim_start_bytes(Seq::<u8>::empty()) =~= Seq::<u8>::empty());
            assert(trim_end_bytes(Seq::<u8>::empty()) =~= Seq::<u8>::empty());
            assert(out@ =~= Seq::<u8>::empty());
        }
    }
    out
}

/// Relies on `String::from_utf8`: succeeds exactly on valid UTF-8, and the
/// returned string's byte encoding is the input.
#[verifier::external_body]
pub(crate) fn utf8_to_string(v: Vec<u8>) -> (r: Option<String>)
    ensures
        r is Some <==> vstd::utf8::valid_utf8(v@),
        r is Some ==> vstd::utf8::encode_utf8((r->0)@) == v@,
{
    String::from_utf8(v).ok()
}

/// Two character sequences are equal exactly when their UTF-8 encodings
/// are: comparing strings byte-wise is comparing them.
pub proof fn lemma_utf8_view_eq(a: Seq<char>, b: Seq<char>)
    ensures
        (vstd::utf8::encode_utf8(a) == vstd::utf8::encode_utf8(b)) <==> (a == b),
{
    vstd::utf8::encode_utf8_decode_utf8(a);
    vstd::utf8::encode_utf8_decode_utf8(b);
}

/// Byte-for-byte equality of two slices.
pub fn bytes_eq(a: &[u8], b: &[u8]) -> (r: bool)
    ensures
        r == (a@ == b@),
{
    if a.len() != b.len() {
        assert(a@ != b@) by {
            assert(a@.len() != b@.len());
        }
        return false;
    }
    let mut k: usize = 0;
    while k < a.len()
        invariant
            a@.len() == b@.len(),
            k <= a@.len(),
            forall|j: int| 0 <= j < k ==> a@[j] == b@[j],
        decreases a@.len() - k,
    {
        if a[k] != b[k] {
            return false;
        }
        k = k + 1;
    }
    assert(a@ =~= b@);
    true
}

/// ASCII uppercase letters folded to lowercase; all other bytes unchanged.
pub open spec fn lower_bytes(s: Seq<u8>) -> Seq<u8> {
    s.map_values(
        |b: u8|
            if 65 <= b <= 90 {
                (b + 32) as u8
            } else {
                b
            },
    )
}

/// ASCII-lowercases a byte string.
pub fn ascii_lower(b: &[u8]) -> (r: Vec<u8>)
    ensures
        r@ == lower_bytes(b@),
{
    let mut out: Vec<u8> = Vec::new();
    let mut k: usize = 0;
    while k < b.len()
        invariant
            k <= b@.len(),
            out@.len() == k,
            forall|j: int| 0 <= j < k ==> out@[j] == lower_bytes(b@)[j],
        decreases b@.len() - k,
    {
        let c = b[k];
        if 65 <= c && c <= 90 {
            out.push(c + 32);
        } else {
            out.push(c);
        }
        k = k + 1;
    }
    assert(out@ =~= lower_bytes(b@));
    out
}

/// True iff `needle` occurs in `hay` starting at byte offset `at`.
pub open spec fn matches_at(hay: Seq<u8>, needle: Seq<u8>, at: int) -> bool {
    0 <= at && at + needle.len() <= hay.len() && hay.subrange(
        at,
        at + needle.len(),
    ) == needle
}

/// True iff `needle` occurs somewhere in `hay`.
pub open spec fn contains_bytes(hay: Seq<u8>, needle: Seq<u8>) -> bool {
    exists|at: int| matches_at(hay, needle, at)
}

/// Byte-level substring search.
pub fn bytes_contains(hay: &[u8], needle: &[u8]) -> (r: bool)
    ensures
        r == contains_bytes(hay@, needle@),
{
    let hlen = hay.len();
    let nlen = needle.len();
    if nlen > hlen {
        assert(forall|at: int| !matches_at(hay@, needle@, at));
        return false;
    }
    let mut at: usize = 0;
    while at <= hlen - nlen
        invariant
            nlen <= hlen,
            hlen == hay@.len(),
            nlen == needle@.len(),
            at <= hlen - nlen + 1,
            forall|j: int| 0 <= j < at ==> !matches_at(hay@, needle@, j),
        decreases hlen - nlen - at + 1,
    {
        let mut k: usize = 0;
        let mut hit = true;
        while k < nlen
            invariant
                nlen <= hlen,
                hlen == hay@.len(),
                nlen == needle@.len(),
                at + nlen <= hlen,
                k <= nlen,
                hit == (forall|j: int| 0 <= j < k ==> hay@[at + j] == needle@[j]),
            decreases nlen - k,
        {
            if hay[at + k] != needle[k] {
                hit = false;
                assert(!(forall|j: int| 0 <= j < k + 1 ==> hay@[at + j] == needle@[j]));
                k = nlen;
            } else {
                k = k + 1;
            }
        }
        if hit {
            assert(hay@.subrange(at as int, at + nlen) =~= needle@);
            assert(matches_at(hay@, needle@, at as int));
            return true;
        }
        assert(!matches_at(hay@, needle@, at as int));
        at = at + 1;
    }
    assert(forall|j: int| matches_at(hay@, needle@, j) ==> 0 <= j <= hlen - nlen);
    false
}

/// Substring search on strings, byte-wise (as the store's pattern matching
/// does it).
pub fn str_contains_str(hay: &str, needle: &str) -> (r: bool)
    ensures
        r == contains_bytes(hay.spec_bytes(), needle.spec_bytes()),
{
    bytes_contains(hay.as_bytes(), needle.as_bytes())
}

/// True iff `prefix` is a byte prefix of `hay`.
pub open spec fn starts_with_bytes(hay: Seq<u8>, prefix: Seq<u8>) -> bool {
    matches_at(hay, prefix, 0)
}

/// Byte-level prefix test.
pub fn str_starts_with(hay: &str, prefix: &str) -> (r: bool)
    ensures
        r == starts_with_bytes(hay.spec_bytes(), prefix.spec_bytes()),
{
    let h = hay.as_bytes();
    let p = prefix.as_bytes();
    if p.len() > h.len() {
        return false;
    }
    let mut k: usize = 0;
    while k < p.len()
        invariant
            h@ == hay.spec_bytes(),
            p@ == prefix.spec_bytes(),
            p@.len() <= h@.len(),
            k <= p@.len(),
            forall|j: int| 0 <= j < k ==> h@[j] == p@[j],
        decreases p@.len() - k,
    {
        if h[k] != p[k] {
            assert(!starts_with_bytes(h@, p@)) by {
                if matches_at(h@, p@, 0) {
                    assert(h@.subrange(0, p@.len() as int)[k as int] == h@[k as int]);
                }
            }
            return false;
        }
        k = k + 1;
    }
    assert(h@.subrange(0, p@.len() as int) =~= p@);
    true
}

/// True iff the string consists of ASCII whitespace only (the blank-name test
/// applied to task and record names).
pub open spec fn is_blank_bytes(s: Seq<u8>) -> bool {
    forall|i: int| 0 <= i < s.len() ==> (s[i] == 32 || s[i] == 9 || s[i] == 10 || s[i] == 13)
}

/// Whether a name is blank: empty or whitespace throughout.
pub fn str_is_blank(s: &str) -> (r: bool)
    ensures
        r == is_blank_bytes(s.spec_bytes()),
{
    let b = s.as_bytes();
    let mut k: usize = 0;
    while k < b.len()
        invariant
            b@ == s.spec_bytes(),
            k <= b@.len(),
            forall|j: int| 0 <= j < k ==> (b@[j] == 32 || b@[j] == 9 || b@[j] == 10 || b@[j]
                == 13),
        decreases b@.len() - k,
    {
        let c = b[k];
        if !(c == 32 || c == 9 || c == 10 || c == 13) {
            assert(s.spec_bytes()[k as int] == c);
            return false;
        }
        k = k + 1;
    }
    true
}

} // verus!
