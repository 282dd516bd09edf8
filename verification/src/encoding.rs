//! Byte-level text encodings used by the wire protocol: lowercase
//! hexadecimal for binary fields and decimal for ports.
//!
//! All wire text is handled as UTF-8 bytes.

use vstd::prelude::*;

verus! {

/// Whether a byte is a lowercase hexadecimal digit.
pub open spec fn is_hex_digit(c: u8) -> bool {
    (48 <= c && c <= 57) || (97 <= c && c <= 102)
}

/// The lowercase hexadecimal digit for a value below 16.
pub open spec fn hex_digit(n: u8) -> u8 {
    if n < 10 {
        (48 + n) as u8
    } else {
        (97 + (n - 10)) as u8
    }
}

/// The numeric value of a lowercase hexadecimal digit.
pub open spec fn hex_val(c: u8) -> u8 {
    if c <= 57 {
        (c - 48) as u8
    } else {
        (c - 97 + 10) as u8
    }
}

/// The lowercase hexadecimal encoding of a byte sequence: two digits per
/// byte, high nibble first.
pub open spec fn hex_of(s: Seq<u8>) -> Seq<u8>
    decreases s.len(),
{
    if s.len() == 0 {
        Seq::empty()
    } else {
        seq![hex_digit(s[0] / 16), hex_digit(s[0] % 16)] + hex_of(s.drop_first())
    }
}

/// Whether a byte sequence is a well-formed lowercase hexadecimal encoding.
pub open spec fn is_hex_seq(s: Seq<u8>) -> bool {
    s.len() % 2 == 0 && forall|i: int| 0 <= i < s.len() ==> is_hex_digit(#[trigger] s[i])
}

/// Appending one byte appends its two digits.
pub proof fn lemma_hex_of_push(s: Seq<u8>, x: u8)
    ensures
        hex_of(s.push(x)) == hex_of(s) + seq![hex_digit(x / 16), hex_digit(x % 16)],
    decreases s.len(),
{
    if s.len() == 0 {
        assert(s.push(x)[0] == x);
        assert(hex_of(Seq::<u8>::empty()) =~= Seq::<u8>::empty());
        assert(s.push(x).drop_first() =~= Seq::<u8>::empty());
        assert(hex_of(s.push(x)) =~= seq![hex_digit(x / 16), hex_digit(x % 16)]);
        assert(hex_of(s.push(x)) =~= hex_of(s) + seq![hex_digit(x / 16), hex_digit(x % 16)]);
    } else {
        assert(s.push(x).drop_first() =~= s.drop_first().push(x));
        lemma_hex_of_push(s.drop_first(), x);
        assert(hex_of(s.push(x)) =~= hex_of(s) + seq![hex_digit(x / 16), hex_digit(x % 16)]);
    }
}

/// A hexadecimal encoding is always well formed.
pub proof fn lemma_hex_of_valid(s: Seq<u8>)
    ensures
        is_hex_seq(hex_of(s)),
        hex_of(s).len() == 2 * s.len(),
    decreases s.len(),
{
    if s.len() > 0 {
        lemma_hex_of_valid(s.drop_first());
    }
}

/// Distinct byte sequences have distinct hexadecimal encodings.
pub proof fn lemma_hex_of_injective(a: Seq<u8>, b: Seq<u8>)
    requires
        hex_of(a) == hex_of(b),
    ensures
        a == b,
    decreases a.len(),
{
    lemma_hex_of_valid(a);
    lemma_hex_of_valid(b);
    if a.len() == 0 {
        assert(a =~= b);
    } else {
        let ha = hex_of(a);
        let hb = hex_of(b);
        assert(ha[0] == hex_digit(a[0] / 16) && ha[1] == hex_digit(a[0] % 16));
        assert(hb[0] == hex_digit(b[0] / 16) && hb[1] == hex_digit(b[0] % 16));
        assert(a[0] == b[0]) by {
            assert(hex_digit(a[0] / 16) == hex_digit(b[0] / 16));
            assert(hex_digit(a[0] % 16) == hex_digit(b[0] % 16));
        }
        assert(hex_of(a).skip(2) =~= hex_of(a.drop_first()));
        assert(hex_of(b).skip(2) =~= hex_of(b.drop_first()));
        lemma_hex_of_injective(a.drop_first(), b.drop_first());
        assert(a =~= seq![a[0]] + a.drop_first());
        assert(b =~= seq![b[0]] + b.drop_first());
    }
}

/// Encodes bytes as lowercase hexadecimal, two digits per byte.
pub fn to_hex(b: &[u8]) -> (r: Vec<u8>)
    ensures
        r@ == hex_of(b@),
{
    let mut r: Vec<u8> = Vec::new();
    let mut i: usize = 0;
    while i < b.len()
        invariant
            i <= b.len(),
            r@ == hex_of(b@.take(i as int)),
        decreases b.len() - i,
    {
        let x = b[i];
        let hi = x / 16;
        let lo = x % 16;
        r.push(if hi < 10 { 48 + hi } else { 97 + (hi - 10) });
        r.push(if lo < 10 { 48 + lo } else { 97 + (lo - 10) });
        proof {
            lemma_hex_of_push(b@.take(i as int), b@[i as int]);
            assert(b@.take(i + 1 as int) =~= b@.take(i as int).push(b@[i as int]));
        }
        i = i + 1;
    }
    proof {
        assert(b@.take(b@.len() as int) =~= b@);
    }
    r
}

/// Decodes lowercase hexadecimal bytes. Returns the decoded bytes exactly
/// when the input is a well-formed encoding, and `None` otherwise.
pub fn from_hex(s: &[u8]) -> (r: Option<Vec<u8>>)
    ensures
        r is Some <==> is_hex_seq(s@),
        r matches Some(v) ==> hex_of(v@) == s@,
{
    if s.len() % 2 != 0 {
        return None;
    }
    let mut v: Vec<u8> = Vec::new();
    let mut i: usize = 0;
    while i < s.len()
        invariant
            i <= s.len(),
            i % 2 == 0,
            s.len() % 2 == 0,
            hex_of(v@) == s@.take(i as int),
            forall|j: int| 0 <= j < i ==> is_hex_digit(#[trigger] s@[j]),
        decreases s.len() - i,
    {
        let c1 = s[i];
        let c2 = s[i + 1];
        let hi: u8;
        let lo: u8;
        if 48 <= c1 && c1 <= 57 {
            hi = c1 - 48;
        } else if 97 <= c1 && c1 <= 102 {
            hi = c1 - 97 + 10;
        } else {
            return None;
        }
        if 48 <= c2 && c2 <= 57 {
            lo = c2 - 48;
        } else if 97 <= c2 && c2 <= 102 {
            lo = c2 - 97 + 10;
        } else {
            return None;
        }
        let x = hi * 16 + lo;
        let ghost vprev = v@;
        v.push(x);
        proof {
            assert(x / 16 == hi && x % 16 == lo) by (nonlinear_arith)
                requires
                    hi < 16,
                    lo < 16,
                    x == hi * 16 + lo,
            ;
            lemma_hex_of_push(vprev, x);
            assert(v@ =~= vprev.push(x));
            assert(hex_digit(x / 16) == s@[i as int]);
            assert(hex_digit(x % 16) == s@[i + 1 as int]);
            assert(s@.take(i + 2 as int) =~= s@.take(i as int) + seq![
                s@[i as int],
                s@[i + 1 as int],
            ]);
            assert(hex_of(v@) =~= s@.take(i + 2 as int));
        }
        i = i + 2;
    }
    proof {
        assert(s@.take(s@.len() as int) =~= s@);
    }
    Some(v)
}

/// The decimal encoding of a natural number, most significant digit first.
pub open spec fn dec_of(n: nat) -> Seq<u8>
    decreases n,
{
    if n < 10 {
        seq![(48 + n) as u8]
    } else {
        dec_of(n / 10) + seq![(48 + n % 10) as u8]
    }
}

/// Encodes a number as decimal digits.
pub fn u64_to_dec(n: u64) -> (r: Vec<u8>)
    ensures
        r@ == dec_of(n as nat),
{
    let mut digits: Vec<u8> = Vec::new();
    let mut m: u64 = n;
    // Least significant digit first.
    proof {
        assert(dec_of(n as nat) =~= dec_of(n as nat) + Seq::<u8>::empty());
    }
    loop
        invariant_except_break
            dec_of(n as nat) == dec_of(m as nat) + digits@.reverse(),
        ensures
            dec_of(n as nat) == digits@.reverse(),
        decreases m,
    {
        let d = 48u8 + (m % 10) as u8;
        digits.push(d);
        proof {
            assert(digits@.reverse() =~= seq![d] + digits@.drop_last().reverse());
        }
        if m < 10 {
            proof {
                assert(dec_of(m as nat) =~= seq![d]);
                assert(dec_of(n as nat) =~= digits@.reverse());
            }
            break;
        } else {
            proof {
                assert(dec_of(m as nat) =~= dec_of((m / 10) as nat) + seq![d]);
                assert(dec_of(n as nat) =~= dec_of((m / 10) as nat) + digits@.reverse());
            }
            m = m / 10;
        }
    }
    let mut r: Vec<u8> = Vec::new();
    let mut i: usize = digits.len();
    while i > 0
        invariant
            i <= digits@.len(),
            r@ == digits@.skip(i as int).reverse(),
            dec_of(n as nat) == digits@.reverse(),
        decreases i,
    {
        i = i - 1;
        r.push(digits[i]);
        proof {
            assert(digits@.skip(i as int).reverse() =~= digits@.skip(i + 1 as int).reverse().push(
                digits@[i as int],
            ));
        }
    }
    proof {
        assert(digits@.skip(0) =~= digits@);
    }
    r
}

/// The bytes encoded by a hexadecimal string, two digits per byte.
pub open spec fn spec_unhex(s: Seq<u8>) -> Seq<u8>
    decreases s.len(),
{
    if s.len() < 2 {
        Seq::empty()
    } else {
        seq![(hex_val(s[0]) * 16 + hex_val(s[1])) as u8] + spec_unhex(s.skip(2))
    }
}

/// Decoding a well-formed hexadecimal string and re-encoding it gives it
/// back.
pub proof fn lemma_unhex_hex(s: Seq<u8>)
    requires
        is_hex_seq(s),
    ensures
        hex_of(spec_unhex(s)) == s,
    decreases s.len(),
{
    if s.len() == 0 {
        assert(spec_unhex(s) =~= Seq::<u8>::empty());
        assert(hex_of(spec_unhex(s)) =~= s);
    } else {
        let a = hex_val(s[0]);
        let b = hex_val(s[1]);
        let x = (a * 16 + b) as u8;
        assert(a < 16 && b < 16);
        assert(x / 16 == a && x % 16 == b) by (nonlinear_arith)
            requires
                a < 16,
                b < 16,
                x == a * 16 + b,
        ;
        assert(hex_digit(x / 16) == s[0] && hex_digit(x % 16) == s[1]);
        assert(is_hex_seq(s.skip(2)));
        lemma_unhex_hex(s.skip(2));
        let u = spec_unhex(s);
        assert(u == seq![x] + spec_unhex(s.skip(2)));
        assert(u.len() > 0 && u[0] == x);
        assert(u.drop_first() =~= spec_unhex(s.skip(2)));
        assert(hex_of(u) =~= s);
    }
}

/// The position of the first occurrence of `b` in `s`.
pub open spec fn spec_find(s: Seq<u8>, b: u8) -> Option<int>
    decreases s.len(),
{
    if s.len() == 0 {
        None
    } else if s[0] == b {
        Some(0)
    } else {
        match spec_find(s.drop_first(), b) {
            None => None,
            Some(i) => Some(i + 1),
        }
    }
}

/// What `spec_find` returns: the first matching position, or nothing when
/// no byte matches.
pub proof fn lemma_find_char(s: Seq<u8>, b: u8)
    ensures
        match spec_find(s, b) {
            Some(i) => 0 <= i < s.len() && s[i] == b && forall|j: int|
                0 <= j < i ==> s[j] != b,
            None => forall|j: int| 0 <= j < s.len() ==> s[j] != b,
        },
    decreases s.len(),
{
    if s.len() > 0 && s[0] != b {
        lemma_find_char(s.drop_first(), b);
        assert(forall|j: int| 1 <= j < s.len() ==> s[j] == s.drop_first()[j - 1]);
    }
}

/// A witness for the first occurrence determines `spec_find`.
pub proof fn lemma_find_is(s: Seq<u8>, b: u8, i: int)
    requires
        0 <= i < s.len(),
        s[i] == b,
        forall|j: int| 0 <= j < i ==> s[j] != b,
    ensures
        spec_find(s, b) == Some(i),
    decreases s.len(),
{
    if i > 0 {
        lemma_find_is(s.drop_first(), b, i - 1);
    }
}

/// No occurrence at all determines `spec_find`.
pub proof fn lemma_find_none(s: Seq<u8>, b: u8)
    requires
        forall|j: int| 0 <= j < s.len() ==> s[j] != b,
    ensures
        spec_find(s, b) is None,
    decreases s.len(),
{
    if s.len() > 0 {
        lemma_find_none(s.drop_first(), b);
    }
}

/// Finds the first occurrence of `b` in `s`.
pub fn find_byte(s: &[u8], b: u8) -> (r: Option<usize>)
    ensures
        match r {
            Some(i) => spec_find(s@, b) == Some(i as int),
            None => spec_find(s@, b) is None,
        },
{
    let mut i: usize = 0;
    while i < s.len()
        invariant
            i <= s@.len(),
            forall|j: int| 0 <= j < i ==> s@[j] != b,
        decreases s.len() - i,
    {
        if s[i] == b {
            proof {
                lemma_find_is(s@, b, i as int);
            }
            return Some(i);
        }
        i = i + 1;
    }
    proof {
        lemma_find_none(s@, b);
    }
    None
}

/// The numeric value of a decimal digit string (most significant first).
pub open spec fn dec_val(s: Seq<u8>) -> nat
    decreases s.len(),
{
    if s.len() == 0 {
        0
    } else {
        (dec_val(s.drop_last()) * 10 + (s.last() - 48)) as nat
    }
}

/// Whether a byte is a decimal digit.
pub open spec fn is_dec_digit(c: u8) -> bool {
    48 <= c && c <= 57
}

/// Whether `s` is a canonical decimal numeral: nonempty, all digits, and
/// without a leading zero.
pub open spec fn is_canon_dec(s: Seq<u8>) -> bool {
    &&& s.len() > 0
    &&& forall|i: int| 0 <= i < s.len() ==> is_dec_digit(#[trigger] s[i])
    &&& (s.len() > 1 ==> s[0] != 48)
}

/// The decimal encoding of a number is canonical and decodes to it.
pub proof fn lemma_dec_of_canon(n: nat)
    ensures
        is_canon_dec(dec_of(n)),
        dec_val(dec_of(n)) == n,
        n < 10 ==> dec_of(n).len() == 1,
        n >= 10 ==> dec_of(n).len() >= 2,
    decreases n,
{
    if n < 10 {
        assert(dec_of(n) =~= seq![(48 + n) as u8]);
        assert(dec_of(n).drop_last() =~= Seq::<u8>::empty());
        assert(dec_of(n).last() == (48 + n) as u8);
        assert((48 + n) as u8 == 48 + n);
        assert(dec_val(Seq::<u8>::empty()) == 0);
        assert(dec_val(dec_of(n).drop_last()) == 0);
        assert(dec_val(dec_of(n)) == n);
    } else {
        lemma_dec_of_canon(n / 10);
        let s = dec_of(n);
        assert(s =~= dec_of(n / 10) + seq![(48 + n % 10) as u8]);
        assert(s.drop_last() =~= dec_of(n / 10));
        assert(s.last() == (48 + n % 10) as u8);
        assert((48 + n % 10) as u8 == 48 + n % 10);
        assert(dec_val(s) == (dec_val(s.drop_last()) * 10 + (s.last() - 48)) as nat);
        assert(dec_val(s) == dec_val(dec_of(n / 10)) * 10 + n % 10);
        assert(dec_val(s) == (n / 10) * 10 + n % 10);
        assert(s[0] == dec_of(n / 10)[0]);
    }
}

/// A canonical numeral of more than five digits exceeds 65535.
pub proof fn lemma_canon_dec_lower(s: Seq<u8>)
    requires
        is_canon_dec(s),
        s.len() >= 6,
    ensures
        dec_val(s) > 65535,
    decreases s.len(),
{
    if s.len() == 6 {
        lemma_canon_dec_floor(s);
    } else {
        assert(is_canon_dec(s.drop_last()));
        lemma_canon_dec_lower(s.drop_last());
    }
}

/// A canonical six-digit numeral is at least 100000.
proof fn lemma_canon_dec_floor(s: Seq<u8>)
    requires
        is_canon_dec(s),
        s.len() == 6,
    ensures
        dec_val(s) >= 100000,
{
    lemma_canon_dec_ge_pow(s);
    lemma_pow10_values();
}

/// The first seven powers of ten, spelled out.
pub proof fn lemma_pow10_values()
    ensures
        pow10(0) == 1,
        pow10(1) == 10,
        pow10(2) == 100,
        pow10(3) == 1000,
        pow10(4) == 10000,
        pow10(5) == 100000,
        pow10(6) == 1000000,
{
    assert(pow10(0) == 1);
    assert(pow10(1) == 10);
    assert(pow10(2) == 100);
    assert(pow10(3) == 1000);
    assert(pow10(4) == 10000);
    assert(pow10(5) == 100000);
    assert(pow10(6) == 1000000);
}

/// A canonical numeral without a leading zero is at least the power of ten
/// of its width.
pub proof fn lemma_canon_dec_ge_pow(s: Seq<u8>)
    requires
        s.len() >= 1,
        forall|i: int| 0 <= i < s.len() ==> is_dec_digit(#[trigger] s[i]),
        s[0] != 48,
    ensures
        dec_val(s) >= pow10((s.len() - 1) as nat),
    decreases s.len(),
{
    if s.len() == 1 {
        assert(s.drop_last() =~= Seq::<u8>::empty());
    } else {
        let t = s.drop_last();
        lemma_canon_dec_ge_pow(t);
        assert(dec_val(s) == dec_val(t) * 10 + (s.last() - 48));
        assert(dec_val(t) * 10 >= pow10((t.len() - 1) as nat) * 10) by (nonlinear_arith)
            requires
                dec_val(t) >= pow10((t.len() - 1) as nat),
        ;
    }
}

/// Ten to the power `n`.
pub open spec fn pow10(n: nat) -> nat
    decreases n,
{
    if n == 0 {
        1
    } else {
        10 * pow10((n - 1) as nat)
    }
}

/// Parses the index range `[from, to)` of `s` as a canonical decimal port
/// number, at most 65535.
#[verifier::loop_isolation(false)]
pub fn parse_port(s: &[u8], from: usize, to: usize) -> (r: Option<u16>)
    requires
        from <= to <= s@.len(),
    ensures
        match r {
            Some(p) => {
                &&& is_canon_dec(s@.subrange(from as int, to as int))
                &&& dec_val(s@.subrange(from as int, to as int)) == p as nat
            },
            None => {
                !is_canon_dec(s@.subrange(from as int, to as int)) || dec_val(
                    s@.subrange(from as int, to as int),
                ) > 65535
            },
        },
{
    let ghost sub = s@.subrange(from as int, to as int);
    if to == from || to - from > 6 {
        if to - from > 6 {
            proof {
                if is_canon_dec(sub) {
                    lemma_canon_dec_lower(sub);
                }
            }
        }
        return None;
    }
    if s[from] == 48 && to - from > 1 {
        return None;
    }
    let mut v: u32 = 0;
    let mut i: usize = from;
    while i < to
        invariant
            from <= i <= to <= s@.len(),
            to - from <= 6,
            v as nat == dec_val(s@.subrange(from as int, i as int)),
            forall|j: int| from <= j < i ==> is_dec_digit(#[trigger] s@[j]),
            v < 1000000,
        decreases to - i,
    {
        let c = s[i];
        if c < 48 || c > 57 {
            proof {
                assert(sub.len() == to - from);
                assert(sub[(i - from) as int] == s@[from + (i - from)]);
                assert(sub[(i - from) as int] == s@[i as int]);
                assert(!is_dec_digit(sub[(i - from) as int]));
                assert(!is_canon_dec(sub));
            }
            return None;
        }
        proof {
            let t = s@.subrange(from as int, i + 1 as int);
            assert(t.drop_last() =~= s@.subrange(from as int, i as int));
            assert(dec_val(t) == dec_val(t.drop_last()) * 10 + (c - 48));
        }
        v = v * 10 + (c - 48) as u32;
        i = i + 1;
        proof {
            if v >= 1000000 {
                assert(false) by {
                    assert(dec_val(s@.subrange(from as int, i as int)) < pow10(
                        (i - from) as nat,
                    )) by {
                        lemma_dec_val_upper(s@.subrange(from as int, i as int));
                    }
                    lemma_pow10_mono((i - from) as nat, 6);
                    lemma_pow10_values();
                }
            }
        }
    }
    proof {
        assert(sub =~= s@.subrange(from as int, to as int));
        assert(forall|j: int| 0 <= j < sub.len() ==> is_dec_digit(#[trigger] sub[j]));
    }
    if v > 65535 {
        return None;
    }
    Some(v as u16)
}

/// An all-digit string of width `n` is below ten to the `n`.
pub proof fn lemma_dec_val_upper(s: Seq<u8>)
    requires
        forall|i: int| 0 <= i < s.len() ==> is_dec_digit(#[trigger] s[i]),
    ensures
        dec_val(s) < pow10(s.len() as nat),
    decreases s.len(),
{
    if s.len() > 0 {
        let t = s.drop_last();
        lemma_dec_val_upper(t);
        assert(dec_val(t) * 10 + 9 < pow10(s.len() as nat)) by (nonlinear_arith)
            requires
                dec_val(t) < pow10(t.len() as nat),
                pow10(s.len() as nat) == 10 * pow10(t.len() as nat),
        ;
    }
}

/// Powers of ten grow with the exponent.
pub proof fn lemma_pow10_mono(a: nat, b: nat)
    requires
        a <= b,
    ensures
        pow10(a) <= pow10(b),
    decreases b,
{
    if a < b {
        lemma_pow10_mono(a, (b - 1) as nat);
        assert(pow10((b - 1) as nat) <= 10 * pow10((b - 1) as nat)) by (nonlinear_arith)
            requires
                pow10((b - 1) as nat) >= 0,
        ;
    }
}

/// Whether `s` begins with the bytes of `p`.
pub fn has_prefix(s: &[u8], p: &[u8]) -> (r: bool)
    ensures
        r <==> (s@.len() >= p@.len() && s@.take(p@.len() as int) == p@),
{
    if s.len() < p.len() {
        return false;
    }
    let mut i: usize = 0;
    while i < p.len()
        invariant
            i <= p.len(),
            p.len() <= s.len(),
            forall|j: int| 0 <= j < i ==> s@[j] == p@[j],
        decreases p.len() - i,
    {
        if s[i] != p[i] {
            assert(s@.take(p@.len() as int)[i as int] != p@[i as int]);
            return false;
        }
        i = i + 1;
    }
    proof {
        assert(s@.take(p@.len() as int) =~= p@);
    }
    true
}

/// Copies the bytes of `s` in the index range `[from, to)`.
pub fn copy_range(s: &[u8], from: usize, to: usize) -> (r: Vec<u8>)
    requires
        from <= to <= s@.len(),
    ensures
        r@ == s@.subrange(from as int, to as int),
{
    let mut r: Vec<u8> = Vec::new();
    let mut i: usize = from;
    while i < to
        invariant
            from <= i <= to <= s@.len(),
            r@ == s@.subrange(from as int, i as int),
        decreases to - i,
    {
        r.push(s[i]);
        proof {
            assert(s@.subrange(from as int, i + 1 as int) =~= s@.subrange(
                from as int,
                i as int,
            ).push(s@[i as int]));
        }
        i = i + 1;
    }
    r
}

/// Whether a byte may appear in a public key: ASCII alphanumerics.
pub open spec fn is_key_byte(c: u8) -> bool {
    (48 <= c && c <= 57) || (65 <= c && c <= 90) || (97 <= c && c <= 122)
}

/// Whether a byte may appear in a domain: alphanumerics, `-` and `.`.
pub open spec fn is_domain_byte(c: u8) -> bool {
    is_key_byte(c) || c == 45 || c == 46
}

/// Whether every byte of `s` may appear in a public key.
pub open spec fn all_key(s: Seq<u8>) -> bool {
    forall|i: int| 0 <= i < s.len() ==> is_key_byte(#[trigger] s[i])
}

/// Whether every byte of `s` may appear in a domain.
pub open spec fn all_domain(s: Seq<u8>) -> bool {
    forall|i: int| 0 <= i < s.len() ==> is_domain_byte(#[trigger] s[i])
}

/// Checks the key alphabet over the index range `[from, to)`.
#[verifier::loop_isolation(false)]
pub fn all_key_in(s: &[u8], from: usize, to: usize) -> (r: bool)
    requires
        from <= to <= s@.len(),
    ensures
        r <==> all_key(s@.subrange(from as int, to as int)),
{
    let ghost sub = s@.subrange(from as int, to as int);
    let mut i: usize = from;
    while i < to
        invariant
            from <= i <= to,
            forall|j: int| from <= j < i ==> is_key_byte(#[trigger] s@[j]),
        decreases to - i,
    {
        let c = s[i];
        let ok = (48 <= c && c <= 57) || (65 <= c && c <= 90) || (97 <= c && c <= 122);
        if !ok {
            proof {
                assert(sub[(i - from) as int] == s@[i as int]);
                assert(!is_key_byte(sub[(i - from) as int]));
            }
            return false;
        }
        i = i + 1;
    }
    proof {
        assert(forall|j: int| 0 <= j < sub.len() ==> sub[j] == s@[from + j]);
    }
    true
}

/// Checks the domain alphabet over the index range `[from, to)`.
#[verifier::loop_isolation(false)]
pub fn all_domain_in(s: &[u8], from: usize, to: usize) -> (r: bool)
    requires
        from <= to <= s@.len(),
    ensures
        r <==> all_domain(s@.subrange(from as int, to as int)),
{
    let ghost sub = s@.subrange(from as int, to as int);
    let mut i: usize = from;
    while i < to
        invariant
            from <= i <= to,
            forall|j: int| from <= j < i ==> is_domain_byte(#[trigger] s@[j]),
        decreases to - i,
    {
        let c = s[i];
        let ok = (48 <= c && c <= 57) || (65 <= c && c <= 90) || (97 <= c && c <= 122) || c == 45
            || c == 46;
        if !ok {
            proof {
                assert(sub[(i - from) as int] == s@[i as int]);
                assert(!is_domain_byte(sub[(i - from) as int]));
            }
            return false;
        }
        i = i + 1;
    }
    proof {
        assert(forall|j: int| 0 <= j < sub.len() ==> sub[j] == s@[from + j]);
    }
    true
}

/// Finds the first occurrence of `b` in `s` at or after `from`.
#[verifier::loop_isolation(false)]
pub fn find_byte_from(s: &[u8], from: usize, b: u8) -> (r: Option<usize>)
    requires
        from <= s@.len(),
    ensures
        match r {
            Some(i) => from <= i < s@.len() && spec_find(s@.skip(from as int), b) == Some(
                i - from,
            ),
            None => spec_find(s@.skip(from as int), b) is None,
        },
{
    let ghost sub = s@.skip(from as int);
    let mut i: usize = from;
    while i < s.len()
        invariant
            from <= i <= s@.len(),
            forall|j: int| from <= j < i ==> s@[j] != b,
        decreases s.len() - i,
    {
        if s[i] == b {
            proof {
                assert(sub[(i - from) as int] == s@[i as int]);
                assert(forall|j: int| 0 <= j < i - from ==> sub[j] == s@[from + j]);
                lemma_find_is(sub, b, i - from);
            }
            return Some(i);
        }
        i = i + 1;
    }
    proof {
        assert(forall|j: int| 0 <= j < sub.len() ==> sub[j] == s@[from + j]);
        lemma_find_none(sub, b);
    }
    None
}

/// Appends all bytes of `s` to `v`.
pub fn append_bytes(v: &mut Vec<u8>, s: &[u8])
    ensures
        final(v)@ == old(v)@ + s@,
{
    let mut i: usize = 0;
    while i < s.len()
        invariant
            i <= s@.len(),
            v@ == old(v)@ + s@.take(i as int),
        decreases s.len() - i,
    {
        v.push(s[i]);
        proof {
            assert(old(v)@ + s@.take(i + 1 as int) =~= (old(v)@ + s@.take(i as int)).push(
                s@[i as int],
            ));
        }
        i = i + 1;
    }
    proof {
        assert(s@.take(s@.len() as int) =~= s@);
    }
}

/// Whether two byte slices hold the same bytes.
pub fn bytes_eq(a: &[u8], b: &[u8]) -> (r: bool)
    ensures
        r <==> a@ == b@,
{
    if a.len() != b.len() {
        return false;
    }
    let mut i: usize = 0;
    while i < a.len()
        invariant
            i <= a.len(),
            a@.len() == b@.len(),
            forall|j: int| 0 <= j < i ==> a@[j] == b@[j],
        decreases a.len() - i,
    {
        if a[i] != b[i] {
            return false;
        }
        i = i + 1;
    }
    proof {
        assert(a@ =~= b@);
    }
    true
}

} // verus!
