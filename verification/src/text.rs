//! Byte strings as stored on the ledger, and their decimal renderings.

use vstd::prelude::*;
use vstd::string::StringSliceAdditionalSpecFns;

verus! {

/// Decimal digits of a natural number, most significant first, as ASCII bytes.
pub open spec fn decimal_digits(n: nat) -> Seq<u8>
    decreases n,
{
    if n < 10 {
        seq![(48 + n) as u8]
    } else {
        decimal_digits(n / 10).push((48 + n % 10) as u8)
    }
}

/// Decimal rendering of a signed integer: a leading `-` for negative values.
pub open spec fn signed_decimal(v: int) -> Seq<u8> {
    if v < 0 {
        seq![45u8] + decimal_digits((-v) as nat)
    } else {
        decimal_digits(v as nat)
    }
}

/// The number that a string of ASCII decimal digits spells out.
pub open spec fn digits_value(s: Seq<u8>) -> int
    decreases s.len(),
{
    if s.len() == 0 {
        0
    } else {
        10 * digits_value(s.drop_last()) + (s.last() - 48)
    }
}

/// Every byte is an ASCII decimal digit.
pub open spec fn all_digits(s: Seq<u8>) -> bool {
    forall|i: int| 0 <= i < s.len() ==> 48 <= #[trigger] s[i] <= 57
}

/// The decimal digits of `n` are digits, without a leading zero (unless `n`
/// is 0), and spell out `n`.
pub proof fn lemma_decimal_reads_back(n: nat)
    ensures
        all_digits(decimal_digits(n)),
        decimal_digits(n).len() >= 1,
        n >= 10 ==> decimal_digits(n)[0] != 48,
        digits_value(decimal_digits(n)) == n,
    decreases n,
{
    if n < 10 {
        let d = decimal_digits(n);
        assert(d.drop_last() =~= Seq::<u8>::empty());
        assert(digits_value(d.drop_last()) == 0);
        assert((48 + n) as u8 == 48 + n);
    } else {
        lemma_decimal_reads_back(n / 10);
        let d = decimal_digits(n);
        assert(d.drop_last() =~= decimal_digits(n / 10));
        assert(d[0] == decimal_digits(n / 10)[0]);
        assert(d.last() == (48 + n % 10) as u8);
        assert((48 + n % 10) as u8 == 48 + n % 10);
        assert(n == 10 * (n / 10) + n % 10);
        if n / 10 < 10 {
            assert(decimal_digits(n / 10)[0] == 48 + n / 10);
        }
    }
}

/// The rendering of a signed integer spells it out: a non-negative value is
/// its decimal digits; a negative one is `-` followed by the digits of its
/// magnitude.
pub proof fn lemma_signed_decimal_reads_back(v: int)
    ensures
        v >= 0 ==> signed_decimal(v) == decimal_digits(v as nat) && digits_value(signed_decimal(v)) == v
            && all_digits(signed_decimal(v)),
        v < 0 ==> signed_decimal(v)[0] == 45 && all_digits(signed_decimal(v).drop_first())
            && digits_value(signed_decimal(v).drop_first()) == -v,
{
    if v >= 0 {
        lemma_decimal_reads_back(v as nat);
    } else {
        lemma_decimal_reads_back((-v) as nat);
        assert(signed_decimal(v).drop_first() =~= decimal_digits((-v) as nat));
    }
}

/// Lexicographic order on byte strings (a proper prefix comes first), the
/// order in which the ledger sorts string keys.
pub open spec fn bytes_less(a: Seq<u8>, b: Seq<u8>) -> bool
    decreases a.len(),
{
    if a.len() == 0 {
        b.len() > 0
    } else if b.len() == 0 {
        false
    } else if a[0] != b[0] {
        a[0] < b[0]
    } else {
        bytes_less(a.drop_first(), b.drop_first())
    }
}

/// No byte string precedes itself.
pub proof fn lemma_bytes_less_irreflexive(a: Seq<u8>)
    ensures
        !bytes_less(a, a),
    decreases a.len(),
{
    if a.len() > 0 {
        lemma_bytes_less_irreflexive(a.drop_first());
    }
}

/// Of two distinct byte strings, one precedes the other, and not both.
pub proof fn lemma_bytes_less_total(a: Seq<u8>, b: Seq<u8>)
    ensures
        a != b ==> bytes_less(a, b) || bytes_less(b, a),
        !(bytes_less(a, b) && bytes_less(b, a)),
    decreases a.len(),
{
    if a.len() > 0 && b.len() > 0 && a[0] == b[0] {
        lemma_bytes_less_total(a.drop_first(), b.drop_first());
        if a.drop_first() == b.drop_first() {
            assert(a =~= seq![a[0]] + a.drop_first());
            assert(b =~= seq![b[0]] + b.drop_first());
        }
    }
    if a.len() == 0 && b.len() == 0 {
        assert(a =~= b);
    }
}

/// The order on byte strings is transitive.
pub proof fn lemma_bytes_less_transitive(a: Seq<u8>, b: Seq<u8>, c: Seq<u8>)
    requires
        bytes_less(a, b),
        bytes_less(b, c),
    ensures
        bytes_less(a, c),
    decreases a.len(),
{
    if a.len() > 0 && b.len() > 0 && c.len() > 0 && a[0] == b[0] && b[0] == c[0] {
        lemma_bytes_less_transitive(a.drop_first(), b.drop_first(), c.drop_first());
    }
}

/// Whether `a` precedes `b` in lexicographic byte order.
pub fn bytes_precede(a: &Vec<u8>, b: &Vec<u8>) -> (r: bool)
    ensures
        r == bytes_less(a@, b@),
{
    let mut i: usize = 0;
    assert(a@.skip(0) =~= a@ && b@.skip(0) =~= b@);
    while i < a.len() && i < b.len()
        invariant
            i <= a@.len(),
            i <= b@.len(),
            bytes_less(a@, b@) == bytes_less(a@.skip(i as int), b@.skip(i as int)),
        decreases a@.len() - i,
    {
        assert(a@.skip(i as int)[0] == a@[i as int]);
        assert(b@.skip(i as int)[0] == b@[i as int]);
        if a[i] != b[i] {
            return a[i] < b[i];
        }
        assert(a@.skip(i as int).drop_first() =~= a@.skip(i + 1));
        assert(b@.skip(i as int).drop_first() =~= b@.skip(i + 1));
        i = i + 1;
    }
    a.len() < b.len()
}

/// Compares two byte vectors element by element.
pub fn bytes_equal(a: &Vec<u8>, b: &Vec<u8>) -> (r: bool)
    ensures
        r == (a@ == b@),
{
    if a.len() != b.len() {
        return false;
    }
    let mut i: usize = 0;
    while i < a.len()
        invariant
            a.len() == b.len(),
            i <= a.len(),
            forall|j: int| 0 <= j < i ==> a@[j] == b@[j],
        decreases a.len() - i,
    {
        if a[i] != b[i] {
            return false;
        }
        i = i + 1;
    }
    assert(a@ =~= b@);
    true
}

/// Copies a byte vector.
pub fn copy_bytes(a: &Vec<u8>) -> (r: Vec<u8>)
    ensures
        r@ == a@,
{
    let mut r: Vec<u8> = Vec::new();
    let mut i: usize = 0;
    while i < a.len()
        invariant
            i <= a.len(),
            r@ == a@.take(i as int),
        decreases a.len() - i,
    {
        r.push(a[i]);
        i = i + 1;
        assert(r@ =~= a@.take(i as int));
    }
    assert(a@.take(a.len() as int) =~= a@);
    r
}

/// ASCII decimal digits of an unsigned integer.
pub fn decimal_u128(n: u128) -> (r: Vec<u8>)
    ensures
        r@ == decimal_digits(n as nat),
    decreases n,
{
    if n < 10 {
        let d: u8 = (48 + n) as u8;
        let mut r: Vec<u8> = Vec::new();
        r.push(d);
        assert(r@ =~= seq![d]);
        r
    } else {
        let mut r = decimal_u128(n / 10);
        let d: u8 = (48 + n % 10) as u8;
        r.push(d);
        r
    }
}

/// A byte string: the content of a ledger string value.
#[derive(Clone, Debug, PartialEq, Eq)]
pub struct Text {
    bytes: Vec<u8>,
}

impl View for Text {
    type V = Seq<u8>;

    closed spec fn view(&self) -> Seq<u8> {
        self.bytes@
    }
}

impl Text {
    /// The text holding exactly these bytes.
    pub fn from_bytes(bytes: Vec<u8>) -> (t: Text)
        ensures
            t@ == bytes@,
    {
        Text { bytes }
    }

    /// The UTF-8 encoding of `s`.
    pub fn from_str(s: &str) -> (t: Text)
        ensures
            t@ == s.spec_bytes(),
    {
        let b = s.as_bytes();
        let mut bytes: Vec<u8> = Vec::new();
        let mut i: usize = 0;
        while i < b.len()
            invariant
                i <= b@.len(),
                b@ == s.spec_bytes(),
                bytes@ == b@.take(i as int),
            decreases b@.len() - i,
        {
            bytes.push(b[i]);
            i = i + 1;
            assert(bytes@ =~= b@.take(i as int));
        }
        assert(b@.take(b@.len() as int) =~= b@);
        Text { bytes }
    }

    /// Decimal rendering of an unsigned integer.
    pub fn from_u64(n: u64) -> (t: Text)
        ensures
            t@ == decimal_digits(n as nat),
    {
        Text { bytes: decimal_u128(n as u128) }
    }

    /// Decimal rendering of a signed integer.
    pub fn from_i128(v: i128) -> (t: Text)
        ensures
            t@ == signed_decimal(v as int),
    {
        if v < 0 {
            let magnitude: u128 = ((-(v + 1)) as u128) + 1;
            let digits = decimal_u128(magnitude);
            let mut bytes: Vec<u8> = Vec::new();
            bytes.push(45u8);
            let mut i: usize = 0;
            while i < digits.len()
                invariant
                    i <= digits@.len(),
                    bytes@ == seq![45u8] + digits@.take(i as int),
                decreases digits@.len() - i,
            {
                bytes.push(digits[i]);
                i = i + 1;
                assert(bytes@ =~= seq![45u8] + digits@.take(i as int));
            }
            assert(digits@.take(digits@.len() as int) =~= digits@);
            Text { bytes }
        } else {
            Text { bytes: decimal_u128(v as u128) }
        }
    }

    /// The bytes of this text.
    pub fn to_bytes(&self) -> (b: Vec<u8>)
        ensures
            b@ == self@,
    {
        copy_bytes(&self.bytes)
    }

    /// Number of bytes.
    pub fn len(&self) -> (n: usize)
        ensures
            n == self@.len(),
    {
        self.bytes.len()
    }

    /// Byte-wise equality.
    pub fn equals(&self, other: &Text) -> (r: bool)
        ensures
            r == (self@ == other@),
    {
        bytes_equal(&self.bytes, &other.bytes)
    }

    /// Whether this text precedes `other` in lexicographic byte order.
    pub fn precedes(&self, other: &Text) -> (r: bool)
        ensures
            r == bytes_less(self@, other@),
    {
        bytes_precede(&self.bytes, &other.bytes)
    }

    /// A copy of this text.
    pub fn duplicate(&self) -> (t: Text)
        ensures
            t@ == self@,
    {
        Text { bytes: copy_bytes(&self.bytes) }
    }
}

} // verus!
