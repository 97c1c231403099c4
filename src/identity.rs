//! Identity hasher: external (chat) identifiers to fixed-width object identities.

use vstd::prelude::*;

verus! {

/// The decimal text of an integer, as ASCII bytes (a leading `-` for negatives).
pub open spec fn decimal_of(n: int) -> Seq<u8> {
    if n < 0 {
        seq![45u8] + digits_of(-n)
    } else {
        digits_of(n)
    }
}

/// The decimal digits of a non-negative integer, most significant first.
pub open spec fn digits_of(n: int) -> Seq<u8>
    decreases (if n < 0 { 0 } else { n }),
{
    if n < 10 {
        seq![(48 + n) as u8]
    } else {
        digits_of(n / 10).push((48 + n % 10) as u8)
    }
}

/// What the 128-bit XXH3 hash gives for a byte sequence.
pub uninterp spec fn xxh3_128_of(bytes: Seq<u8>) -> u128;

/// Byte `i` (0 = most significant) of the big-endian encoding of `v`.
pub open spec fn be_byte(v: u128, i: int) -> u8 {
    ((v >> ((8 * (15 - i)) as u128)) & 0xffu128) as u8
}

/// The big-endian encoding of `v` as sixteen bytes.
pub open spec fn be_bytes_of(v: u128) -> Seq<u8> {
    Seq::new(16, |i: int| be_byte(v, i))
}

/// The identity that belongs to an external identifier.
pub open spec fn identity_of(telegram_id: i64) -> Seq<u8> {
    be_bytes_of(xxh3_128_of(decimal_of(telegram_id as int)))
}

/// Relies on `i64`'s `to_string`: the decimal text of the number.
#[verifier::external_body]
pub(crate) fn decimal_bytes(n: i64) -> (r: Vec<u8>)
    ensures
        r@ == decimal_of(n as int),
{
    n.to_string().into_bytes()
}

/// Relies on xxhash_rust::xxh3::xxh3_128: the 128-bit XXH3 hash of the bytes.
#[verifier::external_body]
pub(crate) fn xxh3_128(bytes: &Vec<u8>) -> (r: u128)
    ensures
        r == xxh3_128_of(bytes@),
{
    xxhash_rust::xxh3::xxh3_128(bytes.as_slice())
}

/// Relies on `u128::to_be_bytes`: the big-endian bytes of the number.
#[verifier::external_body]
pub(crate) fn to_be_bytes(v: u128) -> (r: [u8; 16])
    ensures
        r@ == be_bytes_of(v),
{
    v.to_be_bytes()
}

/// A 128-bit object identity: the primary key of a record in the store.
#[derive(Clone, Copy, Debug)]
pub struct ObjectId {
    pub value: [u8; 16],
}

impl ObjectId {
    pub open spec fn view(&self) -> Seq<u8> {
        self.value@
    }

    /// Whether two identities hold the same bytes.
    pub fn same_as(&self, other: &ObjectId) -> (r: bool)
        ensures
            r == (self@ == other@),
    {
        let mut i: usize = 0;
        while i < 16
            invariant
                0 <= i <= 16,
                forall|k: int| 0 <= k < i ==> self.value@[k] == other.value@[k],
            decreases 16 - i,
        {
            if self.value[i] != other.value[i] {
                return false;
            }
            i = i + 1;
        }
        assert(self.value@ =~= other.value@);
        true
    }
}

/// Every byte of a digit string is an ASCII digit, and there is at least one.
pub proof fn lemma_digits_are_digits(n: int)
    requires
        n >= 0,
    ensures
        digits_of(n).len() >= 1,
        n >= 10 ==> digits_of(n).len() >= 2,
        forall|i: int| 0 <= i < digits_of(n).len() ==> 48 <= #[trigger] digits_of(n)[i] <= 57,
    decreases n,
{
    if n >= 10 {
        lemma_digits_are_digits(n / 10);
        assert(n / 10 >= 1);
        assert forall|i: int| 0 <= i < digits_of(n).len() implies 48 <= #[trigger] digits_of(n)[i] <= 57 by {
            if i < digits_of(n / 10).len() {
                assert(digits_of(n)[i] == digits_of(n / 10)[i]);
            }
        }
    }
}

/// Distinct non-negative integers have distinct digit strings.
pub proof fn lemma_digits_injective(a: int, b: int)
    requires
        a >= 0,
        b >= 0,
        digits_of(a) == digits_of(b),
    ensures
        a == b,
    decreases a + b,
{
    lemma_digits_are_digits(a);
    lemma_digits_are_digits(b);
    if a >= 10 && b >= 10 {
        let da = digits_of(a);
        assert(da.drop_last() =~= digits_of(a / 10));
        assert(digits_of(b).drop_last() =~= digits_of(b / 10));
        assert(da.last() == digits_of(b).last());
        lemma_digits_injective(a / 10, b / 10);
    } else if a < 10 && b < 10 {
        assert(digits_of(a)[0] == digits_of(b)[0]);
    }
}

/// Distinct external identifiers have distinct decimal texts, so the hash
/// that gives their identities is applied to distinct inputs.
pub proof fn lemma_decimal_injective(a: i64, b: i64)
    requires
        a != b,
    ensures
        decimal_of(a as int) != decimal_of(b as int),
{
    let x = a as int;
    let y = b as int;
    if decimal_of(x) == decimal_of(y) {
        if x < 0 && y < 0 {
            lemma_digits_are_digits(-x);
            assert(decimal_of(x).subrange(1, decimal_of(x).len() as int) =~= digits_of(-x));
            assert(decimal_of(y).subrange(1, decimal_of(y).len() as int) =~= digits_of(-y));
            lemma_digits_injective(-x, -y);
        } else if x >= 0 && y >= 0 {
            lemma_digits_injective(x, y);
        } else if x < 0 {
            lemma_digits_are_digits(y);
            assert(decimal_of(x)[0] == 45u8);
            assert(decimal_of(y)[0] == digits_of(y)[0]);
        } else {
            lemma_digits_are_digits(x);
            assert(decimal_of(y)[0] == 45u8);
            assert(decimal_of(x)[0] == digits_of(x)[0]);
        }
    }
}

} // verus!
