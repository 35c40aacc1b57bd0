//! Opaque identifiers for actors and resources (organizations, products,
//! users, serial numbers), together with the ASCII renderings that canonical
//! messages are built from: lowercase hex for identifier bytes and decimal
//! for numbers.

use vstd::prelude::*;

verus! {

use vstd::std_specs::cmp::PartialEqSpec;

/// Lowercase ASCII hex digit (as a byte) for a nibble value.
pub open spec fn hex_digit_byte(n: u8) -> u8
    recommends
        n < 16,
{
    if n < 10 {
        (0x30 + n) as u8
    } else {
        (0x61 + (n - 10)) as u8
    }
}

/// Lowercase ASCII hex rendering of a byte sequence: two digits per byte,
/// high nibble first.
pub open spec fn hex_bytes_of(b: Seq<u8>) -> Seq<u8> {
    Seq::new(
        2 * b.len(),
        |i: int|
            if i % 2 == 0 {
                hex_digit_byte(b[i / 2] / 16)
            } else {
                hex_digit_byte(b[i / 2] % 16)
            },
    )
}

/// ASCII decimal rendering of a number, most significant digit first,
/// without leading zeros (a single `0` for zero).
pub open spec fn dec_bytes_of(n: nat) -> Seq<u8>
    decreases n,
{
    if n < 10 {
        seq![(0x30 + n) as u8]
    } else {
        dec_bytes_of(n / 10).push((0x30 + n % 10) as u8)
    }
}

/// Decimal renderings are ASCII digits throughout.
pub proof fn lemma_dec_bytes_ascii(n: nat)
    ensures
        forall|i: int|
            0 <= i < dec_bytes_of(n).len() ==> 48 <= #[trigger] dec_bytes_of(n)[i] <= 57,
    decreases n,
{
    if n < 10 {
    } else {
        lemma_dec_bytes_ascii(n / 10);
        assert forall|i: int| 0 <= i < dec_bytes_of(n).len() implies 48 <= #[trigger] dec_bytes_of(
            n,
        )[i] <= 57 by {
            if i < dec_bytes_of(n / 10).len() {
                assert(dec_bytes_of(n)[i] == dec_bytes_of(n / 10)[i]);
            }
        }
    }
}

/// ASCII decimal rendering of a number, as characters.
pub open spec fn dec_chars_of(n: nat) -> Seq<char> {
    Seq::new(dec_bytes_of(n).len(), |i: int| dec_bytes_of(n)[i] as char)
}

/// Whether every character is an ASCII digit.
pub open spec fn is_digits(s: Seq<char>) -> bool {
    forall|i: int| 0 <= i < s.len() ==> 48 <= (#[trigger] s[i]) as u32 <= 57
}

/// The number a digit string denotes.
pub open spec fn dec_val(s: Seq<char>) -> nat
    decreases s.len(),
{
    if s.len() == 0 {
        0
    } else {
        (dec_val(s.drop_last()) * 10 + (s.last() as u32 - 48)) as nat
    }
}

/// A digit string's value only grows with its prefix length.
pub proof fn lemma_dec_val_prefix(s: Seq<char>, i: int)
    requires
        0 <= i <= s.len(),
        forall|j: int| i <= j < s.len() ==> 48 <= (#[trigger] s[j]) as u32 <= 57,
    ensures
        dec_val(s) >= dec_val(s.take(i)),
    decreases s.len() - i,
{
    if i == s.len() {
        assert(s.take(i) =~= s);
    } else {
        assert(s.take(i + 1).drop_last() =~= s.take(i));
        assert(s.take(i + 1).last() == s[i]);
        assert(48 <= s[i] as u32 <= 57);
        assert(dec_val(s.take(i + 1)) >= dec_val(s.take(i))) by {
            assert(dec_val(s.take(i)) * 10 >= dec_val(s.take(i))) by (nonlinear_arith);
        }
        lemma_dec_val_prefix(s, i + 1);
    }
}

/// Parses an ASCII decimal number: succeeds exactly on nonempty
/// all-digit strings whose value fits, and returns that value.
pub fn parse_u64(s: &str) -> (r: Option<u64>)
    ensures
        r is Some <==> s@.len() > 0 && is_digits(s@) && dec_val(s@) <= u64::MAX,
        r matches Some(v) ==> v == dec_val(s@),
{
    let n = vstd::string::StrSliceExecFns::unicode_len(s);
    if n == 0 {
        return None;
    }
    let mut acc: u128 = 0;
    let mut i: usize = 0;
    while i < n
        invariant
            n == s@.len(),
            n > 0,
            i <= n,
            forall|j: int| 0 <= j < i ==> 48 <= (#[trigger] s@[j]) as u32 <= 57,
            acc == dec_val(s@.take(i as int)),
            acc <= u64::MAX,
        decreases n - i,
    {
        let c = vstd::string::StrSliceExecFns::get_char(s, i);
        let v = c as u32;
        if v < 48 || v > 57 {
            assert(!is_digits(s@));
            return None;
        }
        proof {
            assert(s@.take(i + 1).drop_last() =~= s@.take(i as int));
            assert(s@.take(i + 1).last() == s@[i as int]);
        }
        acc = acc * 10 + ((v - 48) as u128);
        proof {
            assert(48 <= s@[i as int] as u32 <= 57);
            assert(acc == dec_val(s@.take(i + 1)));
        }
        if acc > 0xFFFF_FFFF_FFFF_FFFF {
            proof {
                if is_digits(s@) {
                    assert forall|j: int| i + 1 <= j < s@.len() implies 48 <= (#[trigger] s@[j]) as u32
                        <= 57 by {}
                    lemma_dec_val_prefix(s@, i + 1);
                    assert(dec_val(s@) > u64::MAX);
                }
            }
            return None;
        }
        i = i + 1;
    }
    proof {
        assert(s@.take(n as int) =~= s@);
    }
    Some(acc as u64)
}

/// An opaque identifier: a short byte string, unique by construction
/// (fresh identifiers are drawn from a collision-resistant digest).
///
/// Wherever an identifier needs a textual form — canonical messages,
/// fresh-identifier derivation, certification codes — this library
/// renders it as the lowercase hex of its bytes. A deployment that must
/// interoperate bit-for-bit with identifiers minted under the host
/// platform's own textual encoding would have to render through that
/// encoding instead.
pub struct Id {
    pub bytes: Vec<u8>,
}

impl View for Id {
    type V = Seq<u8>;

    open spec fn view(&self) -> Seq<u8> {
        self.bytes@
    }
}

impl DeepView for Id {
    type V = Seq<u8>;

    open spec fn deep_view(&self) -> Seq<u8> {
        self.bytes@
    }
}

impl PartialEq for Id {
    fn eq(&self, other: &Id) -> (r: bool) {
        let r = self.bytes == other.bytes;
        proof {
            if r {
                assert(self.bytes@ =~= other.bytes@);
            } else {
                if self.bytes@ == other.bytes@ {
                    assert(self.bytes.eq_spec(&other.bytes));
                }
            }
        }
        r
    }
}

impl vstd::std_specs::cmp::PartialEqSpecImpl for Id {
    open spec fn obeys_eq_spec() -> bool {
        true
    }

    open spec fn eq_spec(&self, other: &Id) -> bool {
        self.bytes@ == other.bytes@
    }
}

impl Eq for Id {

}

impl Clone for Id {
    fn clone(&self) -> (r: Id)
        ensures
            r@ == self@,
    {
        Id { bytes: copy_bytes(&self.bytes) }
    }
}

impl Id {
    /// The distinguished anonymous identifier (a single byte `0x04`),
    /// used as the parent when a fresh identifier has no natural parent.
    pub fn anonymous() -> (r: Id)
        ensures
            r@ =~= seq![4u8],
    {
        let mut v: Vec<u8> = Vec::new();
        v.push(4u8);
        Id { bytes: v }
    }

    /// Wraps raw bytes as an identifier.
    pub fn from_bytes(bytes: Vec<u8>) -> (r: Id)
        ensures
            r@ == bytes@,
    {
        Id { bytes }
    }
}

/// Copies a byte vector element by element.
pub fn copy_bytes(b: &Vec<u8>) -> (r: Vec<u8>)
    ensures
        r@ == b@,
{
    let mut r: Vec<u8> = Vec::new();
    let mut i: usize = 0;
    while i < b.len()
        invariant
            i <= b@.len(),
            r@ == b@.take(i as int),
        decreases b@.len() - i,
    {
        r.push(b[i]);
        assert(r@ =~= b@.take(i + 1));
        i = i + 1;
    }
    assert(r@ =~= b@);
    r
}

/// Renders a byte vector as lowercase ASCII hex bytes.
pub fn hex_bytes(b: &Vec<u8>) -> (r: Vec<u8>)
    ensures
        r@ == hex_bytes_of(b@),
{
    let mut r: Vec<u8> = Vec::new();
    let mut i: usize = 0;
    while i < b.len()
        invariant
            i <= b@.len(),
            r@ == hex_bytes_of(b@.take(i as int)),
        decreases b@.len() - i,
    {
        let byte = b[i];
        let hi = byte / 16;
        let lo = byte % 16;
        r.push(if hi < 10 { 0x30 + hi } else { 0x61 + (hi - 10) });
        r.push(if lo < 10 { 0x30 + lo } else { 0x61 + (lo - 10) });
        assert(r@ =~= hex_bytes_of(b@.take(i + 1)));
        i = i + 1;
    }
    assert(b@.take(b@.len() as int) =~= b@);
    r
}

/// Renders a number in ASCII decimal, most significant digit first.
pub fn dec_bytes(n: u64) -> (r: Vec<u8>)
    ensures
        r@ == dec_bytes_of(n as nat),
    decreases n,
{
    if n < 10 {
        let mut v: Vec<u8> = Vec::new();
        v.push(0x30 + (n as u8));
        assert(v@ =~= dec_bytes_of(n as nat));
        v
    } else {
        let mut v = dec_bytes(n / 10);
        v.push(0x30 + ((n % 10) as u8));
        assert(v@ =~= dec_bytes_of(n as nat));
        v
    }
}

} // verus!
