//! Elements of the Pallas base field, held as their canonical little-endian
//! byte encoding; arithmetic is performed by `pasta_curves`.

use ff::PrimeField;
use halo2_proofs::pasta::Fp;
use vstd::prelude::*;

verus! {

/// The prime characteristic of the field:
/// `0x40000000000000000000000000000000224698fc094cf91b992d30ed00000001`.
pub open spec fn modulus() -> int {
    0x40000000000000000000000000000000224698fc094cf91b992d30ed00000001int
}

/// The integer whose little-endian base-256 digits are `s`.
pub open spec fn le_value(s: Seq<u8>) -> nat
    decreases s.len(),
{
    if s.len() == 0 {
        0
    } else {
        s[0] as nat + 256 * le_value(s.subrange(1, s.len() as int))
    }
}

/// Field addition on canonical representatives.
pub open spec fn field_add(a: int, b: int) -> int {
    (a + b) % modulus()
}

/// Field subtraction on canonical representatives.
pub open spec fn field_sub(a: int, b: int) -> int {
    (a - b) % modulus()
}

/// Field multiplication on canonical representatives.
pub open spec fn field_mul(a: int, b: int) -> int {
    (a * b) % modulus()
}

/// A field element, stored as its 32-byte little-endian encoding.
#[derive(Clone, Copy, Debug)]
pub struct FieldValue {
    pub repr: [u8; 32],
}

impl FieldValue {
    /// The integer the encoding denotes.
    pub open spec fn val(&self) -> int {
        le_value(self.repr@) as int
    }

    /// The encoding is canonical: it denotes an integer below the modulus.
    pub open spec fn wf(&self) -> bool {
        self.val() < modulus()
    }

    /// The field element congruent to `n`.
    pub fn from_u64(n: u64) -> (r: FieldValue)
        ensures
            r.wf(),
            r.val() == n as int,
    {
        fp_from_u64(n)
    }

    /// Decodes a canonical encoding; `None` when it denotes an integer that is
    /// not below the modulus.
    pub fn from_repr(repr: [u8; 32]) -> (r: Option<FieldValue>)
        ensures
            r.is_some() <==> le_value(repr@) < modulus(),
            r.is_some() ==> r.unwrap().repr@ == repr@ && r.unwrap().wf(),
    {
        if fp_is_canonical(repr) {
            Some(FieldValue { repr })
        } else {
            None
        }
    }

    /// Whether the two encodings are the same.
    pub fn same_repr(&self, other: &FieldValue) -> (r: bool)
        ensures
            r == (self.repr@ == other.repr@),
    {
        let mut i: usize = 0;
        while i < 32
            invariant
                i <= 32,
                self.repr@.len() == 32,
                other.repr@.len() == 32,
                forall|k: int| 0 <= k < i ==> self.repr@[k] == other.repr@[k],
            decreases 32 - i,
        {
            if self.repr[i] != other.repr[i] {
                return false;
            }
            i = i + 1;
        }
        assert(self.repr@ =~= other.repr@);
        true
    }

    /// The canonical little-endian encoding.
    pub fn to_repr(&self) -> (r: [u8; 32])
        ensures
            r@ == self.repr@,
    {
        self.repr
    }

    /// `self + other` in the field.
    pub fn add(&self, other: &FieldValue) -> (r: FieldValue)
        requires
            self.wf(),
            other.wf(),
        ensures
            r.wf(),
            r.val() == field_add(self.val(), other.val()),
    {
        fp_add(self, other)
    }

    /// `self - other` in the field.
    pub fn sub(&self, other: &FieldValue) -> (r: FieldValue)
        requires
            self.wf(),
            other.wf(),
        ensures
            r.wf(),
            r.val() == field_sub(self.val(), other.val()),
    {
        fp_sub(self, other)
    }

    /// `self * other` in the field.
    pub fn mul(&self, other: &FieldValue) -> (r: FieldValue)
        requires
            self.wf(),
            other.wf(),
        ensures
            r.wf(),
            r.val() == field_mul(self.val(), other.val()),
    {
        fp_mul(self, other)
    }
}

/// Relies on `Fp::from(u64)` and `PrimeField::to_repr`: the element congruent
/// to `n`, encoded canonically in little-endian order.
#[verifier::external_body]
fn fp_from_u64(n: u64) -> (r: FieldValue)
    ensures
        r.wf(),
        r.val() == n as int,
{
    FieldValue { repr: Fp::from(n).to_repr() }
}

/// Relies on `PrimeField::from_repr` for `Fp`: it accepts exactly the
/// encodings of integers below the modulus.
#[verifier::external_body]
fn fp_is_canonical(repr: [u8; 32]) -> (r: bool)
    ensures
        r <==> le_value(repr@) < modulus(),
{
    bool::from(Fp::from_repr(repr).is_some())
}

/// Relies on `Fp + Fp` and on `from_repr` / `to_repr` being inverse on
/// canonical encodings.
#[verifier::external_body]
fn fp_add(a: &FieldValue, b: &FieldValue) -> (r: FieldValue)
    requires
        a.wf(),
        b.wf(),
    ensures
        r.wf(),
        r.val() == field_add(a.val(), b.val()),
{
    let x = Fp::from_repr(a.repr).unwrap();
    let y = Fp::from_repr(b.repr).unwrap();
    FieldValue { repr: (x + y).to_repr() }
}

/// Relies on `Fp - Fp` and on `from_repr` / `to_repr` being inverse on
/// canonical encodings.
#[verifier::external_body]
fn fp_sub(a: &FieldValue, b: &FieldValue) -> (r: FieldValue)
    requires
        a.wf(),
        b.wf(),
    ensures
        r.wf(),
        r.val() == field_sub(a.val(), b.val()),
{
    let x = Fp::from_repr(a.repr).unwrap();
    let y = Fp::from_repr(b.repr).unwrap();
    FieldValue { repr: (x - y).to_repr() }
}

/// Relies on `Fp * Fp` and on `from_repr` / `to_repr` being inverse on
/// canonical encodings.
#[verifier::external_body]
fn fp_mul(a: &FieldValue, b: &FieldValue) -> (r: FieldValue)
    requires
        a.wf(),
        b.wf(),
    ensures
        r.wf(),
        r.val() == field_mul(a.val(), b.val()),
{
    let x = Fp::from_repr(a.repr).unwrap();
    let y = Fp::from_repr(b.repr).unwrap();
    FieldValue { repr: (x * y).to_repr() }
}

} // verus!
