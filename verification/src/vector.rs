//! The binary `vector` column format: an 8-byte header and packed floats.
use vstd::prelude::*;
use crate::error::DecodeError;
use crate::utils::{le_u16, le_u32, r_u16_le, r_u32_le};
use vstd::arithmetic::power2::{pow2, lemma2_to64, lemma_pow2_unfold, lemma_pow2_adds};

verus! {

/// Size of the vector header.
pub const VECTOR_HEADER_SIZE: usize = 8;
/// Largest encoded vector, header included.
pub const VECTOR_MAX_SIZE: usize = 8000;
/// First header byte.
pub const VECTOR_LAYOUT_FORMAT: u8 = 0xa9;
/// Second header byte.
pub const VECTOR_LAYOUT_VERSION: u8 = 0x01;
/// Element type: IEEE half precision.
pub const HALF_PRECISION_FLOAT: u8 = 0x00;
/// Element type: IEEE single precision.
pub const FULL_PRECISION_FLOAT: u8 = 0x01;

/// Bytes per element of a vector of element type `ty`.
pub open spec fn element_size(ty: u8) -> int {
    if ty == FULL_PRECISION_FLOAT { 4 } else { 2 }
}

/// What a `VectorSpan` holds.
pub struct VectorSpanView {
    pub ty: u8,
    pub count: u16,
    pub payload: Seq<u8>,
}

impl VectorSpanView {
    /// The payload holds exactly `count` elements and fits the size limit.
    pub open spec fn wf(self) -> bool {
        &&& (self.ty == HALF_PRECISION_FLOAT || self.ty == FULL_PRECISION_FLOAT)
        &&& self.payload.len() == self.count * element_size(self.ty)
        &&& self.payload.len() <= VECTOR_MAX_SIZE - VECTOR_HEADER_SIZE
    }
}

/// A validated view of an encoded vector.
#[derive(Clone, Copy, Debug)]
pub struct VectorSpan<'a> {
    ty: u8,
    count: u16,
    bytes: &'a [u8],
}

impl<'a> VectorSpan<'a> {
    #[verifier::type_invariant]
    closed spec fn inv(&self) -> bool {
        self@.wf()
    }
}

impl<'a> View for VectorSpan<'a> {
    type V = VectorSpanView;

    closed spec fn view(&self) -> VectorSpanView {
        VectorSpanView { ty: self.ty, count: self.count, payload: self.bytes@ }
    }
}

/// The element count that the header of `b` declares.
pub open spec fn declared_count(b: Seq<u8>) -> int {
    le_u16(b, 2)
}

/// Total encoded size that the header of `b` declares, header included.
pub open spec fn declared_total(b: Seq<u8>) -> int {
    VECTOR_HEADER_SIZE + declared_count(b) * element_size(b[4])
}

/// The header of `b` has the layout bytes and a known element type.
pub open spec fn header_accepted(b: Seq<u8>) -> bool {
    &&& b.len() >= 8
    &&& b[0] == VECTOR_LAYOUT_FORMAT
    &&& b[1] == VECTOR_LAYOUT_VERSION
    &&& (b[4] == HALF_PRECISION_FLOAT || b[4] == FULL_PRECISION_FLOAT)
}

impl<'a> VectorSpan<'a> {
    /// Validates the header of `bytes` and takes the payload that it declares.
    pub fn new(bytes: &'a [u8]) -> (r: Result<Self, DecodeError>)
        ensures
            bytes@.len() < 8 ==> r matches Err(DecodeError::InvalidLength(_)),
            bytes@.len() >= 8 && (bytes@[0] != VECTOR_LAYOUT_FORMAT || bytes@[1]
                != VECTOR_LAYOUT_VERSION) ==> r matches Err(DecodeError::InvalidData(_)),
            bytes@.len() >= 8 && bytes@[0] == VECTOR_LAYOUT_FORMAT && bytes@[1]
                == VECTOR_LAYOUT_VERSION && bytes@[4] != HALF_PRECISION_FLOAT && bytes@[4]
                != FULL_PRECISION_FLOAT ==> r matches Err(DecodeError::InvalidField(_)),
            header_accepted(bytes@) && declared_total(bytes@) > VECTOR_MAX_SIZE ==> r matches Err(
                DecodeError::InvalidLength(_),
            ),
            header_accepted(bytes@) && declared_total(bytes@) <= VECTOR_MAX_SIZE && bytes@.len()
                < declared_total(bytes@) ==> r matches Err(DecodeError::InvalidLength(_)),
            header_accepted(bytes@) && declared_total(bytes@) <= VECTOR_MAX_SIZE && bytes@.len()
                >= declared_total(bytes@) ==> (r matches Ok(v) && v@ == (VectorSpanView {
                ty: bytes@[4],
                count: declared_count(bytes@) as u16,
                payload: bytes@.subrange(8, declared_total(bytes@)),
            })),
            r matches Ok(v) ==> v@.wf(),
    {
        if bytes.len() < VECTOR_HEADER_SIZE {
            return Err(DecodeError::invalid_length());
        }
        if bytes[0] != VECTOR_LAYOUT_FORMAT || bytes[1] != VECTOR_LAYOUT_VERSION {
            return Err(DecodeError::invalid_data());
        }
        let count = r_u16_le(bytes, 2);
        let ty = bytes[4];
        let sizeof: usize = if ty == HALF_PRECISION_FLOAT {
            2
        } else if ty == FULL_PRECISION_FLOAT {
            4
        } else {
            return Err(DecodeError::invalid_field());
        };
        let total = count as usize * sizeof;
        if total + VECTOR_HEADER_SIZE > VECTOR_MAX_SIZE {
            return Err(DecodeError::invalid_length());
        }
        if bytes.len() < VECTOR_HEADER_SIZE + total {
            return Err(DecodeError::invalid_length());
        }
        let payload = vstd::slice::slice_subrange(bytes, VECTOR_HEADER_SIZE, VECTOR_HEADER_SIZE + total);
        Ok(VectorSpan { ty, count, bytes: payload })
    }

    /// The element type byte.
    pub fn ty(&self) -> (r: u8)
        ensures
            r == self@.ty,
    {
        self.ty
    }

    /// The number of elements.
    pub fn count(&self) -> (r: u16)
        ensures
            r == self@.count,
    {
        self.count
    }

    /// The IEEE single-precision bit pattern of element `i`: the element itself for a
    /// single-precision vector, its exact widening for a half-precision one.
    pub fn element_bits(&self, i: usize) -> (r: u32)
        requires
            i < self@.count,
        ensures
            self@.ty == FULL_PRECISION_FLOAT ==> r == le_u32(self@.payload, 4 * i),
            self@.ty == HALF_PRECISION_FLOAT ==> f32_bits_of_f16(
                le_u16(self@.payload, 2 * i) as u16,
                r,
            ),
    {
        proof {
            use_type_invariant(self);
        }
        if self.ty == FULL_PRECISION_FLOAT {
            r_u32_le(self.bytes, 4 * i)
        } else {
            f16_to_f32_bits(r_u16_le(self.bytes, 2 * i))
        }
    }

    /// The packed little-endian elements.
    pub fn payload(&self) -> (r: &'a [u8])
        ensures
            r@ == self@.payload,
    {
        self.bytes
    }
}

/// Sign bit of a half-precision bit pattern.
pub open spec fn f16_sign(h: u16) -> int {
    h as int / 0x8000
}

/// Biased exponent field of a half-precision bit pattern.
pub open spec fn f16_exp(h: u16) -> int {
    (h as int / 0x400) % 0x20
}

/// Fraction field of a half-precision bit pattern.
pub open spec fn f16_mant(h: u16) -> int {
    h as int % 0x400
}

/// A single-precision bit pattern from its sign, biased exponent and fraction fields.
pub open spec fn f32_fields(sign: int, exp: int, frac: int) -> int {
    sign * 0x8000_0000 + exp * 0x80_0000 + frac
}

/// `r` is the single-precision pattern of the same value as the half-precision `h`:
/// zeros, infinities and NaNs keep their class and payload, normal numbers rebias
/// their exponent, and subnormal numbers become normal ones of equal value
/// (`mant * 2^-24 == (2^23 + M) * 2^(E - 150)`).
pub open spec fn f32_bits_of_f16(h: u16, r: u32) -> bool {
    let s = f16_sign(h);
    let e = f16_exp(h);
    let m = f16_mant(h);
    if e == 0 && m == 0 {
        r == f32_fields(s, 0, 0)
    } else if e == 0 {
        exists|big_e: int, big_m: int|
            103 <= big_e <= 112 && 0 <= big_m < 0x80_0000 && r == f32_fields(s, big_e, big_m)
                && 0x80_0000 + big_m == m * pow2((126 - big_e) as nat)
    } else if e == 0x1f {
        r == f32_fields(s, 0xff, m * 0x2000)
    } else {
        r == f32_fields(s, e + 112, m * 0x2000)
    }
}

/// Widens a half-precision bit pattern to the single-precision pattern of the same value.
pub fn f16_to_f32_bits(h: u16) -> (r: u32)
    ensures
        f32_bits_of_f16(h, r),
{
    let h32 = h as u32;
    let sign: u32 = (h32 / 0x8000) * 0x8000_0000;
    let exp = (h32 / 0x400) % 0x20;
    let mant = h32 % 0x400;
    if exp == 0 {
        if mant == 0 {
            sign
        } else {
            let mut m = mant;
            let mut k: u32 = 0;
            proof {
                lemma2_to64();
            }
            while m < 0x400
                invariant
                    1 <= mant < 0x400,
                    k <= 10,
                    m == mant * pow2(k as nat),
                    m < 0x800,
                decreases 10 - k,
            {
                proof {
                    lemma2_to64();
                    lemma_pow2_unfold((k + 1) as nat);
                    if k == 10 {
                        assert(mant * pow2(k as nat) >= 0x400) by (nonlinear_arith)
                            requires
                                pow2(k as nat) == 0x400,
                                mant >= 1,
                        ;
                    }
                    assert(mant * pow2((k + 1) as nat) == (mant * pow2(k as nat)) * 2) by (nonlinear_arith)
                        requires
                            pow2((k + 1) as nat) == 2 * pow2(k as nat),
                    ;
                }
                m = m * 2;
                k = k + 1;
            }
            let big_e: u32 = 113 - k;
            let frac: u32 = (m - 0x400) * 0x2000;
            proof {
                lemma2_to64();
                lemma_pow2_adds(13, k as nat);
                assert((126 - big_e) as nat == 13 + k as nat);
                assert(0x80_0000 + frac == mant * pow2((126 - big_e) as nat)) by (nonlinear_arith)
                    requires
                        pow2((13 + k) as nat) == pow2(13) * pow2(k as nat),
                        pow2(13) == 0x2000,
                        m == mant * pow2(k as nat),
                        frac == (m - 0x400) * 0x2000,
                        (126 - big_e) as nat == 13 + k as nat,
                ;
                assert(f32_fields(f16_sign(h), big_e as int, frac as int) == sign + big_e * 0x80_0000
                    + frac);
            }
            sign + big_e * 0x80_0000 + frac
        }
    } else if exp == 0x1f {
        sign + 0x7f80_0000 + mant * 0x2000
    } else {
        sign + (exp + 112) * 0x80_0000 + mant * 0x2000
    }
}

} // verus!
