//! Classification of numerically invalid sample values.
//!
//! A sample is carried as the bit pattern of a 32-bit IEEE 754 float.  A
//! value whose exponent field is all ones is either a NaN (non-zero
//! fraction) or an infinity (zero fraction, signed); every such value is
//! "abnormal" and excluded from captured output.

use vstd::prelude::*;

verus! {

/// Bits of the exponent field of a 32-bit float.
pub const F32_EXP_MASK: u32 = 0x7F80_0000;
/// Bits of the fraction field of a 32-bit float.
pub const F32_FRAC_MASK: u32 = 0x007F_FFFF;
/// The sign bit of a 32-bit float.
pub const F32_SIGN_MASK: u32 = 0x8000_0000;
/// Bit pattern of the value 0.0, substituted for permitted abnormal samples.
pub const ZERO_BITS: u32 = 0;

/// Classification of an abnormal sample value.
#[derive(Clone, Copy, Debug, PartialEq, Eq, Structural)]
pub enum AbnormalSample {
    Nan,
    NegInf,
    PosInf,
}

/// The bit pattern encodes a NaN: exponent all ones, fraction non-zero.
pub open spec fn is_nan_bits(b: u32) -> bool {
    b & F32_EXP_MASK == F32_EXP_MASK && b & F32_FRAC_MASK != 0
}

/// The bit pattern encodes positive infinity.
pub open spec fn is_pos_inf_bits(b: u32) -> bool {
    b == F32_EXP_MASK
}

/// The bit pattern encodes negative infinity.
pub open spec fn is_neg_inf_bits(b: u32) -> bool {
    b == F32_EXP_MASK | F32_SIGN_MASK
}

/// The bit pattern encodes a NaN or an infinity: exponent all ones.
pub open spec fn is_abnormal_bits(b: u32) -> bool {
    b & F32_EXP_MASK == F32_EXP_MASK
}

/// Classification of a sample bit pattern: the tag of an abnormal value,
/// or `None` for an ordinary number.
pub open spec fn classify_bits(b: u32) -> Option<AbnormalSample> {
    if is_nan_bits(b) {
        Some(AbnormalSample::Nan)
    } else if is_neg_inf_bits(b) {
        Some(AbnormalSample::NegInf)
    } else if is_pos_inf_bits(b) {
        Some(AbnormalSample::PosInf)
    } else {
        None
    }
}

/// Classify a sample bit pattern.
pub fn classify(b: u32) -> (r: Option<AbnormalSample>)
    ensures
        r == classify_bits(b),
{
    if b & F32_EXP_MASK == F32_EXP_MASK && b & F32_FRAC_MASK != 0 {
        Some(AbnormalSample::Nan)
    } else if b == F32_EXP_MASK | F32_SIGN_MASK {
        Some(AbnormalSample::NegInf)
    } else if b == F32_EXP_MASK {
        Some(AbnormalSample::PosInf)
    } else {
        None
    }
}

impl AbnormalSample {
    /// Spec-level text of the classification.
    pub open spec fn label_spec(self) -> Seq<char> {
        match self {
            AbnormalSample::Nan => "NaN"@,
            AbnormalSample::NegInf => "-inf"@,
            AbnormalSample::PosInf => "+inf"@,
        }
    }

    /// Text of the classification, used in annotations and error reports.
    pub fn label(&self) -> (s: &'static str)
        ensures
            s@ == self.label_spec(),
    {
        match self {
            AbnormalSample::Nan => "NaN",
            AbnormalSample::NegInf => "-inf",
            AbnormalSample::PosInf => "+inf",
        }
    }
}

impl View for AbnormalSample {
    type V = AbnormalSample;

    open spec fn view(&self) -> AbnormalSample {
        *self
    }
}

impl DeepView for AbnormalSample {
    type V = AbnormalSample;

    open spec fn deep_view(&self) -> AbnormalSample {
        *self
    }
}

/// The classifier is complete: a bit pattern is classified exactly when
/// its exponent field is all ones, that is, exactly when the encoded
/// value is a NaN or an infinity.
pub proof fn lemma_classify_covers_abnormal(b: u32)
    ensures
        classify_bits(b) is Some <==> is_abnormal_bits(b),
{
    assert(b & 0x7F80_0000u32 == 0x7F80_0000u32 && b & 0x007F_FFFFu32 == 0 ==> (b
        == 0x7F80_0000u32 || b == 0x7F80_0000u32 | 0x8000_0000u32)) by (bit_vector);
    assert((0x7F80_0000u32 | 0x8000_0000u32) & 0x7F80_0000u32 == 0x7F80_0000u32) by (bit_vector);
    assert(0x7F80_0000u32 & 0x7F80_0000u32 == 0x7F80_0000u32) by (bit_vector);
}

} // verus!
