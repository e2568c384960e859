use vstd::arithmetic::div_mod::{lemma_basic_div, lemma_fundamental_div_mod};
use vstd::arithmetic::power2::{
    lemma2_to64,
    lemma_pow2_adds,
    lemma_pow2_pos,
    lemma_pow2_strictly_increases,
    lemma_pow2_unfold,
    pow2,
};
use vstd::prelude::*;

verus! {

/// A recording frame rate, held as the IEEE 754 binary32 encoding of the
/// floating-point value that a replay header gives.
#[derive(Clone, Copy, Debug, PartialEq, Eq)]
pub struct FrameRate {
    pub bits: u32,
}

/// The sign bit of a binary32 encoding.
pub open spec fn sign_field(bits: u32) -> nat {
    bits as nat / 0x8000_0000
}

/// The biased exponent of a binary32 encoding.
pub open spec fn exponent_field(bits: u32) -> nat {
    (bits as nat / 0x80_0000) % 0x100
}

/// The stored fraction of a binary32 encoding.
pub open spec fn fraction_field(bits: u32) -> nat {
    bits as nat % 0x80_0000
}

/// Whether the encoding is a finite number greater than zero.
pub open spec fn is_positive_rate(bits: u32) -> bool {
    &&& sign_field(bits) == 0
    &&& exponent_field(bits) != 0xff
    &&& !(exponent_field(bits) == 0 && fraction_field(bits) == 0)
}

/// The integer significand: a finite encoding stands for
/// `significand(bits) * 2^scale(bits)`.
pub open spec fn significand(bits: u32) -> nat {
    if exponent_field(bits) == 0 {
        fraction_field(bits)
    } else {
        fraction_field(bits) + 0x80_0000
    }
}

/// The power of two that scales the significand.
pub open spec fn scale(bits: u32) -> int {
    if exponent_field(bits) == 0 {
        -149
    } else {
        exponent_field(bits) - 150
    }
}

/// `frames / rate`, rounded down, for a positive rate.
pub open spec fn exact_length(frames: nat, bits: u32) -> nat {
    if scale(bits) >= 0 {
        frames / (significand(bits) * pow2(scale(bits) as nat))
    } else {
        (frames * pow2((-scale(bits)) as nat)) / significand(bits)
    }
}

/// The length in whole seconds of `frames` frames recorded at a positive rate,
/// held at the largest `u64` where it exceeds it.
pub open spec fn length_secs(frames: nat, bits: u32) -> nat {
    if exact_length(frames, bits) > u64::MAX {
        u64::MAX as nat
    } else {
        exact_length(frames, bits)
    }
}

fn pow2_u128(k: u32) -> (r: u128)
    requires
        k <= 88,
    ensures
        r as nat == pow2(k as nat),
        r <= 0x100_0000_0000_0000_0000_0000,
{
    proof {
        lemma2_to64();
        lemma_pow2_adds(64, 24);
    }
    let mut r: u128 = 1;
    let mut i: u32 = 0;
    while i < k
        invariant
            i <= k <= 88,
            r as nat == pow2(i as nat),
            pow2(88) == 0x100_0000_0000_0000_0000_0000,
        decreases k - i,
    {
        proof {
            lemma_pow2_unfold((i + 1) as nat);
            if i + 1 < 88 {
                lemma_pow2_strictly_increases((i + 1) as nat, 88);
            }
        }
        r = r * 2;
        i = i + 1;
    }
    proof {
        if k < 88 {
            lemma_pow2_strictly_increases(k as nat, 88);
        }
    }
    r
}

impl FrameRate {
    /// The length in whole seconds of `num_frames` frames recorded at this
    /// rate, or `None` where the rate is zero, negative, infinite or not a
    /// number.
    pub fn game_length_secs(&self, num_frames: u32) -> (r: Option<u64>)
        ensures
            r == (if is_positive_rate(self.bits) {
                Some(length_secs(num_frames as nat, self.bits) as u64)
            } else {
                None::<u64>
            }),
    {
        let bits = self.bits;
        if bits >= 0x8000_0000 {
            return None;
        }
        let exp: u32 = (bits / 0x80_0000) % 0x100;
        let frac: u32 = bits % 0x80_0000;
        if exp == 0xff || (exp == 0 && frac == 0) {
            return None;
        }
        let sig: u64 = if exp == 0 {
            frac as u64
        } else {
            frac as u64 + 0x80_0000
        };
        let e: u32 = if exp == 0 {
            1
        } else {
            exp
        };
        let ghost frames = num_frames as nat;
        assert(sig > 0);
        assert(sig < 0x100_0000);
        if e >= 150 {
            let k: u32 = e - 150;
            if k >= 9 {
                proof {
                    lemma2_to64();
                    if k > 9 {
                        lemma_pow2_strictly_increases(9, k as nat);
                    }
                    assert(sig * pow2(k as nat) >= 0x80_0000 * 512) by (nonlinear_arith)
                        requires
                            sig >= 0x80_0000,
                            pow2(k as nat) >= 512,
                    ;
                    lemma_basic_div(frames as int, (sig * pow2(k as nat)) as int);
                }
                return Some(0);
            }
            let p: u128 = pow2_u128(k);
            proof {
                lemma2_to64();
                if k < 8 {
                    lemma_pow2_strictly_increases(k as nat, 8);
                }
                lemma_pow2_pos(k as nat);
                assert(0 < sig * p <= 0x100_0000 * 256) by (nonlinear_arith)
                    requires
                        0 < sig < 0x100_0000,
                        0 < p <= 256,
                ;
            }
            let divisor: u64 = sig * (p as u64);
            Some(num_frames as u64 / divisor)
        } else {
            let k: u32 = 150 - e;
            if k > 88 {
                if num_frames == 0 {
                    assert(frames * pow2(k as nat) == 0) by (nonlinear_arith)
                        requires
                            frames == 0,
                    ;
                    return Some(0);
                }
                proof {
                    let n = frames * pow2(k as nat);
                    lemma_pow2_strictly_increases(88, k as nat);
                    lemma2_to64();
                    lemma_pow2_adds(64, 24);
                    assert(n >= pow2(k as nat)) by (nonlinear_arith)
                        requires
                            n == frames * pow2(k as nat),
                            frames >= 1,
                    ;
                    lemma_fundamental_div_mod(n as int, sig as int);
                    let q = n / (sig as nat);
                    assert(q > u64::MAX) by (nonlinear_arith)
                        requires
                            n == sig * q + n % (sig as nat),
                            n % (sig as nat) < sig,
                            sig < 0x100_0000,
                            n > 0x100_0000_0000_0000_0000_0000,
                    ;
                }
                return Some(u64::MAX);
            }
            let p: u128 = pow2_u128(k);
            proof {
                lemma_pow2_pos(k as nat);
                assert(num_frames as u128 * p <= 0xffff_ffff * 0x100_0000_0000_0000_0000_0000)
                    by (nonlinear_arith)
                    requires
                        num_frames <= 0xffff_ffff,
                        p <= 0x100_0000_0000_0000_0000_0000,
                ;
            }
            let n: u128 = num_frames as u128 * p;
            let q: u128 = n / (sig as u128);
            if q > u64::MAX as u128 {
                Some(u64::MAX)
            } else {
                Some(q as u64)
            }
        }
    }
}

} // verus!
