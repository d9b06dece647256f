//! An 8-bit RGBA pixel and the packed-integer decodings hosts deliver
//! colour parameters in.

use vstd::prelude::*;

verus! {

/// One 8-bit-per-channel RGBA pixel, held as plain bytes.
#[derive(Debug, Clone, Copy, PartialEq, Eq, Structural)]
pub struct Pixel {
    pub red: u8,
    pub green: u8,
    pub blue: u8,
    pub alpha: u8,
}

impl Pixel {
    /// Decodes a colour packed into a 64-bit host parameter: taking the
    /// value's bytes in big-endian order, alpha sits in byte 0, red in
    /// byte 2, green in byte 4 and blue in byte 6.
    pub fn from_u64_color(raw64: u64) -> (r: Self)
        ensures
            r.alpha == (raw64 >> 56) & 0xff,
            r.red == (raw64 >> 40) & 0xff,
            r.green == (raw64 >> 24) & 0xff,
            r.blue == (raw64 >> 8) & 0xff,
    {
        let alpha = #[verifier::truncate] ((raw64 >> 56) as u8);
        let red = #[verifier::truncate] ((raw64 >> 40) as u8);
        let green = #[verifier::truncate] ((raw64 >> 24) as u8);
        let blue = #[verifier::truncate] ((raw64 >> 8) as u8);
        proof {
            assert(alpha == (raw64 >> 56) & 0xff && red == (raw64 >> 40) & 0xff && green == (
            raw64 >> 24) & 0xff && blue == (raw64 >> 8) & 0xff) by (bit_vector)
                requires
                    alpha == (raw64 >> 56) as u8 && red == (raw64 >> 40) as u8 && green == (raw64
                        >> 24) as u8 && blue == (raw64 >> 8) as u8,
            ;
        }
        Pixel { red, green, blue, alpha }
    }

    /// Decodes a colour packed into a 32-bit value: in big-endian byte
    /// order, alpha is byte 0, then red, green and blue.
    pub fn from_bytes32(raw: u32) -> (r: Self)
        ensures
            r.alpha == (raw >> 24) & 0xff,
            r.red == (raw >> 16) & 0xff,
            r.green == (raw >> 8) & 0xff,
            r.blue == raw & 0xff,
    {
        let alpha = #[verifier::truncate] ((raw >> 24) as u8);
        let red = #[verifier::truncate] ((raw >> 16) as u8);
        let green = #[verifier::truncate] ((raw >> 8) as u8);
        let blue = #[verifier::truncate] (raw as u8);
        proof {
            assert(alpha == (raw >> 24) & 0xff && red == (raw >> 16) & 0xff && green == (raw >> 8)
                & 0xff && blue == raw & 0xff) by (bit_vector)
                requires
                    alpha == (raw >> 24) as u8 && red == (raw >> 16) as u8 && green == (raw
                        >> 8) as u8 && blue == raw as u8,
            ;
        }
        Pixel { red, green, blue, alpha }
    }
}

impl Default for Pixel {
    /// Opaque black.
    fn default() -> (r: Self)
        ensures
            r == (Pixel { red: 0u8, green: 0u8, blue: 0u8, alpha: 255u8 }),
    {
        Pixel { red: 0, green: 0, blue: 0, alpha: 255 }
    }
}

} // verus!
