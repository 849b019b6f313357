use vstd::prelude::*;

verus! {

/// Whether a pixel's color is the magenta body key of the character
/// sprites: strong red and blue, with green well below both.
pub open spec fn is_body_key(r: u8, g: u8, b: u8) -> bool {
    r > 80 && b > 80 && (g as int) < (r as int) - 30 && (g as int) < (b as int) - 30
}

/// Whether the pixel that starts at byte `p` (of RGBA bytes) is a visible
/// body-key pixel.
pub open spec fn keyed_pixel(bytes: Seq<u8>, p: int) -> bool {
    bytes[p + 3] >= 8 && is_body_key(bytes[p], bytes[p + 1], bytes[p + 2])
}

/// The image after tinting: in every whole RGBA pixel that is a visible
/// body-key pixel, the color becomes the tint (alpha kept); everything else,
/// trailing bytes of an incomplete pixel included, stays.
pub open spec fn tinted(bytes: Seq<u8>, tint: (u8, u8, u8)) -> Seq<u8> {
    Seq::new(bytes.len(), |i: int| {
        let p = i - i % 4;
        if p + 4 <= bytes.len() && i % 4 < 3 && keyed_pixel(bytes, p) {
            if i % 4 == 0 { tint.0 } else if i % 4 == 1 { tint.1 } else { tint.2 }
        } else {
            bytes[i]
        }
    })
}

/// Recolors the body of an RGBA8 character sprite with the player's color
/// (the tint already encoded for the image's color space).
pub fn tint_body_pixels(bytes: &mut Vec<u8>, tint: (u8, u8, u8))
    ensures
        final(bytes)@ == tinted(old(bytes)@, tint),
{
    let ghost orig = bytes@;
    let n = bytes.len();
    let mut p: usize = 0;
    while n - p >= 4
        invariant
            n == orig.len(),
            bytes@.len() == n,
            p % 4 == 0,
            p <= n,
            forall|i: int| 0 <= i < p ==> bytes@[i] == #[trigger] tinted(orig, tint)[i],
            forall|i: int| p <= i < n ==> bytes@[i] == orig[i],
        decreases n - p,
    {
        let r = bytes[p];
        let g = bytes[p + 1];
        let b = bytes[p + 2];
        let a = bytes[p + 3];
        if a >= 8 {
            let key = r > 80 && b > 80 && g < r.saturating_sub(30) && g < b.saturating_sub(30);
            if key {
                bytes.set(p, tint.0);
                bytes.set(p + 1, tint.1);
                bytes.set(p + 2, tint.2);
            }
        }
        proof {
            assert forall|i: int| p <= i < p + 4 implies bytes@[i] == #[trigger] tinted(orig, tint)[i] by {
                assert(i - i % 4 == p);
            }
        }
        p = p + 4;
    }
    proof {
        assert forall|i: int| p <= i < n implies bytes@[i] == #[trigger] tinted(orig, tint)[i] by {
            assert(i - i % 4 + 4 > n);
        }
        assert(bytes@ =~= tinted(orig, tint));
    }
}

} // verus!
