//! Tinting of the action panel's icons: every pixel that is not fully
//! transparent is painted light gray, keeping its alpha.
use vstd::prelude::*;

verus! {

/// The gray level that opaque icon pixels are painted with.
pub const ICON_LIGHT_GRAY: u8 = 200;

/// Byte `i` of RGBA pixel data after tinting: a color byte of a pixel whose
/// alpha is not zero becomes light gray; every other byte is kept.
pub open spec fn tinted_byte(data: Seq<u8>, i: int) -> u8 {
    if i % 4 < 3 && data[i - i % 4 + 3] > 0 {
        ICON_LIGHT_GRAY
    } else {
        data[i]
    }
}

/// Paints the opaque pixels of RGBA data light gray. The data must hold
/// whole pixels.
pub fn tint_opaque_pixels(data: &mut Vec<u8>)
    requires
        old(data)@.len() % 4 == 0,
    ensures
        final(data)@ == tinted(old(data)@),
{
    let n = data.len();
    let mut p: usize = 0;
    while p < n / 4
        invariant
            n == data@.len(),
            n == old(data)@.len(),
            n % 4 == 0,
            p <= n / 4,
            forall|i: int| 0 <= i < 4 * p ==> data@[i] == tinted_byte(old(data)@, i),
            forall|i: int| 4 * p <= i < n ==> data@[i] == old(data)@[i],
        decreases n / 4 - p,
    {
        let base = 4 * p;
        assert(base + 3 < n) by (nonlinear_arith)
            requires
                base == 4 * p,
                p < n / 4,
                n % 4 == 0,
        ;
        if data[base + 3] > 0 {
            data[base] = ICON_LIGHT_GRAY;
            data[base + 1] = ICON_LIGHT_GRAY;
            data[base + 2] = ICON_LIGHT_GRAY;
        }
        proof {
            assert forall|i: int| base <= i < base + 4 implies data@[i] == tinted_byte(old(data)@, i) by {
                assert(i - i % 4 == base) by (nonlinear_arith)
                    requires
                        base <= i < base + 4,
                        base % 4 == 0,
                ;
                assert(base % 4 == 0) by (nonlinear_arith)
                    requires
                        base == 4 * p,
                ;
            }
        }
        p += 1;
    }
    assert(4 * p == n) by (nonlinear_arith)
        requires
            p >= n / 4,
            p <= n / 4,
            n % 4 == 0,
    ;
    assert(data@ =~= tinted(old(data)@));
}

/// RGBA data after tinting.
pub open spec fn tinted(data: Seq<u8>) -> Seq<u8> {
    Seq::new(data.len(), |i: int| tinted_byte(data, i))
}

/// Pixel `p` after tinting: its alpha is kept; when the alpha is not zero
/// its red, green and blue bytes are 200 each, otherwise the pixel is kept.
pub proof fn law_tinted_pixel(data: Seq<u8>, p: int)
    requires
        data.len() % 4 == 0,
        0 <= p < data.len() / 4,
    ensures
        tinted(data)[4 * p + 3] == data[4 * p + 3],
        data[4 * p + 3] > 0 ==> tinted(data)[4 * p] == 200 && tinted(data)[4 * p + 1] == 200
            && tinted(data)[4 * p + 2] == 200,
        data[4 * p + 3] == 0 ==> tinted(data)[4 * p] == data[4 * p] && tinted(data)[4 * p + 1]
            == data[4 * p + 1] && tinted(data)[4 * p + 2] == data[4 * p + 2],
{
    assert(4 * p + 3 < data.len()) by (nonlinear_arith)
        requires
            data.len() % 4 == 0,
            0 <= p < data.len() / 4,
    ;
    assert((4 * p) % 4 == 0 && (4 * p + 1) % 4 == 1 && (4 * p + 2) % 4 == 2 && (4 * p + 3) % 4 == 3)
        by (nonlinear_arith)
        requires
            0 <= p,
    ;
}

/// Tinting keeps every alpha byte, so tinting twice is tinting once.
pub proof fn law_tint_is_idempotent(data: Seq<u8>)
    requires
        data.len() % 4 == 0,
    ensures
        tinted(tinted(data)) == tinted(data),
{
    let once = tinted(data);
    assert forall|i: int| 0 <= i < data.len() implies #[trigger] tinted(once)[i] == once[i] by {
        let a = i - i % 4 + 3;
        assert(0 <= a < data.len()) by (nonlinear_arith)
            requires
                0 <= i < data.len(),
                data.len() % 4 == 0,
                a == i - i % 4 + 3,
        ;
        assert(a % 4 == 3) by (nonlinear_arith)
            requires
                a == i - i % 4 + 3,
        ;
        assert(once[a] == data[a]);
    }
    assert(tinted(once) =~= once);
}

} // verus!
