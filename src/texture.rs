use vstd::prelude::*;

verus! {

/// Width and height of the debug texture, in pixels.
pub const TEXTURE_SIZE: usize = 8;

/// Bytes in one row of the debug texture (RGBA, four bytes a pixel).
pub const ROW_BYTES: usize = 32;

/// Byte `j` of the texture whose row `r` is `palette` rotated right by `r` pixels.
pub open spec fn texel_byte(palette: Seq<u8>, j: int) -> u8 {
    let row = j / 32;
    let col = j % 32;
    palette[(col + 32 - 4 * row) % 32]
}

/// The bytes of the 8×8 RGBA texture built from `palette`.
pub open spec fn texture_of(palette: Seq<u8>) -> Seq<u8> {
    Seq::new(256, |j: int| texel_byte(palette, j))
}

/// The palette of the debug texture.
pub open spec fn debug_palette() -> Seq<u8> {
    seq![
        255u8, 102, 159, 255, 255, 159, 102, 255, 236, 255, 102, 255, 121, 255, 102, 255, 102, 255,
        198, 255, 102, 198, 255, 255, 121, 102, 255, 255, 236, 102, 255, 255,
    ]
}

/// Builds an 8×8 RGBA image, row by row, where each row is the 32-byte
/// `palette` rotated right by one pixel more than the row above.
pub fn texture_from_palette(palette: &[u8; 32]) -> (r: Vec<u8>)
    ensures
        r@ == texture_of(palette@),
{
    let mut data: Vec<u8> = Vec::new();
    let mut j: usize = 0;
    while j < TEXTURE_SIZE * ROW_BYTES
        invariant
            j <= 256,
            palette@.len() == 32,
            data@ =~= texture_of(palette@).take(j as int),
        decreases 256 - j,
    {
        let row = j / ROW_BYTES;
        let col = j % ROW_BYTES;
        data.push(palette[(col + ROW_BYTES - 4 * row) % ROW_BYTES]);
        j = j + 1;
        assert(data@ =~= texture_of(palette@).take(j as int));
    }
    assert(texture_of(palette@).take(256) =~= texture_of(palette@));
    data
}

/// The bytes of the debug texture.
pub fn uv_debug_texture_data() -> (r: Vec<u8>)
    ensures
        r@ == texture_of(debug_palette()),
{
    let palette: [u8; 32] = [
        255, 102, 159, 255, 255, 159, 102, 255, 236, 255, 102, 255, 121, 255, 102, 255, 102, 255,
        198, 255, 102, 198, 255, 255, 121, 102, 255, 255, 236, 102, 255, 255,
    ];
    assert(palette@ =~= debug_palette());
    texture_from_palette(&palette)
}

} // verus!
