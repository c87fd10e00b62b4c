//! Snapshots: the packed colors of a buffer are taken apart into red, green
//! and blue bytes and encoded as a BMP file in memory.

use vstd::prelude::*;

verus! {

/// The red component of a packed color: bits 16 to 23.
pub open spec fn red(color: u32) -> u8 {
    ((color / 0x1_0000) % 0x100) as u8
}

/// The green component of a packed color: bits 8 to 15.
pub open spec fn green(color: u32) -> u8 {
    ((color / 0x100) % 0x100) as u8
}

/// The blue component of a packed color: bits 0 to 7.
pub open spec fn blue(color: u32) -> u8 {
    (color % 0x100) as u8
}

/// The bytes of a row of packed colors: red, green and blue of each color in
/// turn.
pub open spec fn rgb_bytes(colors: Seq<u32>) -> Seq<u8> {
    Seq::new(
        3 * colors.len(),
        |k: int|
            if k % 3 == 0 {
                red(colors[k / 3])
            } else if k % 3 == 1 {
                green(colors[k / 3])
            } else {
                blue(colors[k / 3])
            },
    )
}

/// Why no snapshot could be made.
#[derive(Clone, Copy, Debug, PartialEq, Eq, Structural)]
pub enum SnapshotError {
    /// A dimension does not fit in 32 bits, or three bytes for each pixel do
    /// not fit in memory.
    TooLarge,
    /// The buffer holds fewer than `width * height` colors.
    BufferTooShort,
    /// The encoder refused the image.
    Encoding,
}

/// `image::ImageError`, the error of the `image` crate. Nothing is known of
/// what one holds; it is only carried from the encoder to [`encoded`].
#[verifier::external_type_specification]
#[verifier::external_body]
pub struct ExImageError(image::ImageError);

/// The BMP file that the encoder of the `image` crate makes of an image of
/// `width` by `height` pixels given as RGB bytes, or `None` where the encoder
/// returns an error.
pub uninterp spec fn bmp_encoding(rgb: Seq<u8>, width: u32, height: u32) -> Option<Seq<u8>>;

/// Calls `image::codecs::bmp::BmpEncoder::encode` with the color type `Rgb8`
/// on an encoder that `BmpEncoder::new` made over an empty vector. The
/// encoder panics unless it is given exactly three bytes for each pixel, which
/// the precondition asks for. Nothing here is proved of the encoder. The
/// contract claims only that what it writes depends on `rgb`, `width` and
/// `height` alone, and gives that outcome its name: the bytes written where it
/// succeeds, `None` where it returns an error.
#[verifier::external_body]
fn bmp_encode(rgb: &Vec<u8>, width: u32, height: u32) -> (outcome: Result<
    Vec<u8>,
    image::ImageError,
>)
    requires
        rgb@.len() == 3 * width * height,
    ensures
        match outcome {
            Ok(file) => bmp_encoding(rgb@, width, height) == Some(file@),
            Err(_) => bmp_encoding(rgb@, width, height) is None,
        },
{
    let mut file: Vec<u8> = Vec::new();
    let mut encoder = image::codecs::bmp::BmpEncoder::new(&mut file);
    match encoder.encode(rgb, width, height, image::ExtendedColorType::Rgb8) {
        Ok(()) => Ok(file),
        Err(error) => Err(error),
    }
}

/// Takes a packed color apart into its red, green and blue components.
pub fn channels(color: u32) -> (rgb: (u8, u8, u8))
    ensures
        rgb == (red(color), green(color), blue(color)),
{
    assert((color >> 16) & 0xFF == (color / 0x1_0000) % 0x100) by (bit_vector);
    assert((color >> 8) & 0xFF == (color / 0x100) % 0x100) by (bit_vector);
    assert(color & 0xFF == color % 0x100) by (bit_vector);
    (((color >> 16) & 0xFF) as u8, ((color >> 8) & 0xFF) as u8, (color & 0xFF) as u8)
}

/// The red, green and blue bytes of the first `count` colors of `buffer`.
pub fn pixel_bytes(buffer: &Vec<u32>, count: usize) -> (bytes: Vec<u8>)
    requires
        count <= buffer@.len(),
        3 * count <= usize::MAX,
    ensures
        bytes@ == rgb_bytes(buffer@.take(count as int)),
{
    let mut bytes: Vec<u8> = Vec::new();
    let mut i: usize = 0;
    while i < count
        invariant
            i <= count,
            count <= buffer@.len(),
            3 * count <= usize::MAX,
            bytes@ == rgb_bytes(buffer@.take(i as int)),
        decreases count - i,
    {
        let (r, g, b) = channels(buffer[i]);
        bytes.push(r);
        bytes.push(g);
        bytes.push(b);
        i += 1;
        assert(bytes@ =~= rgb_bytes(buffer@.take(i as int)));
    }
    bytes
}

/// What a snapshot is once the encoder has answered: its file, or the error
/// that says it refused.
pub fn encoded(outcome: Result<Vec<u8>, image::ImageError>) -> (snapshot: Result<
    Vec<u8>,
    SnapshotError,
>)
    ensures
        match outcome {
            Ok(file) => snapshot == Ok::<Vec<u8>, SnapshotError>(file),
            Err(_) => snapshot == Err::<Vec<u8>, SnapshotError>(SnapshotError::Encoding),
        },
{
    match outcome {
        Ok(file) => Ok(file),
        Err(_) => Err(SnapshotError::Encoding),
    }
}

/// Whether a snapshot of `width` by `height` pixels is too large to make.
pub open spec fn too_large(width: usize, height: usize) -> bool {
    width > u32::MAX || height > u32::MAX || 3 * width * height > usize::MAX
}

/// Encodes the first `width * height` colors of `buffer`, read row by row, as
/// a BMP file.
pub fn encode_bmp(buffer: &Vec<u32>, width: usize, height: usize) -> (snapshot: Result<
    Vec<u8>,
    SnapshotError,
>)
    ensures
        too_large(width, height) ==> snapshot == Err::<Vec<u8>, SnapshotError>(
            SnapshotError::TooLarge,
        ),
        !too_large(width, height) && buffer@.len() < width * height ==> snapshot == Err::<
            Vec<u8>,
            SnapshotError,
        >(SnapshotError::BufferTooShort),
        !too_large(width, height) && buffer@.len() >= width * height ==> match bmp_encoding(
            rgb_bytes(buffer@.take(width * height)),
            width as u32,
            height as u32,
        ) {
            Some(file) => snapshot is Ok && snapshot->Ok_0@ == file,
            None => snapshot == Err::<Vec<u8>, SnapshotError>(SnapshotError::Encoding),
        },
{
    if width > u32::MAX as usize || height > u32::MAX as usize {
        return Err(SnapshotError::TooLarge);
    }
    let count = match width.checked_mul(height) {
        Some(count) => count,
        None => {
            assert(3 * width * height > usize::MAX) by (nonlinear_arith)
                requires
                    width * height > usize::MAX,
            ;
            return Err(SnapshotError::TooLarge);
        },
    };
    assert(3 * width * height == 3 * count) by (nonlinear_arith)
        requires
            count == width * height,
    ;
    if count.checked_mul(3).is_none() {
        return Err(SnapshotError::TooLarge);
    }
    if buffer.len() < count {
        return Err(SnapshotError::BufferTooShort);
    }
    let rgb = pixel_bytes(buffer, count);
    encoded(bmp_encode(&rgb, width as u32, height as u32))
}

} // verus!
