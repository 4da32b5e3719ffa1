//! From raw IDP byte streams to classified pixel images.
//!
//! An unverified caller reads each file into a byte vector; everything
//! from there on — decoding, dead-band classification, differencing — is
//! verified here.

use vstd::prelude::*;
use crate::decoder::{
    IDPDecoder,
    idp_complete,
    idp_fmt2,
    idp_height,
    idp_num_pixels,
    idp_u16_samples,
    idp_f32_samples,
    idp_width,
};
use crate::dimensions::{HEIGHT, WIDTH};
use crate::error::{ImageError, ImageResult};
use crate::imageops::diff_pixel_spec;
use crate::imageops::diff_pixels;
use crate::pixel::{DecodingResult, Pixel};
use crate::pixelops::{make_pixel_f32, make_pixel_f32_spec, make_pixel_u16, make_pixel_u16_spec};

verus! {

/// Whether the stream declares exactly the fixed sensor geometry.
pub open spec fn idp_fixed_geometry(b: Seq<u8>) -> bool {
    &&& idp_width(b) == WIDTH
    &&& idp_height(b) == HEIGHT
}

/// Whether the stream decodes to a full image of the fixed geometry.
pub open spec fn idp_decodable(b: Seq<u8>) -> bool {
    &&& idp_complete(b)
    &&& idp_fixed_geometry(b)
}

/// The classified pixel at index `i` of a decodable stream: the sample's
/// floating encoding, tagged by the dead-band geometry.
pub open spec fn classified_pixel(b: Seq<u8>, i: int) -> Pixel {
    if idp_fmt2(b) == 0 {
        make_pixel_u16_spec(i, idp_u16_samples(b)[i])
    } else {
        make_pixel_f32_spec(i, idp_f32_samples(b)[i])
    }
}

/// The whole classified image of a decodable stream.
pub open spec fn classified_pixels(b: Seq<u8>) -> Seq<Pixel> {
    Seq::new(idp_num_pixels(b) as nat, |i: int| classified_pixel(b, i))
}

/// Decodes an IDP byte stream of the fixed geometry into classified
/// pixels.  A bad header, a truncated payload or any other geometry is a
/// format error.
pub fn decode_idp_pixels(bytes: Vec<u8>) -> (res: ImageResult<Vec<Pixel>>)
    ensures
        res is Ok <==> idp_decodable(bytes@),
        res matches Ok(v) ==> v@ == classified_pixels(bytes@),
        res matches Err(e) ==> e is FormatError,
{
    let ghost b = bytes@;
    let mut idp_decoder = match IDPDecoder::new(bytes) {
        Ok(d) => d,
        Err(_) => {
            return Err(ImageError::FormatError("could not parse IDP header".to_string()));
        },
    };
    if !(idp_decoder.width == WIDTH as u32 && idp_decoder.height == HEIGHT as u32) {
        return Err(ImageError::FormatError("unexpected image dimensions".to_string()));
    }
    let decoding_result = match idp_decoder.read_image() {
        Ok(r) => r,
        Err(_) => {
            return Err(ImageError::FormatError("truncated IDP payload".to_string()));
        },
    };
    let n = WIDTH * HEIGHT;
    proof {
        assert(idp_num_pixels(b) == n);
    }
    let mut pixels: Vec<Pixel> = Vec::with_capacity(n);
    match decoding_result {
        DecodingResult::U16(buffer) => {
            let mut i: usize = 0;
            while i < n
                invariant
                    i <= n,
                    n == WIDTH * HEIGHT,
                    buffer@.len() == n,
                    idp_fmt2(b) == 0,
                    idp_num_pixels(b) == n,
                    forall|k: int| 0 <= k < n ==> buffer@[k] == idp_u16_samples(b)[k],
                    pixels@.len() == i,
                    forall|k: int| 0 <= k < i ==> pixels@[k] == classified_pixel(b, k),
                decreases n - i,
            {
                pixels.push(make_pixel_u16(i, buffer[i]));
                i = i + 1;
            }
        },
        DecodingResult::F32(buffer) => {
            let mut i: usize = 0;
            while i < n
                invariant
                    i <= n,
                    n == WIDTH * HEIGHT,
                    buffer@.len() == n,
                    idp_fmt2(b) == 2,
                    idp_num_pixels(b) == n,
                    forall|k: int| 0 <= k < n ==> buffer@[k] == idp_f32_samples(b)[k],
                    pixels@.len() == i,
                    forall|k: int| 0 <= k < i ==> pixels@[k] == classified_pixel(b, k),
                decreases n - i,
            {
                pixels.push(make_pixel_f32(i, buffer[i]));
                i = i + 1;
            }
        },
    }
    proof {
        assert(pixels@ =~= classified_pixels(b));
    }
    Ok(pixels)
}

/// The per-index absolute difference of two decodable streams' classified
/// images.
pub open spec fn diff_images_spec(l: Seq<u8>, r: Seq<u8>) -> Seq<Pixel> {
    Seq::new(
        idp_num_pixels(l) as nat,
        |i: int| diff_pixel_spec(classified_pixels(l)[i], classified_pixels(r)[i]),
    )
}

/// Decodes two IDP streams of the fixed geometry and hands back their
/// absolute per-pixel difference, dead-band status propagated from the
/// left image.
#[allow(non_snake_case)]
pub fn absolute_difference_of_IDP_Imges(lhs: Vec<u8>, rhs: Vec<u8>) -> (res: ImageResult<
    Vec<Pixel>,
>)
    ensures
        res is Ok <==> idp_decodable(lhs@) && idp_decodable(rhs@),
        res matches Ok(d) ==> d@ == diff_images_spec(lhs@, rhs@),
        res matches Err(e) ==> e is FormatError,
{
    let ghost lb = lhs@;
    let ghost rb = rhs@;
    let lhs_pixels = match decode_idp_pixels(lhs) {
        Ok(v) => v,
        Err(e) => {
            return Err(e);
        },
    };
    let rhs_pixels = match decode_idp_pixels(rhs) {
        Ok(v) => v,
        Err(e) => {
            return Err(e);
        },
    };
    match diff_pixels(&lhs_pixels, &rhs_pixels) {
        Ok(d) => {
            proof {
                assert(d@ =~= diff_images_spec(lb, rb));
            }
            Ok(d)
        },
        Err(_) => Err(ImageError::FormatError("shape mismatch".to_string())),
    }
}

} // verus!
