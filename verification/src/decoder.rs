//! The IDP binary image codec.
//!
//! An IDP stream is, in little-endian order: two format tag words
//! `(fmt1, fmt2)`, the width, the height (all 32-bit), then `width *
//! height` samples in row-major order.  The pair `(0, 0)` selects unsigned
//! 16-bit samples and `(0, 2)` selects 32-bit floating samples; any other
//! pair is an unsupported format.

use vstd::prelude::*;
use crate::error::{ImageError, ImageResult};
use crate::pixel::{DecodingResult, PixelType};
use crate::stream::{ByteOrder, SmartReader, SmartWriter, spec_u16_at, spec_u16_bytes, spec_u32_at, spec_u32_bytes};

verus! {

/// First format tag word of the stream.
pub open spec fn idp_fmt1(b: Seq<u8>) -> int {
    spec_u32_at(b, 0, ByteOrder::LittleEndian)
}

/// Second format tag word of the stream.
pub open spec fn idp_fmt2(b: Seq<u8>) -> int {
    spec_u32_at(b, 4, ByteOrder::LittleEndian)
}

/// Declared width of the image.
pub open spec fn idp_width(b: Seq<u8>) -> int {
    spec_u32_at(b, 8, ByteOrder::LittleEndian)
}

/// Declared height of the image.
pub open spec fn idp_height(b: Seq<u8>) -> int {
    spec_u32_at(b, 12, ByteOrder::LittleEndian)
}

/// Whether the stream holds a full header with a supported format pair.
pub open spec fn idp_header_wf(b: Seq<u8>) -> bool {
    &&& b.len() >= 16
    &&& idp_fmt1(b) == 0
    &&& (idp_fmt2(b) == 0 || idp_fmt2(b) == 2)
}

/// Number of samples the header declares.
pub open spec fn idp_num_pixels(b: Seq<u8>) -> int {
    idp_width(b) * idp_height(b)
}

/// Size in bytes of one sample under the declared format.
pub open spec fn idp_sample_size(b: Seq<u8>) -> int {
    if idp_fmt2(b) == 0 {
        2
    } else {
        4
    }
}

/// Whether the stream holds the whole declared payload after the header.
pub open spec fn idp_complete(b: Seq<u8>) -> bool {
    &&& idp_header_wf(b)
    &&& 16 + idp_sample_size(b) * idp_num_pixels(b) <= b.len()
}

/// The 16-bit samples of a complete stream with format pair `(0, 0)`.
pub open spec fn idp_u16_samples(b: Seq<u8>) -> Seq<u16> {
    Seq::new(
        idp_num_pixels(b) as nat,
        |i: int| (spec_u16_at(b, 16 + 2 * i, ByteOrder::LittleEndian)) as u16,
    )
}

/// The floating samples (as bit patterns) of a complete stream with format
/// pair `(0, 2)`.
pub open spec fn idp_f32_samples(b: Seq<u8>) -> Seq<u32> {
    Seq::new(
        idp_num_pixels(b) as nat,
        |i: int| (spec_u32_at(b, 16 + 4 * i, ByteOrder::LittleEndian)) as u32,
    )
}

/// A decoder positioned after the header of an IDP stream.
#[derive(Debug)]
pub struct IDPDecoder {
    pub reader: SmartReader,
    pub byte_order: ByteOrder,
    pub width: u32,
    pub height: u32,
    pub pixel_type: PixelType,
}

impl IDPDecoder {
    /// The decoder reads IDP streams, which are little-endian throughout.
    pub open spec fn wf(self) -> bool {
        &&& self.byte_order == ByteOrder::LittleEndian
        &&& self.reader.byte_order == ByteOrder::LittleEndian
    }

    /// Whether a full, supported header starts at `pos` of `b`.
    pub open spec fn header_ok_at(b: Seq<u8>, pos: int) -> bool {
        &&& pos + 16 <= b.len()
        &&& spec_u32_at(b, pos, ByteOrder::LittleEndian) == 0
        &&& (spec_u32_at(b, pos + 4, ByteOrder::LittleEndian) == 0 || spec_u32_at(
            b,
            pos + 4,
            ByteOrder::LittleEndian,
        ) == 2)
    }

    /// What the decoder's fields hold after parsing the header at `pos`.
    pub open spec fn parsed_header(self, b: Seq<u8>, pos: int) -> bool {
        &&& self.reader.data@ == b
        &&& self.reader.pos == pos + 16
        &&& self.width == spec_u32_at(b, pos + 8, ByteOrder::LittleEndian)
        &&& self.height == spec_u32_at(b, pos + 12, ByteOrder::LittleEndian)
        &&& (self.pixel_type == PixelType::Short16 <==> spec_u32_at(
            b,
            pos + 4,
            ByteOrder::LittleEndian,
        ) == 0)
        &&& (self.pixel_type == PixelType::Float32 <==> spec_u32_at(
            b,
            pos + 4,
            ByteOrder::LittleEndian,
        ) == 2)
    }

    /// Create a new decoder that decodes from the byte stream `r`.  It
    /// parses the header at once; a short stream or an unsupported format
    /// pair is a format error.
    pub fn new(r: Vec<u8>) -> (res: ImageResult<IDPDecoder>)
        ensures
            Self::header_ok_at(r@, 0) ==> (res matches Ok(d) && d.wf() && d.parsed_header(r@, 0)),
            !Self::header_ok_at(r@, 0) ==> (res matches Err(e) && e is FormatError),
    {
        IDPDecoder {
            reader: SmartReader::wrap(r, ByteOrder::LittleEndian),
            byte_order: ByteOrder::LittleEndian,
            width: 0,
            height: 0,
            pixel_type: PixelType::Short16,
        }.init()
    }

    fn read_header(&mut self) -> (res: ImageResult<()>)
        requires
            old(self).wf(),
        ensures
            final(self).wf(),
            final(self).reader.data == old(self).reader.data,
            Self::header_ok_at(old(self).reader.data@, old(self).reader.pos as int) ==> (
            res matches Ok(u) && final(self).parsed_header(
                old(self).reader.data@,
                old(self).reader.pos as int,
            )),
            !Self::header_ok_at(old(self).reader.data@, old(self).reader.pos as int) ==> (
            res matches Err(e) && e is FormatError),
    {
        let fmt1 = match self.reader.read_u32() {
            Ok(v) => v,
            Err(_) => {
                return Err(ImageError::FormatError("Format error: ".to_string()));
            },
        };
        let fmt2 = match self.reader.read_u32() {
            Ok(v) => v,
            Err(_) => {
                return Err(ImageError::FormatError("Format error: ".to_string()));
            },
        };
        self.pixel_type = match (fmt1, fmt2) {
            (0u32, 0u32) => PixelType::Short16,
            (0u32, 2u32) => PixelType::Float32,
            _ => {
                return Err(ImageError::FormatError("Invalid IDP header found".to_string()));
            },
        };
        self.width = match self.reader.read_u32() {
            Ok(v) => v,
            Err(_) => {
                return Err(ImageError::FormatError("Format error: ".to_string()));
            },
        };
        self.height = match self.reader.read_u32() {
            Ok(v) => v,
            Err(_) => {
                return Err(ImageError::FormatError("Format error: ".to_string()));
            },
        };
        Ok(())
    }

    /// Initializes the decoder.
    pub fn init(self) -> (res: ImageResult<IDPDecoder>)
        requires
            self.wf(),
        ensures
            Self::header_ok_at(self.reader.data@, self.reader.pos as int) ==> (
            res matches Ok(d) && d.wf() && d.parsed_header(
                self.reader.data@,
                self.reader.pos as int,
            )),
            !Self::header_ok_at(self.reader.data@, self.reader.pos as int) ==> (
            res matches Err(e) && e is FormatError),
    {
        self.next_image()
    }

    /// Reads in the next image's header.
    pub fn next_image(self) -> (res: ImageResult<IDPDecoder>)
        requires
            self.wf(),
        ensures
            Self::header_ok_at(self.reader.data@, self.reader.pos as int) ==> (
            res matches Ok(d) && d.wf() && d.parsed_header(
                self.reader.data@,
                self.reader.pos as int,
            )),
            !Self::header_ok_at(self.reader.data@, self.reader.pos as int) ==> (
            res matches Err(e) && e is FormatError),
    {
        let mut s = self;
        match s.read_header() {
            Ok(_) => Ok(s),
            Err(e) => Err(e),
        }
    }

    /// Returns a tuple containing the width and height of the image.
    pub fn dimensions(&mut self) -> (res: ImageResult<(u32, u32)>)
        ensures
            *final(self) == *old(self),
            res == Ok::<(u32, u32), ImageError>((old(self).width, old(self).height)),
    {
        Ok((self.width, self.height))
    }

    /// Returns the element type of the image.
    pub fn pixel_type(&mut self) -> (res: ImageResult<PixelType>)
        ensures
            *final(self) == *old(self),
            res == Ok::<PixelType, ImageError>(old(self).pixel_type),
    {
        match self.pixel_type {
            PixelType::Short16 => Ok(PixelType::Short16),
            PixelType::Float32 => Ok(PixelType::Float32),
        }
    }

    /// Decodes the entire image and returns it as a sample buffer.  The
    /// fill is all-or-nothing: if the stream ends before `width * height`
    /// samples were read, the partial buffer is discarded and a format
    /// error is reported.
    pub fn read_image(&mut self) -> (res: ImageResult<DecodingResult>)
        requires
            old(self).wf(),
        ensures
            final(self).wf(),
            final(self).reader.data == old(self).reader.data,
            final(self).width == old(self).width,
            final(self).height == old(self).height,
            final(self).pixel_type == old(self).pixel_type,
            final(self).reader.pos >= old(self).reader.pos,
            ({
                let n = old(self).width * old(self).height;
                let data = old(self).reader.data@;
                let pos = old(self).reader.pos as int;
                match old(self).pixel_type {
                    PixelType::Short16 => {
                        if n <= usize::MAX && (n == 0 || pos + 2 * n <= data.len()) {
                            &&& res matches Ok(DecodingResult::U16(v)) && v@.len() == n && (forall|
                                i: int,
                            |
                                0 <= i < n ==> v@[i] == (spec_u16_at(
                                    data,
                                    pos + 2 * i,
                                    ByteOrder::LittleEndian,
                                )) as u16)
                            &&& final(self).reader.pos == pos + 2 * n
                        } else {
                            res matches Err(e) && e is FormatError
                        }
                    },
                    PixelType::Float32 => {
                        if n <= usize::MAX && (n == 0 || pos + 4 * n <= data.len()) {
                            &&& res matches Ok(DecodingResult::F32(v)) && v@.len() == n && (forall|
                                i: int,
                            |
                                0 <= i < n ==> v@[i] == (spec_u32_at(
                                    data,
                                    pos + 4 * i,
                                    ByteOrder::LittleEndian,
                                )) as u32)
                            &&& final(self).reader.pos == pos + 4 * n
                        } else {
                            res matches Err(e) && e is FormatError
                        }
                    },
                }
            }),
    {
        proof {
            assert(self.width as int * self.height as int <= 0xFFFF_FFFFu64 * 0xFFFF_FFFFu64)
                by (nonlinear_arith)
                requires
                    self.width <= 0xFFFF_FFFFu64,
                    self.height <= 0xFFFF_FFFFu64,
            ;
        }
        let n64: u64 = self.width as u64 * self.height as u64;
        if n64 > usize::MAX as u64 {
            return Err(ImageError::FormatError("Image too large".to_string()));
        }
        let n: usize = n64 as usize;
        let ghost data = old(self).reader.data@;
        let ghost pos0 = old(self).reader.pos as int;
        match self.pixel_type {
            PixelType::Short16 => {
                let mut buffer: Vec<u16> = Vec::with_capacity(n);
                let mut i: usize = 0;
                while i < n
                    invariant
                        i <= n,
                        self.wf(),
                        self.width == old(self).width,
                        self.height == old(self).height,
                        self.pixel_type == old(self).pixel_type,
                        self.pixel_type == PixelType::Short16,
                        n == old(self).width * old(self).height,
                        data == old(self).reader.data@,
                        pos0 == old(self).reader.pos as int,
                        self.reader.data == old(self).reader.data,
                        self.reader.pos == pos0 + 2 * i,
                        i > 0 ==> pos0 + 2 * i <= data.len(),
                        buffer@.len() == i,
                        forall|j: int|
                            0 <= j < i ==> buffer@[j] == (spec_u16_at(
                                data,
                                pos0 + 2 * j,
                                ByteOrder::LittleEndian,
                            )) as u16,
                    decreases n - i,
                {
                    match self.reader.read_u16() {
                        Ok(datum) => {
                            buffer.push(datum);
                        },
                        Err(_) => {
                            return Err(ImageError::FormatError("Format error: ".to_string()));
                        },
                    }
                    i = i + 1;
                }
                Ok(DecodingResult::U16(buffer))
            },
            PixelType::Float32 => {
                let mut buffer: Vec<u32> = Vec::with_capacity(n);
                let mut i: usize = 0;
                while i < n
                    invariant
                        i <= n,
                        self.wf(),
                        self.width == old(self).width,
                        self.height == old(self).height,
                        self.pixel_type == old(self).pixel_type,
                        self.pixel_type == PixelType::Float32,
                        n == old(self).width * old(self).height,
                        data == old(self).reader.data@,
                        pos0 == old(self).reader.pos as int,
                        self.reader.data == old(self).reader.data,
                        self.reader.pos == pos0 + 4 * i,
                        i > 0 ==> pos0 + 4 * i <= data.len(),
                        buffer@.len() == i,
                        forall|j: int|
                            0 <= j < i ==> buffer@[j] == (spec_u32_at(
                                data,
                                pos0 + 4 * j,
                                ByteOrder::LittleEndian,
                            )) as u32,
                    decreases n - i,
                {
                    match self.reader.read_f32_bits() {
                        Ok(datum) => {
                            buffer.push(datum);
                        },
                        Err(_) => {
                            return Err(ImageError::FormatError("Format error: ".to_string()));
                        },
                    }
                    i = i + 1;
                }
                Ok(DecodingResult::F32(buffer))
            },
        }
    }
}

/// The byte stream that encodes a sequence of 16-bit samples, two bytes
/// each, little-endian.
pub open spec fn u16_payload(s: Seq<u16>) -> Seq<u8>
    decreases s.len(),
{
    if s.len() == 0 {
        Seq::empty()
    } else {
        u16_payload(s.drop_last()) + spec_u16_bytes(s.last(), ByteOrder::LittleEndian)
    }
}

/// The byte stream that encodes a sequence of 32-bit samples, four bytes
/// each, little-endian.
pub open spec fn u32_payload(s: Seq<u32>) -> Seq<u8>
    decreases s.len(),
{
    if s.len() == 0 {
        Seq::empty()
    } else {
        u32_payload(s.drop_last()) + spec_u32_bytes(s.last(), ByteOrder::LittleEndian)
    }
}

/// Each byte of a 16-bit payload, by position.
pub proof fn lemma_u16_payload_index(s: Seq<u16>)
    ensures
        u16_payload(s).len() == 2 * s.len(),
        forall|j: int|
            0 <= j < 2 * s.len() ==> #[trigger] u16_payload(s)[j] == (if j % 2 == 0 {
                s[j / 2] % 256
            } else {
                s[j / 2] / 256
            }) as u8,
    decreases s.len(),
{
    if s.len() > 0 {
        lemma_u16_payload_index(s.drop_last());
        assert forall|j: int| 0 <= j < 2 * s.len() implies #[trigger] u16_payload(s)[j] == (if j
            % 2 == 0 {
            s[j / 2] % 256
        } else {
            s[j / 2] / 256
        }) as u8 by {
            if j < 2 * s.len() - 2 {
                assert(u16_payload(s)[j] == u16_payload(s.drop_last())[j]);
                assert(s.drop_last()[j / 2] == s[j / 2]);
            } else {
                assert(j / 2 == s.len() - 1);
            }
        }
    }
}

/// Each byte of a 32-bit payload, by position.
pub proof fn lemma_u32_payload_index(s: Seq<u32>)
    ensures
        u32_payload(s).len() == 4 * s.len(),
        forall|j: int|
            0 <= j < 4 * s.len() ==> #[trigger] u32_payload(s)[j] == (if j % 4 == 0 {
                s[j / 4] % 256
            } else if j % 4 == 1 {
                (s[j / 4] / 256) % 256
            } else if j % 4 == 2 {
                (s[j / 4] / 65536) % 256
            } else {
                s[j / 4] / 16777216
            }) as u8,
    decreases s.len(),
{
    if s.len() > 0 {
        lemma_u32_payload_index(s.drop_last());
        assert forall|j: int| 0 <= j < 4 * s.len() implies #[trigger] u32_payload(s)[j] == (if j
            % 4 == 0 {
            s[j / 4] % 256
        } else if j % 4 == 1 {
            (s[j / 4] / 256) % 256
        } else if j % 4 == 2 {
            (s[j / 4] / 65536) % 256
        } else {
            s[j / 4] / 16777216
        }) as u8 by {
            if j < 4 * s.len() - 4 {
                assert(u32_payload(s)[j] == u32_payload(s.drop_last())[j]);
                assert(s.drop_last()[j / 4] == s[j / 4]);
            } else {
                assert(j / 4 == s.len() - 1);
            }
        }
    }
}

/// The 16-byte IDP header for format word `fmt2` and the given dimensions.
pub open spec fn idp_header_bytes(fmt2: u32, width: u32, height: u32) -> Seq<u8> {
    spec_u32_bytes(0, ByteOrder::LittleEndian) + spec_u32_bytes(fmt2, ByteOrder::LittleEndian)
        + spec_u32_bytes(width, ByteOrder::LittleEndian) + spec_u32_bytes(
        height,
        ByteOrder::LittleEndian,
    )
}

/// The byte stream that encodes `samples` as a 16-bit IDP image of the
/// given dimensions.
pub open spec fn encode_idp_u16_spec(width: u32, height: u32, samples: Seq<u16>) -> Seq<u8> {
    idp_header_bytes(0, width, height) + u16_payload(samples)
}

/// The byte stream that encodes floating samples (given as bit patterns)
/// as a 32-bit IDP image of the given dimensions.
pub open spec fn encode_idp_f32_spec(width: u32, height: u32, samples: Seq<u32>) -> Seq<u8> {
    idp_header_bytes(2, width, height) + u32_payload(samples)
}

/// Encodes a 16-bit image as an IDP byte stream.
pub fn encode_idp_u16(width: u32, height: u32, samples: &Vec<u16>) -> (r: Vec<u8>)
    requires
        samples@.len() == width * height,
    ensures
        r@ == encode_idp_u16_spec(width, height, samples@),
{
    let mut wtr = SmartWriter::wrap(Vec::new(), ByteOrder::LittleEndian);
    wtr.write_u32(0);
    wtr.write_u32(0);
    wtr.write_u32(width);
    wtr.write_u32(height);
    let ghost header = wtr.data@;
    proof {
        assert(header =~= idp_header_bytes(0, width, height));
    }
    let mut i: usize = 0;
    while i < samples.len()
        invariant
            i <= samples@.len(),
            wtr.byte_order == ByteOrder::LittleEndian,
            header == idp_header_bytes(0, width, height),
            wtr.data@ == header + u16_payload(samples@.take(i as int)),
        decreases samples@.len() - i,
    {
        wtr.write_u16(samples[i]);
        proof {
            let t = samples@.take(i + 1);
            assert(t.drop_last() =~= samples@.take(i as int));
            assert(wtr.data@ =~= header + u16_payload(t));
        }
        i = i + 1;
    }
    proof {
        assert(samples@.take(samples@.len() as int) =~= samples@);
    }
    wtr.data
}

/// Encodes a floating image (samples given as bit patterns) as an IDP byte
/// stream.
pub fn encode_idp_f32(width: u32, height: u32, samples: &Vec<u32>) -> (r: Vec<u8>)
    requires
        samples@.len() == width * height,
    ensures
        r@ == encode_idp_f32_spec(width, height, samples@),
{
    let mut wtr = SmartWriter::wrap(Vec::new(), ByteOrder::LittleEndian);
    wtr.write_u32(0);
    wtr.write_u32(2);
    wtr.write_u32(width);
    wtr.write_u32(height);
    let ghost header = wtr.data@;
    proof {
        assert(header =~= idp_header_bytes(2, width, height));
    }
    let mut i: usize = 0;
    while i < samples.len()
        invariant
            i <= samples@.len(),
            wtr.byte_order == ByteOrder::LittleEndian,
            header == idp_header_bytes(2, width, height),
            wtr.data@ == header + u32_payload(samples@.take(i as int)),
        decreases samples@.len() - i,
    {
        wtr.write_f32_bits(samples[i]);
        proof {
            let t = samples@.take(i + 1);
            assert(t.drop_last() =~= samples@.take(i as int));
            assert(wtr.data@ =~= header + u32_payload(t));
        }
        i = i + 1;
    }
    proof {
        assert(samples@.take(samples@.len() as int) =~= samples@);
    }
    wtr.data
}

/// Round trip for 16-bit images: decoding the encoding of any sample
/// sequence gives back exactly the original samples, along with the
/// dimensions and format that were written.
pub proof fn lemma_idp_round_trip_u16(width: u32, height: u32, samples: Seq<u16>)
    requires
        samples.len() == width * height,
    ensures
        ({
            let b = encode_idp_u16_spec(width, height, samples);
            &&& idp_header_wf(b)
            &&& idp_fmt2(b) == 0
            &&& idp_width(b) == width
            &&& idp_height(b) == height
            &&& idp_complete(b)
            &&& idp_u16_samples(b) == samples
        }),
{
    let b = encode_idp_u16_spec(width, height, samples);
    lemma_u16_payload_index(samples);
    assert(idp_fmt1(b) == 0);
    assert(idp_fmt2(b) == 0);
    assert(idp_width(b) == width);
    assert(idp_height(b) == height);
    assert forall|i: int| 0 <= i < samples.len() implies idp_u16_samples(b)[i] == samples[i] by {
        assert(b[16 + 2 * i] == u16_payload(samples)[2 * i]);
        assert(b[16 + 2 * i + 1] == u16_payload(samples)[2 * i + 1]);
        assert((2 * i) / 2 == i && (2 * i + 1) / 2 == i);
        assert((2 * i) % 2 == 0 && (2 * i + 1) % 2 == 1);
    }
    assert(idp_u16_samples(b) =~= samples);
}

/// Round trip for floating images: decoding the encoding of any sequence
/// of sample bit patterns gives back exactly the original patterns, along
/// with the dimensions and format that were written.
#[verifier::rlimit(60)]
pub proof fn lemma_idp_round_trip_f32(width: u32, height: u32, samples: Seq<u32>)
    requires
        samples.len() == width * height,
    ensures
        ({
            let b = encode_idp_f32_spec(width, height, samples);
            &&& idp_header_wf(b)
            &&& idp_fmt2(b) == 2
            &&& idp_width(b) == width
            &&& idp_height(b) == height
            &&& idp_complete(b)
            &&& idp_f32_samples(b) == samples
        }),
{
    let b = encode_idp_f32_spec(width, height, samples);
    lemma_u32_payload_index(samples);
    assert(idp_fmt1(b) == 0);
    assert(idp_fmt2(b) == 2);
    assert(idp_width(b) == width);
    assert(idp_height(b) == height);
    assert forall|i: int| 0 <= i < samples.len() implies idp_f32_samples(b)[i] == samples[i] by {
        assert(b[16 + 4 * i] == u32_payload(samples)[4 * i]);
        assert(b[16 + 4 * i + 1] == u32_payload(samples)[4 * i + 1]);
        assert(b[16 + 4 * i + 2] == u32_payload(samples)[4 * i + 2]);
        assert(b[16 + 4 * i + 3] == u32_payload(samples)[4 * i + 3]);
        assert((4 * i) / 4 == i && (4 * i + 1) / 4 == i && (4 * i + 2) / 4 == i && (4 * i + 3) / 4
            == i);
        assert((4 * i) % 4 == 0 && (4 * i + 1) % 4 == 1 && (4 * i + 2) % 4 == 2 && (4 * i + 3) % 4
            == 3);
    }
    assert(idp_f32_samples(b) =~= samples);
}

} // verus!
