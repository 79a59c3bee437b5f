//! Thumbnails of imported images. The `image` crate reads, decodes, scales
//! and encodes; this module decides, from what the decoder reports, whether
//! a decode may go ahead and what size the source is shown at.
//!
//! The crate's source does not show that its decoders, `thumbnail` and
//! `write_to` return on every malformed or extreme image, and nothing here
//! claims they do: `generate_thumbnail` may unwind inside one of them, and
//! a caller that must not fail catches the unwind and counts it as no
//! thumbnail.
use vstd::prelude::*;
use std::io::Cursor;
use image::{DynamicImage, GenericImageView, ImageDecoder, ImageFormat, ImageReader, Limits};
use image::metadata::Orientation as DecoderOrientation;
use zeroize::Zeroize;
use crate::gallery::{
    exif_orientation, oriented_dimensions, spec_decode_within_limits, spec_exif_orientation,
    spec_oriented_dimensions, spec_thumbnail_source, decode_within_limits, thumbnail_size_ok,
    thumbnail_source_format, Orientation, SourceFormat, MAX_DECODE_ALLOC_BYTES, MAX_IMAGE_DIMENSION,
    MAX_THUMBNAIL_BYTES, THUMBNAIL_EDGE,
};

verus! {

#[verifier::external_type_specification]
#[verifier::external_body]
pub struct ExDynamicImage(DynamicImage);

/// What a decoder reports of an encoded image before it decodes it: its
/// stored size, the bytes the decoded image takes, and its EXIF
/// orientation number if the decoder could read one.
#[derive(Debug, Clone, Copy)]
pub struct ImageHeader {
    pub width: u32,
    pub height: u32,
    pub reported_bytes: u64,
    pub orientation_exif: Option<u8>,
}

/// The header that the `image` crate's decoder reports for `source` in the
/// given format under the given size and allocation limits, or `None` when
/// it makes no decoder for it.
pub uninterp spec fn image_header(source: Seq<u8>, format: SourceFormat, max_dimension: u32, max_alloc: u64) -> Option<ImageHeader>;

/// Makes a decoder with `image::ImageReader::with_format` and `into_decoder`
/// under the given limits and reads its `dimensions`, `total_bytes` and
/// `orientation` (as its EXIF number, `Orientation::to_exif`, which is 1 to
/// 8); `None` when no decoder is made. Claimed: the result is the named
/// `image_header` of the arguments.
#[verifier::external_body]
fn read_image_header(source: &[u8], format: SourceFormat, max_dimension: u32, max_alloc: u64) -> (result:
    Option<ImageHeader>)
    ensures
        result == image_header(source@, format, max_dimension, max_alloc),
        result matches Some(h) ==> (h.orientation_exif matches Some(e) ==> 1 <= e <= 8),
{
    let mut limits = Limits::default();
    limits.max_image_width = Some(max_dimension);
    limits.max_image_height = Some(max_dimension);
    limits.max_alloc = Some(max_alloc);
    let format = match format { SourceFormat::Jpeg => ImageFormat::Jpeg, SourceFormat::Png => ImageFormat::Png };
    let mut reader = ImageReader::with_format(Cursor::new(source), format);
    reader.limits(limits);
    let mut decoder = reader.into_decoder().ok()?;
    let (width, height) = decoder.dimensions();
    let orientation_exif = decoder.orientation().ok().map(DecoderOrientation::to_exif);
    Some(ImageHeader { width, height, reported_bytes: decoder.total_bytes(), orientation_exif })
}

/// Decodes `source` with a decoder made as `read_image_header` makes it and
/// `image::DynamicImage::from_decoder`; `None` when either fails. Nothing
/// is claimed of the image.
#[verifier::external_body]
fn decode_image(source: &[u8], format: SourceFormat, max_dimension: u32, max_alloc: u64) -> (result:
    Option<DynamicImage>)
{
    let mut limits = Limits::default();
    limits.max_image_width = Some(max_dimension);
    limits.max_image_height = Some(max_dimension);
    limits.max_alloc = Some(max_alloc);
    let format = match format { SourceFormat::Jpeg => ImageFormat::Jpeg, SourceFormat::Png => ImageFormat::Png };
    let mut reader = ImageReader::with_format(Cursor::new(source), format);
    reader.limits(limits);
    DynamicImage::from_decoder(reader.into_decoder().ok()?).ok()
}

/// `GenericImageView::dimensions` of a decoded image. Nothing is claimed.
#[verifier::external_body]
fn decoded_dimensions(image: &DynamicImage) -> (result: (u32, u32)) {
    image.dimensions()
}

/// `image::DynamicImage::thumbnail`: the image scaled down to fit within
/// `width` by `height`. Nothing is claimed of the result.
#[verifier::external_body]
fn scale_to_fit(image: &DynamicImage, width: u32, height: u32) -> (result: DynamicImage) {
    image.thumbnail(width, height)
}

/// `image::DynamicImage::apply_orientation` with the decoder's orientation
/// of the same name. Nothing is claimed of the pixels.
#[verifier::external_body]
fn apply_orientation(image: &mut DynamicImage, orientation: Orientation) {
    let orientation = match orientation {
        Orientation::NoTransforms => DecoderOrientation::NoTransforms,
        Orientation::Rotate90 => DecoderOrientation::Rotate90,
        Orientation::Rotate180 => DecoderOrientation::Rotate180,
        Orientation::Rotate270 => DecoderOrientation::Rotate270,
        Orientation::FlipHorizontal => DecoderOrientation::FlipHorizontal,
        Orientation::FlipVertical => DecoderOrientation::FlipVertical,
        Orientation::Rotate90FlipH => DecoderOrientation::Rotate90FlipH,
        Orientation::Rotate270FlipH => DecoderOrientation::Rotate270FlipH,
    };
    image.apply_orientation(orientation);
}

/// Overwrites the pixels of a decoded image with zeros
/// (`zeroize::Zeroize` on its pixel buffer), whatever layout the crate
/// decoded it into. Nothing is claimed.
#[verifier::external_body]
fn wipe_image(image: &mut DynamicImage) {
    match image {
        DynamicImage::ImageLuma8(b) => b.zeroize(),
        DynamicImage::ImageLumaA8(b) => b.zeroize(),
        DynamicImage::ImageRgb8(b) => b.zeroize(),
        DynamicImage::ImageRgba8(b) => b.zeroize(),
        DynamicImage::ImageLuma16(b) => b.zeroize(),
        DynamicImage::ImageLumaA16(b) => b.zeroize(),
        DynamicImage::ImageRgb16(b) => b.zeroize(),
        DynamicImage::ImageRgba16(b) => b.zeroize(),
        DynamicImage::ImageRgb32F(b) => b.zeroize(),
        DynamicImage::ImageRgba32F(b) => b.zeroize(),
        _ => {},
    }
}

/// `image::DynamicImage::write_to` in PNG format into a fresh buffer;
/// `None` when encoding fails. Nothing is claimed of the bytes.
#[verifier::external_body]
fn encode_png(image: &DynamicImage) -> (result: Option<Vec<u8>>) {
    let mut encoded = Cursor::new(Vec::new());
    image.write_to(&mut encoded, ImageFormat::Png).ok()?;
    Some(encoded.into_inner())
}

/// A thumbnail in PNG and the size its source is shown at.
pub struct GeneratedThumbnail {
    pub bytes: Vec<u8>,
    pub source_width: u32,
    pub source_height: u32,
}

/// The orientation a header reports; one the decoder could not read
/// leaves the image as stored.
pub open spec fn spec_header_orientation(header: ImageHeader) -> Orientation {
    match header.orientation_exif {
        Some(exif) => spec_exif_orientation(exif),
        None => Orientation::NoTransforms,
    }
}

/// The size the source is shown at, if its header allows a decode under
/// the gallery's limits.
pub open spec fn spec_header_plan(header: ImageHeader) -> Option<(u32, u32)> {
    if spec_decode_within_limits(header.width, header.height, header.reported_bytes) {
        Some(spec_oriented_dimensions(header.width, header.height, spec_header_orientation(header)))
    } else {
        None
    }
}

/// The size the source is shown at, if its header allows a decode.
pub fn header_plan(header: &ImageHeader) -> (result: Option<(u32, u32)>)
    ensures
        result == spec_header_plan(*header),
{
    if !decode_within_limits(header.width, header.height, header.reported_bytes) {
        return None;
    }
    let orientation = match header.orientation_exif {
        Some(exif) => exif_orientation(exif),
        None => Orientation::NoTransforms,
    };
    Some(oriented_dimensions(header.width, header.height, orientation))
}

/// The decoder format for a media type that thumbnails are made from.
pub open spec fn spec_source_format(mime: Seq<char>) -> SourceFormat {
    if mime == "image/jpeg"@ {
        SourceFormat::Jpeg
    } else {
        SourceFormat::Png
    }
}

/// The header the decoder reports for a source of a media type, under
/// the gallery's limits.
pub open spec fn source_header(source: Seq<u8>, mime: Seq<char>) -> Option<ImageHeader> {
    image_header(source, spec_source_format(mime), MAX_IMAGE_DIMENSION, MAX_DECODE_ALLOC_BYTES)
}

/// A PNG thumbnail, at most 512 pixels a side, of a JPEG or PNG source.
/// Nothing is made for other media types, for a source the decoder
/// refuses, or for one whose header exceeds the decode limits; when one is
/// made, its source size is the header's size as shown, and it holds at
/// most 4 MiB. It may unwind where the image crate panics (see above).
pub fn generate_thumbnail(source: &[u8], mime_type: &str) -> (result: Option<GeneratedThumbnail>)
    ensures
        !spec_thumbnail_source(mime_type@) ==> result is None,
        spec_thumbnail_source(mime_type@) ==> match source_header(source@, mime_type@) {
            None => result is None,
            Some(header) => spec_header_plan(header) is None ==> result is None,
        },
        result matches Some(t) ==> {
            &&& spec_thumbnail_source(mime_type@)
            &&& source_header(source@, mime_type@) matches Some(header)
            &&& spec_header_plan(header) == Some((t.source_width, t.source_height))
            &&& 0 < t.bytes@.len() <= MAX_THUMBNAIL_BYTES
        },
{
    let format = match thumbnail_source_format(mime_type) {
        Some(format) => format,
        None => return None,
    };
    proof {
        reveal_strlit("image/jpeg");
        reveal_strlit("image/png");
        assert("image/png"@[6] != "image/jpeg"@[6]);
        assert(format == spec_source_format(mime_type@));
    }
    let header = match read_image_header(source, format, MAX_IMAGE_DIMENSION, MAX_DECODE_ALLOC_BYTES) {
        Some(header) => header,
        None => return None,
    };
    let (source_width, source_height) = match header_plan(&header) {
        Some(size) => size,
        None => return None,
    };
    let mut decoded = match decode_image(source, format, MAX_IMAGE_DIMENSION, MAX_DECODE_ALLOC_BYTES) {
        Some(image) => image,
        None => return None,
    };
    let (decoded_width, decoded_height) = decoded_dimensions(&decoded);
    if decoded_width != header.width || decoded_height != header.height {
        wipe_image(&mut decoded);
        return None;
    }
    let edge_width = if THUMBNAIL_EDGE < decoded_width { THUMBNAIL_EDGE } else { decoded_width };
    let edge_height = if THUMBNAIL_EDGE < decoded_height { THUMBNAIL_EDGE } else { decoded_height };
    let mut thumbnail = scale_to_fit(&decoded, edge_width, edge_height);
    wipe_image(&mut decoded);
    let orientation = match header.orientation_exif {
        Some(exif) => exif_orientation(exif),
        None => Orientation::NoTransforms,
    };
    apply_orientation(&mut thumbnail, orientation);
    let encoded = encode_png(&thumbnail);
    wipe_image(&mut thumbnail);
    let mut bytes = match encoded {
        Some(bytes) => bytes,
        None => return None,
    };
    if !thumbnail_size_ok(bytes.len()) {
        crate::crypto::wipe(&mut bytes);
        return None;
    }
    Some(GeneratedThumbnail { bytes, source_width, source_height })
}

} // verus!
