//! Reading the metadata that an image file carries.
//!
//! Parsing is the work of the `exif` crate. What it finds in given bytes is
//! taken on trust and named; everything built on it is verified.

use vstd::prelude::*;
use crate::error::GalleryError;
use crate::metadata::{merged, pairs_to_map, MetadataFields};

verus! {

/// `exif::Exif`: the parsed metadata block of one image.
#[verifier::external_type_specification]
#[verifier::external_body]
pub struct ExExif(exif::Exif);

/// `exif::Error`: why a metadata block could not be had.
#[verifier::external_type_specification]
#[verifier::external_body]
pub struct ExExifError(exif::Error);

/// The fields of a parsed block, in the order of `exif::Exif::fields`: for
/// each field the name of its tag, and its value as `display_value` and
/// `with_unit` print it.
pub uninterp spec fn exif_fields(parsed: exif::Exif) -> Seq<(Seq<char>, Seq<char>)>;

/// The fields that `exif::Reader::read_from_container` finds in the bytes of
/// a file, or `None` where it reports an error.
pub uninterp spec fn embedded_fields(data: Seq<u8>) -> Option<Seq<(Seq<char>, Seq<char>)>>;

/// Calls `exif::Reader::read_from_container` on the bytes of a file.
///
/// Trusted: the outcome depends on the bytes alone, so it is the one that
/// `embedded_fields` names. The reader returns for any bytes: what it cannot
/// parse it reports as an error.
#[verifier::external_body]
fn read_container(data: &[u8]) -> (outcome: Result<exif::Exif, exif::Error>)
    ensures
        match outcome {
            Ok(parsed) => embedded_fields(data@) == Some(exif_fields(parsed)),
            Err(_) => embedded_fields(data@) is None,
        },
{
    exif::Reader::new().read_from_container(&mut std::io::Cursor::new(data))
}

/// Walks `exif::Exif::fields` and hands out each field as two strings: the
/// tag by its `Display`, the value by `display_value().with_unit(..)`.
///
/// Trusted: the strings are the ones that `exif_fields` names, in the same
/// order.
#[verifier::external_body]
fn display_pairs(parsed: &exif::Exif) -> (pairs: Vec<(String, String)>)
    ensures
        pairs.deep_view() == exif_fields(*parsed),
{
    let mut pairs = Vec::new();
    for field in parsed.fields() {
        pairs.push((field.tag.to_string(), field.display_value().with_unit(parsed).to_string()));
    }
    pairs
}

/// The metadata fields of a file, given its bytes.
///
/// Where the file carries a metadata block, the fields are those of the
/// block, a later field replacing an earlier one of the same tag name. Where
/// it carries none that can be parsed, the answer is `MetadataUnavailable`.
pub fn extract_metadata(data: &[u8]) -> (extracted: Result<MetadataFields, GalleryError>)
    ensures
        match embedded_fields(data@) {
            Some(pairs) => extracted matches Ok(fields) && fields@ == pairs_to_map(pairs)
                && fields.listing() == merged(pairs),
            None => extracted matches Err(e) && e == GalleryError::MetadataUnavailable,
        },
{
    match read_container(data) {
        Ok(parsed) => Ok(MetadataFields::from_pairs(display_pairs(&parsed))),
        Err(_) => Err(GalleryError::MetadataUnavailable),
    }
}

} // verus!
