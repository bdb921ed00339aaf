//! EXIF for the decoders whose container carries a TIFF blob: the
//! orientation tag, read through `kamadak-exif`, and the JPEG APP1
//! payloads that put XMP and EXIF back.

use vstd::prelude::*;
use crate::error::Error;
use crate::format::Format;
use crate::image::{Orientation, spec_from_exif, strip_exif_prefix};
use crate::text::{push_str, push_decimal, decimal};

verus! {

/// The identifier JPEG's XMP APP1 segment starts with:
/// `http://ns.adobe.com/xap/1.0/` and a NUL.
pub open spec fn xmp_app1_id() -> Seq<u8> {
    seq![0x68u8, 0x74, 0x74, 0x70, 0x3a, 0x2f, 0x2f, 0x6e, 0x73, 0x2e, 0x61, 0x64, 0x6f, 0x62, 0x65, 0x2e, 0x63,
        0x6f, 0x6d, 0x2f, 0x78, 0x61, 0x70, 0x2f, 0x31, 0x2e, 0x30, 0x2f, 0x00]
}

/// `Exif` and two NULs.
pub open spec fn exif_prefix() -> Seq<u8> {
    seq![0x45u8, 0x78, 0x69, 0x66, 0x00, 0x00]
}

/// The largest payload one JPEG marker segment holds: 65535 less the two
/// length bytes.
pub const MARKER_MAX: usize = 65_533;

/// The identifier, for code.
pub fn xmp_id() -> (r: Vec<u8>)
    ensures
        r@ == xmp_app1_id(),
{
    let r = vec![0x68u8, 0x74, 0x74, 0x70, 0x3a, 0x2f, 0x2f, 0x6e, 0x73, 0x2e, 0x61, 0x64, 0x6f, 0x62, 0x65, 0x2e,
        0x63, 0x6f, 0x6d, 0x2f, 0x78, 0x61, 0x70, 0x2f, 0x31, 0x2e, 0x30, 0x2f, 0x00];
    assert(r@ =~= xmp_app1_id());
    r
}

/// A payload behind its identifier, or why one JPEG segment cannot hold
/// it: `Unsupported`, naming the blob's size and what fits.
pub open spec fn spec_app1(id: Seq<u8>, blob: Seq<u8>, what: Seq<char>, format: Format) -> Result<Seq<u8>, (Format, Seq<char>)> {
    if id.len() + blob.len() > MARKER_MAX {
        Err((format, "an "@ + what + " of "@ + decimal(blob.len()) + " bytes; one JPEG segment holds "@
            + decimal((MARKER_MAX - id.len()) as nat)))
    } else {
        Ok(id + blob)
    }
}

/// Whether a result is the payload or refusal the spec gives.
pub open spec fn app1_is(r: Result<Vec<u8>, Error>, s: Result<Seq<u8>, (Format, Seq<char>)>) -> bool {
    match s {
        Ok(v) => r matches Ok(out) && out@ == v,
        Err((f, m)) => r matches Err(Error::Unsupported { format, what }) && format == f && what@ == m,
    }
}

fn app1(mut id: Vec<u8>, blob: &[u8], what: &str, format: Format) -> (r: Result<Vec<u8>, Error>)
    requires
        id@.len() <= MARKER_MAX,
    ensures
        app1_is(r, spec_app1(id@, blob@, what@, format)),
{
    if blob.len() > MARKER_MAX - id.len() {
        let mut m = String::new();
        push_str(&mut m, "an ");
        push_str(&mut m, what);
        push_str(&mut m, " of ");
        push_decimal(&mut m, blob.len() as u64);
        push_str(&mut m, " bytes; one JPEG segment holds ");
        push_decimal(&mut m, (MARKER_MAX - id.len()) as u64);
        return Err(Error::Unsupported { format, what: m });
    }
    let ghost start = id@;
    let mut i: usize = 0;
    while i < blob.len()
        invariant
            i <= blob@.len(),
            id@ == start + blob@.subrange(0, i as int),
        decreases blob@.len() - i,
    {
        id.push(blob[i]);
        i = i + 1;
        assert(id@ =~= start + blob@.subrange(0, i as int));
    }
    assert(blob@.subrange(0, blob@.len() as int) =~= blob@);
    Ok(id)
}

/// An XMP packet as a JPEG APP1 payload, identifier included; refused as
/// `Unsupported` when it does not fit one marker segment.
pub fn xmp_app1(xmp: &[u8], format: Format) -> (r: Result<Vec<u8>, Error>)
    ensures
        app1_is(r, spec_app1(xmp_app1_id(), xmp@, "XMP packet"@, format)),
{
    app1(xmp_id(), xmp, "XMP packet", format)
}

/// An EXIF blob as a JPEG APP1 payload, `Exif\0\0` prefix included;
/// refused as `Unsupported` when it does not fit one marker segment.
pub fn exif_app1(exif: &[u8], format: Format) -> (r: Result<Vec<u8>, Error>)
    ensures
        app1_is(r, spec_app1(exif_prefix(), exif@, "EXIF blob"@, format)),
{
    let id = vec![0x45u8, 0x78, 0x69, 0x66, 0x00, 0x00];
    assert(id@ =~= exif_prefix());
    app1(id, exif, "EXIF blob", format)
}

/// The value `kamadak-exif` reads for the `Orientation` tag of the primary
/// image from a TIFF structure, if the structure parses and the tag is
/// there with an unsigned value.
pub uninterp spec fn exif_orientation_value(tiff: Seq<u8>) -> Option<u32>;

/// `exif::Reader::read_raw` over the bytes, then `get_field` for
/// `Tag::Orientation` in the primary IFD and `get_uint(0)` of its value.
/// The contract names that result and says nothing more of it.
#[verifier::external_body]
fn orientation_value(tiff: &[u8]) -> (r: Option<u32>)
    ensures
        r == exif_orientation_value(tiff@),
{
    let parsed = exif::Reader::new().read_raw(tiff.to_vec()).ok()?;
    parsed.get_field(exif::Tag::Orientation, exif::In::PRIMARY)?.value.get_uint(0)
}

/// The orientation raw EXIF names, a leading `Exif\0\0` tolerated.
pub open spec fn spec_orientation(raw: Seq<u8>) -> Option<Orientation> {
    match exif_orientation_value(strip_exif_prefix(raw)) {
        Some(v) => spec_from_exif(v),
        None => None,
    }
}

/// Orientation from raw EXIF bytes starting at the TIFF header. Malformed
/// EXIF, or a value outside one to eight, yields `None`: a photo with
/// broken metadata still decodes, just unrotated.
pub fn orientation(raw: &[u8]) -> (r: Option<Orientation>)
    ensures
        r == spec_orientation(raw@),
{
    let tiff = if raw.len() >= 6 && raw[0] == 0x45 && raw[1] == 0x78 && raw[2] == 0x69 && raw[3] == 0x66 && raw[4]
        == 0 && raw[5] == 0 {
        vstd::slice::slice_subrange(raw, 6, raw.len())
    } else {
        raw
    };
    match orientation_value(tiff) {
        Some(v) => Orientation::from_exif(v),
        None => None,
    }
}

} // verus!
