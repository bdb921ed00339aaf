//! What a perceptual metric asks of its inputs before it scores them:
//! the reference and the candidate must have the same size.

use vstd::prelude::*;
use crate::error::Error;
use crate::image::Image;
use crate::text::{decimal, push_decimal, push_str};

verus! {

/// The refusal for two images of different sizes.
pub open spec fn size_mismatch(aw: u32, ah: u32, bw: u32, bh: u32) -> Seq<char> {
    "metric inputs differ in size: reference "@ + decimal(aw as nat) + "x"@ + decimal(ah as nat) + ", candidate "@
        + decimal(bw as nat) + "x"@ + decimal(bh as nat)
}

/// Whether a reference and a candidate can be compared: `InvalidInput`,
/// giving both sizes, when their widths or heights differ.
pub fn check_dimensions(a: &Image, b: &Image) -> (r: Result<(), Error>)
    ensures
        (a@.width == b@.width && a@.height == b@.height) ==> r is Ok,
        !(a@.width == b@.width && a@.height == b@.height) ==> (r matches Err(Error::InvalidInput(m))
            && m@ == size_mismatch(a@.width, a@.height, b@.width, b@.height)),
{
    if a.width() != b.width() || a.height() != b.height() {
        let mut m = String::new();
        push_str(&mut m, "metric inputs differ in size: reference ");
        push_decimal(&mut m, a.width() as u64);
        push_str(&mut m, "x");
        push_decimal(&mut m, a.height() as u64);
        push_str(&mut m, ", candidate ");
        push_decimal(&mut m, b.width() as u64);
        push_str(&mut m, "x");
        push_decimal(&mut m, b.height() as u64);
        return Err(Error::InvalidInput(m));
    }
    Ok(())
}

} // verus!
