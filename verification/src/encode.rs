//! Encoding a vector of images into ICO data.

use vstd::prelude::*;

use crate::error::Error;
use crate::image::Image;
use crate::serialize::{encode_spec, serialize_ico, views};

verus! {

/// Consumes a vector of images and returns them encoded into ICO data.
pub fn encode_icon(images: Vec<Image>) -> (r: Result<Vec<u8>, Error>)
    ensures
        match r {
            Ok(data) => encode_spec(views(images@)) == Ok::<Seq<u8>, Error>(data@),
            Err(e) => encode_spec(views(images@)) == Err::<Seq<u8>, Error>(e),
        },
{
    serialize_ico(&images)
}

} // verus!
