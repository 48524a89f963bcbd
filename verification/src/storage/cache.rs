//! The payloads of the persistent caches are stored bzip2-compressed: the
//! encoded environment (or listing) goes through the `compression` crate's
//! encoder on the way in.

use vstd::prelude::*;
use compression::prelude::{Action, BZip2Encoder, EncodeExt};
use super::CacheError;

verus! {

/// What the `compression` crate's bzip2 encoder, at level 6 and finishing the
/// stream, makes of `data`; `None` where it reports an error.
pub uninterp spec fn bzip2_packed(data: Seq<u8>) -> Option<Seq<u8>>;

/// Feeds `data` through `BZip2Encoder::new(6)` with `Action::Finish` and
/// collects the output bytes; on an encoder error, the error's text. The
/// outcome is a function of `data`.
#[verifier::external_body]
fn bzip2_compress(data: Vec<u8>) -> (r: Result<Vec<u8>, String>)
    ensures
        match r {
            Ok(c) => bzip2_packed(data@) == Some(c@),
            Err(_) => bzip2_packed(data@) is None,
        },
{
    let mut encoder = BZip2Encoder::new(6);
    match data.into_iter().encode(&mut encoder, Action::Finish).collect::<Result<Vec<u8>, _>>() {
        Ok(c) => Ok(c),
        Err(e) => Err(e.to_string()),
    }
}

/// The compressed form in which the caches store `data`.
pub fn compress_data(data: Vec<u8>) -> (r: Result<Vec<u8>, CacheError>)
    ensures
        match r {
            Ok(c) => bzip2_packed(data@) == Some(c@),
            Err(_) => bzip2_packed(data@) is None,
        },
{
    match bzip2_compress(data) {
        Ok(c) => Ok(c),
        Err(message) => Err(CacheError { message }),
    }
}

} // verus!
