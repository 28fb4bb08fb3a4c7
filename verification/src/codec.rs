//! Decompression of stored bytes.
use crate::failure::{IoFailure, own_failure};
#[allow(unused_imports)]
use crate::failure::{IoFailureView, failure_told};
use std::io::Read;
use vstd::prelude::*;

verus! {

/// Bytes, or why there are none, taken by their views.
pub open spec fn data_view<E: View>(r: Result<Vec<u8>, E>) -> Result<Seq<u8>, E::V> {
    match r {
        Ok(data) => Ok(data@),
        Err(e) => Err(e@),
    }
}

/// Bytes, or what an error of std tells.
pub open spec fn data_told(r: Result<Vec<u8>, std::io::Error>) -> Result<Seq<u8>, IoFailureView> {
    match r {
        Ok(data) => Ok(data@),
        Err(e) => Err(failure_told(e)),
    }
}

fn own_data(r: Result<Vec<u8>, std::io::Error>) -> (data: Result<Vec<u8>, IoFailure>)
    ensures
        data_view(data) == data_told(r),
{
    match r {
        Ok(data) => Ok(data),
        Err(e) => Err(own_failure(&e)),
    }
}

/// The first `limit` bytes that a zlib stream at the start of `stored` decodes
/// to, or the failure of the decoder before it had them.
pub uninterp spec fn zlib_output(stored: Seq<u8>, limit: u64) -> Result<Seq<u8>, IoFailureView>;

/// The first `limit` bytes that a gzip member at the start of `stored` decodes
/// to, or the failure of the decoder before it had them.
pub uninterp spec fn gzip_output(stored: Seq<u8>, limit: u64) -> Result<Seq<u8>, IoFailureView>;

/// The first `limit` bytes that a bzip2 stream at the start of `stored` decodes
/// to, or the failure of the decoder before it had them.
pub uninterp spec fn bzip2_output(stored: Seq<u8>, limit: u64) -> Result<Seq<u8>, IoFailureView>;

/// `flate2::read::ZlibDecoder`, read to its end or to `limit` bytes, whichever
/// comes first. Claimed: the answer depends on the two arguments alone, and
/// holds at most `limit` bytes.
#[verifier::external_body]
fn zlib_read(stored: &[u8], limit: u64) -> (data: Result<Vec<u8>, std::io::Error>)
    ensures
        data_told(data) == zlib_output(stored@, limit),
        data matches Ok(bytes) ==> bytes@.len() <= limit,
{
    let mut out: Vec<u8> = Vec::new();
    match flate2::read::ZlibDecoder::new(stored).take(limit).read_to_end(&mut out) {
        Ok(_) => Ok(out),
        Err(error) => Err(error),
    }
}

/// `flate2::read::GzDecoder`, read to its end or to `limit` bytes, whichever
/// comes first. Claimed: the answer depends on the two arguments alone, and
/// holds at most `limit` bytes.
#[verifier::external_body]
fn gzip_read(stored: &[u8], limit: u64) -> (data: Result<Vec<u8>, std::io::Error>)
    ensures
        data_told(data) == gzip_output(stored@, limit),
        data matches Ok(bytes) ==> bytes@.len() <= limit,
{
    let mut out: Vec<u8> = Vec::new();
    match flate2::read::GzDecoder::new(stored).take(limit).read_to_end(&mut out) {
        Ok(_) => Ok(out),
        Err(error) => Err(error),
    }
}

/// `bzip2::read::BzDecoder`, read to its end or to `limit` bytes, whichever
/// comes first. Claimed: the answer depends on the two arguments alone, and
/// holds at most `limit` bytes.
#[verifier::external_body]
fn bzip2_read(stored: &[u8], limit: u64) -> (data: Result<Vec<u8>, std::io::Error>)
    ensures
        data_told(data) == bzip2_output(stored@, limit),
        data matches Ok(bytes) ==> bytes@.len() <= limit,
{
    let mut out: Vec<u8> = Vec::new();
    match bzip2::read::BzDecoder::new(stored).take(limit).read_to_end(&mut out) {
        Ok(_) => Ok(out),
        Err(error) => Err(error),
    }
}

/// The first `limit` bytes that a zlib stream at the start of `stored` decodes to.
pub(crate) fn zlib_decode(stored: &[u8], limit: u64) -> (data: Result<Vec<u8>, IoFailure>)
    ensures
        data_view(data) == zlib_output(stored@, limit),
        data matches Ok(bytes) ==> bytes@.len() <= limit,
{
    own_data(zlib_read(stored, limit))
}

/// The first `limit` bytes that a gzip member at the start of `stored` decodes to.
pub(crate) fn gzip_decode(stored: &[u8], limit: u64) -> (data: Result<Vec<u8>, IoFailure>)
    ensures
        data_view(data) == gzip_output(stored@, limit),
        data matches Ok(bytes) ==> bytes@.len() <= limit,
{
    own_data(gzip_read(stored, limit))
}

/// The first `limit` bytes that a bzip2 stream at the start of `stored` decodes to.
pub(crate) fn bzip2_decode(stored: &[u8], limit: u64) -> (data: Result<Vec<u8>, IoFailure>)
    ensures
        data_view(data) == bzip2_output(stored@, limit),
        data matches Ok(bytes) ==> bytes@.len() <= limit,
{
    own_data(bzip2_read(stored, limit))
}

} // verus!
