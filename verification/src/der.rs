//! The few pieces of DER that certificate extensions are made of.
use vstd::prelude::*;

verus! {

/// The tag of an object identifier.
pub const OBJECT_IDENTIFIER: u8 = 0x06;

/// The tag of a sequence.
pub const SEQUENCE: u8 = 0x30;

/// The length octets of `len` bytes: one octet below 128, else a count of the
/// octets that follow. Two octets are the most that are written: of a larger
/// length the lowest two stand there.
pub open spec fn length_octets(len: nat) -> Seq<u8> {
    if len < 128 {
        seq![len as u8]
    } else if len <= 0xff {
        seq![0x81, len as u8]
    } else {
        seq![0x82, (len / 256 % 256) as u8, (len % 256) as u8]
    }
}

/// Contents with their tag and their length in front.
pub open spec fn wrapped(tag: u8, contents: Seq<u8>) -> Seq<u8> {
    seq![tag] + length_octets(contents.len()) + contents
}

/// The length octets of `len` bytes.
pub fn der_len(len: usize) -> (octets: Vec<u8>)
    ensures
        octets@ == length_octets(len as nat),
{
    let mut octets: Vec<u8> = Vec::new();
    if len < 128 {
        octets.push(len as u8);
    } else if len <= 0xff {
        octets.push(0x81);
        octets.push(len as u8);
    } else {
        octets.push(0x82);
        octets.push((len / 256 % 256) as u8);
        octets.push((len % 256) as u8);
    }
    assert(octets@ =~= length_octets(len as nat));
    octets
}

/// Contents with their tag and their length in front.
pub fn der_wrap(tag: u8, contents: &[u8]) -> (out: Vec<u8>)
    ensures
        out@ == wrapped(tag, contents@),
{
    let mut out: Vec<u8> = Vec::new();
    out.push(tag);
    let octets: Vec<u8> = der_len(contents.len());
    crate::bytes::push_range(&mut out, octets.as_slice(), 0, octets.len());
    crate::bytes::push_range(&mut out, contents, 0, contents.len());
    assert(out@ =~= wrapped(tag, contents@));
    out
}

/// A sequence of the given contents.
pub fn der_sequence(contents: &[u8]) -> (out: Vec<u8>)
    ensures
        out@ == wrapped(SEQUENCE, contents@),
{
    der_wrap(SEQUENCE, contents)
}

/// An object identifier whose value has the given bytes.
pub fn der_object(value: &[u8]) -> (out: Vec<u8>)
    ensures
        out@ == wrapped(OBJECT_IDENTIFIER, value@),
{
    der_wrap(OBJECT_IDENTIFIER, value)
}

/// One element at the start of some bytes: its tag, its contents, and what
/// follows it. `None` where the bytes end too early, or where the length takes
/// another form than the ones written here.
pub open spec fn first_element(bytes: Seq<u8>) -> Option<(u8, Seq<u8>, Seq<u8>)> {
    if bytes.len() < 2 {
        None
    } else {
        let long: int = if bytes[1] < 0x80 {
            0
        } else {
            bytes[1] - 0x80
        };
        if long > 2 || bytes.len() < 2 + long {
            None
        } else {
            let len: int = if long == 0 {
                bytes[1] as int
            } else if long == 1 {
                bytes[2] as int
            } else {
                bytes[2] * 256 + bytes[3]
            };
            let start = 2 + long;
            if bytes.len() < start + len {
                None
            } else {
                Some(
                    (
                        bytes[0],
                        bytes.subrange(start, start + len),
                        bytes.skip(start + len),
                    ),
                )
            }
        }
    }
}

/// What was wrapped is read back, whatever follows it.
pub proof fn law_wrapped_contents_are_read_back(tag: u8, contents: Seq<u8>, rest: Seq<u8>)
    requires
        contents.len() <= 0xffff,
    ensures
        first_element(wrapped(tag, contents) + rest) == Some((tag, contents, rest)),
{
    let len = contents.len();
    let bytes = wrapped(tag, contents) + rest;
    let octets = length_octets(len);
    let start: int = 1 + octets.len() as int;
    let end: int = start + len as int;
    assert(bytes[0] == tag);
    assert(bytes[1] == octets[0]);
    if octets.len() > 1 {
        assert(bytes[2] == octets[1]);
    }
    if octets.len() > 2 {
        assert(bytes[3] == octets[2]);
        assert(len / 256 % 256 * 256 + len % 256 == len);
    }
    assert(bytes.subrange(start, end) =~= contents);
    assert(bytes.skip(end) =~= rest);
}

/// Length octets are as few as DER allows.
pub proof fn law_lengths_are_shortest(len: nat)
    ensures
        length_octets(len).len() == 1 <==> len < 128,
        length_octets(len).len() == 2 <==> 128 <= len < 256,
{
}

} // verus!
