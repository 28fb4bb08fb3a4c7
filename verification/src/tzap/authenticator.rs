//! The signed envelope of an X.509 archive signature.
use crate::bytes::{copy_range, le_at, read_u16_le, read_u32_le, read_u64_le};
#[allow(unused_imports)]
use crate::bytes::{
    law_half_words_are_little_endian, law_long_words_are_two_words, law_words_are_little_endian,
    word_at,
};
use crate::tzap::error::{TzapError, root_auth_error};
#[allow(unused_imports)]
use crate::tzap::error::TzapFault;
use vstd::prelude::*;

verus! {

/// The version of the envelope.
pub const X509_ROOT_AUTH_VERSION: u16 = 1;

/// The signature scheme of the envelope.
pub const X509_ROOT_AUTH_OPENSSL_SHA256_SCHEME: u16 = 1;

/// How many bytes come before the signature.
pub const X509_ROOT_AUTH_FIXED_AUTHENTICATOR_LEN: usize = 60;

/// The parts of an envelope that an inspection needs.
#[derive(Debug, PartialEq, Eq)]
pub struct X509AuthenticatorInspection {
    /// When the signer claims to have signed.
    pub signed_at_unix_seconds: i64,
    /// Digest of the certificate chain.
    pub chain_digest: [u8; 32],
    /// The signature.
    pub signature: Vec<u8>,
}

/// The parts of an envelope with their bytes taken as sequences.
pub struct AuthenticatorView {
    pub signed_at: int,
    pub chain_digest: Seq<u8>,
    pub signature: Seq<u8>,
}

impl View for X509AuthenticatorInspection {
    type V = AuthenticatorView;

    open spec fn view(&self) -> AuthenticatorView {
        AuthenticatorView {
            signed_at: self.signed_at_unix_seconds as int,
            chain_digest: self.chain_digest@,
            signature: self.signature@,
        }
    }
}

/// A 64-bit number read as a signed one.
pub open spec fn as_signed(n: nat) -> int {
    if n < 0x8000_0000_0000_0000 {
        n as int
    } else {
        n - 0x1_0000_0000_0000_0000
    }
}

/// The time that an envelope claims.
pub open spec fn claimed_time(value: Seq<u8>) -> int {
    as_signed(le_at(value, 8, 8))
}

/// Whether `s` holds zero bytes only.
pub open spec fn all_zero(s: Seq<u8>) -> bool {
    forall|k: int| 0 <= k < s.len() ==> #[trigger] s[k] == 0
}

/// Where a chain of `count` certificates that starts at `offset` ends. Each has
/// its length in front.
pub open spec fn chain_end(value: Seq<u8>, offset: int, count: nat) -> Result<int, Seq<char>>
    decreases count,
{
    if count == 0 {
        Ok(offset)
    } else if offset + 4 > value.len() {
        Err("X.509 authenticator is truncated"@)
    } else {
        let end = offset + 4 + le_at(value, offset, 4);
        if end > usize::MAX {
            Err("X.509 authenticator length overflow"@)
        } else if end > value.len() {
            Err("X.509 authenticator certificate chain is truncated"@)
        } else {
            chain_end(value, end, (count - 1) as nat)
        }
    }
}

/// The parts of an envelope, or what is wrong with it. The fixed part is
/// followed by room for the signature, filled up with zeros, and by the
/// certificate chain, up to the last byte.
pub open spec fn authenticator(value: Seq<u8>) -> Result<AuthenticatorView, Seq<char>> {
    let fixed = X509_ROOT_AUTH_FIXED_AUTHENTICATOR_LEN as int;
    let length = le_at(value, 48, 4);
    let capacity = le_at(value, 52, 4);
    let count = le_at(value, 56, 4);
    let chain = fixed + capacity;
    if value.len() < fixed {
        Err("X.509 authenticator is too short"@)
    } else if value.take(4) != seq![84u8, 90, 88, 67] {
        Err("X.509 authenticator magic mismatch"@)
    } else if le_at(value, 4, 2) != X509_ROOT_AUTH_VERSION {
        Err("unsupported X.509 authenticator version"@)
    } else if le_at(value, 6, 2) != X509_ROOT_AUTH_OPENSSL_SHA256_SCHEME {
        Err("unsupported X.509 signature scheme"@)
    } else if length > capacity {
        Err("X.509 signature length exceeds capacity"@)
    } else if chain > usize::MAX {
        Err("X.509 authenticator length overflow"@)
    } else if value.len() < chain {
        Err("X.509 authenticator signature is truncated"@)
    } else if count > (value.len() - chain) / 4 {
        Err("X.509 authenticator chain count exceeds payload"@)
    } else if !all_zero(value.subrange(fixed + length, chain)) {
        Err("X.509 authenticator signature padding is non-zero"@)
    } else {
        match chain_end(value, chain, count) {
            Err(message) => Err(message),
            Ok(end) => if end != value.len() {
                Err("X.509 authenticator has trailing bytes"@)
            } else {
                Ok(
                    AuthenticatorView {
                        signed_at: claimed_time(value),
                        chain_digest: value.subrange(16, 48),
                        signature: value.subrange(fixed, fixed + length),
                    },
                )
            },
        }
    }
}

/// A result with its parts and its error taken by their views.
pub open spec fn authenticator_result(r: Result<X509AuthenticatorInspection, TzapError>) -> Result<
    AuthenticatorView,
    TzapFault,
> {
    match r {
        Ok(parts) => Ok(parts@),
        Err(e) => Err(e@),
    }
}

/// What is wrong with an envelope is a fault of the archive's signature.
pub open spec fn authenticator_outcome(value: Seq<u8>) -> Result<AuthenticatorView, TzapFault> {
    match authenticator(value) {
        Ok(parts) => Ok(parts),
        Err(message) => Err(TzapFault::X509RootAuth(message)),
    }
}

/// Reads a signed 64-bit number.
pub fn read_x509_i64(value: &[u8], offset: usize) -> (n: i64)
    requires
        offset + 8 <= value@.len(),
    ensures
        n as int == as_signed(le_at(value@, offset as int, 8)),
{
    let raw: u64 = read_u64_le(value, offset);
    if raw < 0x8000_0000_0000_0000 {
        raw as i64
    } else {
        let above: u64 = raw - 0x8000_0000_0000_0000;
        above as i64 + i64::MIN
    }
}

fn is_zero(value: &[u8], from: usize, to: usize) -> (r: bool)
    requires
        from <= to <= value@.len(),
    ensures
        r == all_zero(value@.subrange(from as int, to as int)),
{
    let ghost part = value@.subrange(from as int, to as int);
    let mut i: usize = from;
    while i < to
        invariant
            from <= i <= to <= value@.len(),
            part == value@.subrange(from as int, to as int),
            forall|k: int| 0 <= k < i - from ==> #[trigger] part[k] == 0,
        decreases to - i,
    {
        if value[i] != 0 {
            assert(part[i - from] != 0);
            return false;
        }
        i = i + 1;
    }
    true
}

fn copy_digest(value: &[u8]) -> (digest: [u8; 32])
    requires
        value@.len() >= 48,
    ensures
        digest@ == value@.subrange(16, 48),
{
    let mut digest: [u8; 32] = [0;32];
    let mut i: usize = 0;
    while i < 32
        invariant
            i <= 32,
            value@.len() >= 48,
            forall|k: int| 0 <= k < i ==> #[trigger] digest@[k] == value@[16 + k],
        decreases 32 - i,
    {
        digest[i] = value[16 + i];
        i = i + 1;
    }
    assert(digest@ =~= value@.subrange(16, 48));
    digest
}

fn walk_chain(value: &[u8], from: usize, count: u32) -> (end: Result<usize, TzapError>)
    requires
        from <= value@.len(),
    ensures
        match end {
            Ok(end) => chain_end(value@, from as int, count as nat) == Ok::<int, Seq<char>>(
                end as int,
            ),
            Err(e) => chain_end(value@, from as int, count as nat) is Err && e@
                == TzapFault::X509RootAuth(
                chain_end(value@, from as int, count as nat)->Err_0,
            ),
        },
{
    let mut offset: usize = from;
    let mut left: u32 = count;
    assert(value@.len() == value.len());
    while left > 0
        invariant
            offset <= value@.len(),
            value@.len() == value.len(),
            chain_end(value@, offset as int, left as nat) == chain_end(
                value@,
                from as int,
                count as nat,
            ),
        decreases left,
    {
        if value.len() - offset < 4 {
            return Err(root_auth_error("X.509 authenticator is truncated"));
        }
        let length: u32 = read_u32_le(value, offset);
        offset = offset + 4;
        offset =
        match offset.checked_add(length as usize) {
            Some(end) => end,
            None => {
                return Err(root_auth_error("X.509 authenticator length overflow"));
            },
        };
        if offset > value.len() {
            return Err(root_auth_error("X.509 authenticator certificate chain is truncated"));
        }
        left = left - 1;
    }
    Ok(offset)
}

/// Takes the envelope of an X.509 signature apart.
pub fn parse_x509_authenticator_for_inspection(value: &[u8]) -> (parts: Result<
    X509AuthenticatorInspection,
    TzapError,
>)
    ensures
        authenticator_result(parts) == authenticator_outcome(value@),
{
    if value.len() < X509_ROOT_AUTH_FIXED_AUTHENTICATOR_LEN {
        return Err(root_auth_error("X.509 authenticator is too short"));
    }
    let ghost magic = seq![84u8, 90, 88, 67];
    if !(value[0] == 84 && value[1] == 90 && value[2] == 88 && value[3] == 67) {
        assert(value@.take(4)[0] == value@[0] && value@.take(4)[1] == value@[1] && value@.take(4)[2]
            == value@[2] && value@.take(4)[3] == value@[3]);
        return Err(root_auth_error("X.509 authenticator magic mismatch"));
    }
    assert(value@.take(4) =~= magic);
    if read_u16_le(value, 4) != X509_ROOT_AUTH_VERSION {
        return Err(root_auth_error("unsupported X.509 authenticator version"));
    }
    if read_u16_le(value, 6) != X509_ROOT_AUTH_OPENSSL_SHA256_SCHEME {
        return Err(root_auth_error("unsupported X.509 signature scheme"));
    }
    let signed_at_unix_seconds: i64 = read_x509_i64(value, 8);
    let chain_digest: [u8; 32] = copy_digest(value);
    let signature_len: u32 = read_u32_le(value, 48);
    let signature_capacity: u32 = read_u32_le(value, 52);
    let chain_count: u32 = read_u32_le(value, 56);
    if signature_len > signature_capacity {
        return Err(root_auth_error("X.509 signature length exceeds capacity"));
    }
    let chain: usize = match X509_ROOT_AUTH_FIXED_AUTHENTICATOR_LEN.checked_add(
        signature_capacity as usize,
    ) {
        Some(chain) => chain,
        None => {
            return Err(root_auth_error("X.509 authenticator length overflow"));
        },
    };
    if value.len() < chain {
        return Err(root_auth_error("X.509 authenticator signature is truncated"));
    }
    if chain_count as usize > (value.len() - chain) / 4 {
        return Err(root_auth_error("X.509 authenticator chain count exceeds payload"));
    }
    let signature_end: usize = X509_ROOT_AUTH_FIXED_AUTHENTICATOR_LEN + signature_len as usize;
    if !is_zero(value, signature_end, chain) {
        return Err(root_auth_error("X.509 authenticator signature padding is non-zero"));
    }
    let signature: Vec<u8> = copy_range(
        value,
        X509_ROOT_AUTH_FIXED_AUTHENTICATOR_LEN,
        signature_end,
    );
    let end: usize = match walk_chain(value, chain, chain_count) {
        Ok(end) => end,
        Err(e) => {
            return Err(e);
        },
    };
    if end != value.len() {
        return Err(root_auth_error("X.509 authenticator has trailing bytes"));
    }
    Ok(X509AuthenticatorInspection { signed_at_unix_seconds, chain_digest, signature })
}

/// The bytes that a chain of certificates takes, given their lengths.
pub open spec fn chain_length(value: Seq<u8>, offset: int, count: nat) -> int
    decreases count,
{
    if count == 0 {
        0
    } else {
        let item = 4 + le_at(value, offset, 4);
        item + chain_length(value, offset + item, (count - 1) as nat)
    }
}

proof fn lemma_chain_end(value: Seq<u8>, offset: int, count: nat)
    requires
        chain_end(value, offset, count) is Ok,
    ensures
        chain_end(value, offset, count) == Ok::<int, Seq<char>>(
            offset + chain_length(value, offset, count),
        ),
    decreases count,
{
    if count > 0 {
        lemma_chain_end(value, offset + 4 + le_at(value, offset, 4), (count - 1) as nat);
    }
}

/// An envelope that is accepted has no byte to spare: the fixed part, the room
/// for the signature and the certificates that it counts fill it exactly.
pub proof fn law_accepted_authenticators_are_full(value: Seq<u8>)
    requires
        authenticator(value) is Ok,
    ensures
        X509_ROOT_AUTH_FIXED_AUTHENTICATOR_LEN + le_at(value, 52, 4) + chain_length(
            value,
            X509_ROOT_AUTH_FIXED_AUTHENTICATOR_LEN + le_at(value, 52, 4),
            le_at(value, 56, 4),
        ) == value.len(),
        (authenticator(value)->Ok_0).signature.len() == le_at(value, 48, 4),
        le_at(value, 48, 4) <= le_at(value, 52, 4),
{
    lemma_chain_end(
        value,
        X509_ROOT_AUTH_FIXED_AUTHENTICATOR_LEN + le_at(value, 52, 4),
        le_at(value, 56, 4),
    );
}

/// The number that eight bytes spell as a signed number in two's complement, the lowest
/// byte first.
pub open spec fn signed_long_at(value: Seq<u8>, at: int) -> int {
    let unsigned = word_at(value, at) + 0x1_0000_0000 * word_at(value, at + 4);
    if value[at + 7] < 128 {
        unsigned
    } else {
        unsigned - 0x1_0000_0000_0000_0000
    }
}

/// An accepted authenticator begins with `TZXC`, version one and scheme one. It tells the
/// time, the digest of the chain and the signature at the places that the format gives to
/// them, and what is left of the room for the signature is zero.
pub proof fn law_fields_lie_where_the_format_puts_them(value: Seq<u8>, parts: AuthenticatorView)
    requires
        authenticator(value) == Ok::<AuthenticatorView, Seq<char>>(parts),
    ensures
        value.len() >= 60,
        value[0] == 0x54 && value[1] == 0x5a && value[2] == 0x58 && value[3] == 0x43,
        value[4] == 1 && value[5] == 0 && value[6] == 1 && value[7] == 0,
        parts.signed_at == signed_long_at(value, 8),
        parts.chain_digest == value.subrange(16, 48),
        parts.signature.len() == word_at(value, 48),
        60 + word_at(value, 48) <= 60 + word_at(value, 52) <= value.len(),
        parts.signature == value.subrange(60, 60 + word_at(value, 48)),
        forall|k: int|
            60 + word_at(value, 48) <= k < 60 + word_at(value, 52) ==> #[trigger] value[k] == 0,
{
    law_half_words_are_little_endian(value, 4);
    law_half_words_are_little_endian(value, 6);
    law_long_words_are_two_words(value, 8);
    law_words_are_little_endian(value, 8);
    law_words_are_little_endian(value, 12);
    law_words_are_little_endian(value, 48);
    law_words_are_little_endian(value, 52);
    let head = value.take(4);
    let magic = seq![84u8, 90, 88, 67];
    assert(head[0] == value[0] && head[1] == value[1] && head[2] == value[2] && head[3] == value[3]);
    assert(magic[0] == 84 && magic[1] == 90 && magic[2] == 88 && magic[3] == 67);
    let room = value.subrange(60 + word_at(value, 48), 60 + word_at(value, 52));
    assert forall|k: int|
        60 + word_at(value, 48) <= k < 60 + word_at(value, 52) implies #[trigger] value[k] == 0 by {
        assert(room[k - 60 - word_at(value, 48)] == value[k]);
    }
}

/// What is laid out as the format says is accepted: an authenticator without further
/// certificates or with one, with a signature that fits into the room that is left for it.
pub proof fn law_well_formed_authenticators_are_accepted(value: Seq<u8>)
    requires
        value.len() >= 60,
        value.len() <= usize::MAX,
        value[0] == 0x54 && value[1] == 0x5a && value[2] == 0x58 && value[3] == 0x43,
        value[4] == 1 && value[5] == 0 && value[6] == 1 && value[7] == 0,
        word_at(value, 48) <= word_at(value, 52),
        word_at(value, 56) == 0 && value.len() == 60 + word_at(value, 52) || word_at(value, 56) == 1
            && value.len() >= 64 + word_at(value, 52) && value.len() == 64 + word_at(value, 52)
            + word_at(value, 60 + word_at(value, 52)),
        forall|k: int|
            60 + word_at(value, 48) <= k < 60 + word_at(value, 52) ==> #[trigger] value[k] == 0,
    ensures
        authenticator(value) is Ok,
{
    law_half_words_are_little_endian(value, 4);
    law_half_words_are_little_endian(value, 6);
    law_words_are_little_endian(value, 48);
    law_words_are_little_endian(value, 52);
    law_words_are_little_endian(value, 56);
    assert(value.take(4) =~= seq![84u8, 90, 88, 67]);
    reveal_with_fuel(chain_end, 2);
    if word_at(value, 56) == 1 {
        law_words_are_little_endian(value, 60 + word_at(value, 52));
    }
    let room = value.subrange(60 + word_at(value, 48), 60 + word_at(value, 52));
    assert forall|k: int| 0 <= k < room.len() implies #[trigger] room[k] == 0 by {
        assert(room[k] == value[60 + word_at(value, 48) + k]);
    }
}

} // verus!
