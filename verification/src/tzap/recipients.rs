//! Recipients: whom the key of a new archive is wrapped for, and the material
//! that signs it.
use crate::failure::IoFailure;
#[allow(unused_imports)]
use crate::failure::IoFailureView;
use crate::text::{concat2, concat5, contains_nul};
#[allow(unused_imports)]
use crate::tzap::certificate::{is_certificate_fault, stands_for};
use crate::tzap::certificate::synthetic_recipient_certificate_der;
use crate::tzap::create::{TzapCreateOptions, TzapKeySource, WriterPlan};
use crate::tzap::error::{
    TzapError, io_failed, oversized_message, root_auth_error, writer_unsupported,
};
#[allow(unused_imports)]
use crate::tzap::error::{FormatFaultView, TzapFault, oversized_text};
use crate::tzap::inventory::{copy_byte_strings, copy_bytes};
#[allow(unused_imports)]
use crate::tzap::inventory::byte_strings;
use crate::tzap::keys::{WrapOutcome, key_wrap_outcome_error, random_16_bytes};
#[allow(unused_imports)]
use crate::tzap::keys::{outcome_fault, random_answer};
use crate::tzap::root_auth::{
    CertificateFile, ClockReading, current_unix_seconds_i64, load_x509_certificate_files,
    read_certificates,
};
#[allow(unused_imports)]
use crate::tzap::root_auth::{
    Parsed, certificate_list_result, certificates_of, clock_time, file_answer, files_answer,
    parsed_view,
};
use vstd::prelude::*;

verus! {

/// The one certificate that a recipient's file has to hold, given what was made
/// of the file.
pub open spec fn one_certificate(
    label: Seq<char>,
    path: Seq<char>,
    bytes: Result<Seq<u8>, IoFailureView>,
    parsed: Parsed,
) -> Result<Seq<u8>, TzapFault> {
    match (bytes, parsed) {
        (Err(failure), _) => Err(TzapFault::Io { path, source: failure }),
        (Ok(_), Err(message)) => Err(
            TzapFault::KeyWrap(
                "failed to parse "@ + label + " "@ + path + (": "@ + message),
            ),
        ),
        (Ok(_), Ok(list)) => if list.len() == 1 {
            Ok(list[0])
        } else {
            Err(TzapFault::KeyWrap(label + " must contain exactly one X.509 certificate"@))
        },
    }
}

/// Bytes and an error taken by their views.
pub open spec fn bytes_result(r: Result<Vec<u8>, TzapError>) -> Result<Seq<u8>, TzapFault> {
    match r {
        Ok(bytes) => Ok(bytes@),
        Err(e) => Err(e@),
    }
}

/// Takes the one certificate that a recipient's file has to hold.
pub fn single_certificate(
    label: &str,
    path: &str,
    bytes: &Result<Vec<u8>, IoFailure>,
    parsed: Result<Vec<Vec<u8>>, String>,
) -> (certificate: Result<Vec<u8>, TzapError>)
    ensures
        bytes_result(certificate) == one_certificate(
            label@,
            path@,
            crate::codec::data_view(*bytes),
            parsed_view(parsed),
        ),
{
    match bytes {
        Err(failure) => {
            return Err(io_failed(path, failure));
        },
        Ok(_) => {},
    }
    match parsed {
        Err(message) => {
            let reason: String = concat2(": ", message.as_str());
            Err(TzapError::KeyWrap(concat5("failed to parse ", label, " ", path, reason.as_str())))
        },
        Ok(list) => {
            assert(byte_strings(list@).len() == list@.len());
            if list.len() == 1 {
                assert(byte_strings(list@)[0] == list@[0]@);
                Ok(copy_bytes(&list[0]))
            } else {
                Err(
                    TzapError::KeyWrap(
                        concat2(label, " must contain exactly one X.509 certificate"),
                    ),
                )
            }
        },
    }
}

/// Reads the one certificate that a recipient's file has to hold.
pub fn load_single_x509_certificate_file(label: &str, file: &CertificateFile) -> (certificate:
    Result<Vec<u8>, TzapError>)
    ensures
        exists|parsed: Parsed|
            file_answer(*file, parsed) && bytes_result(certificate) == #[trigger] one_certificate(
                label@,
                file.path@,
                crate::codec::data_view(file.bytes),
                parsed,
            ),
{
    let parsed: Result<Vec<Vec<u8>>, String> = match &file.bytes {
        Ok(bytes) => read_certificates(bytes),
        Err(_) => Err(String::new()),
    };
    let ghost seen = parsed_view(parsed);
    let certificate: Result<Vec<u8>, TzapError> = single_certificate(
        label,
        file.path.as_str(),
        &file.bytes,
        parsed,
    );
    assert(bytes_result(certificate) == one_certificate(
        label@,
        file.path@,
        crate::codec::data_view(file.bytes),
        seen,
    ));
    certificate
}

/// What signs an archive.
#[derive(Debug, PartialEq, Eq)]
pub struct SigningParts {
    /// The signer's certificate.
    pub leaf: Vec<u8>,
    /// The signer's private key.
    pub private_key: Vec<u8>,
    /// The certificates between the signer's and the root.
    pub chain: Vec<Vec<u8>>,
}

/// What signs an archive, with its bytes taken as sequences.
pub struct SigningPartsView {
    pub leaf: Seq<u8>,
    pub private_key: Seq<u8>,
    pub chain: Seq<Seq<u8>>,
}

impl View for SigningParts {
    type V = SigningPartsView;

    open spec fn view(&self) -> SigningPartsView {
        SigningPartsView {
            leaf: self.leaf@,
            private_key: self.private_key@,
            chain: byte_strings(self.chain@),
        }
    }
}

/// Signing material and an error taken by their views.
pub open spec fn signing_result(r: Result<SigningParts, TzapError>) -> Result<
    SigningPartsView,
    TzapFault,
> {
    match r {
        Ok(parts) => Ok(parts@),
        Err(e) => Err(e@),
    }
}

/// The signing material of a certificate file, a key file and the certificates of
/// the chain files. The first certificate of the certificate file is the
/// signer's, the others of it begin the chain.
pub open spec fn signing_files(
    certificate_path: Seq<char>,
    certificate: Result<Seq<u8>, IoFailureView>,
    parsed: Parsed,
    key_path: Seq<char>,
    key: Result<Seq<u8>, IoFailureView>,
    chain: Result<Seq<Seq<u8>>, TzapFault>,
) -> Result<SigningPartsView, TzapFault> {
    match (certificate, parsed, key, chain) {
        (Err(failure), _, _, _) => Err(TzapFault::Io { path: certificate_path, source: failure }),
        (_, Err(message), _, _) => Err(TzapFault::X509RootAuth(message)),
        (_, _, Err(failure), _) => Err(TzapFault::Io { path: key_path, source: failure }),
        (_, _, _, Err(fault)) => Err(fault),
        (_, Ok(list), Ok(private_key), Ok(more)) => Ok(
            SigningPartsView { leaf: list[0], private_key, chain: list.skip(1) + more },
        ),
    }
}

/// Puts the signing material together from what the files hold.
pub fn settle_signing_files(
    certificate: &CertificateFile,
    parsed: Result<Vec<Vec<u8>>, String>,
    key: &CertificateFile,
    chain: Result<Vec<Vec<u8>>, TzapError>,
) -> (parts: Result<SigningParts, TzapError>)
    requires
        parsed matches Ok(list) ==> list@.len() > 0,
    ensures
        signing_result(parts) == signing_files(
            certificate.path@,
            crate::codec::data_view(certificate.bytes),
            parsed_view(parsed),
            key.path@,
            crate::codec::data_view(key.bytes),
            certificate_list_result(chain),
        ),
{
    match &certificate.bytes {
        Ok(_) => {},
        Err(failure) => {
            return Err(io_failed(certificate.path.as_str(), failure));
        },
    }
    let list: Vec<Vec<u8>> = match parsed {
        Ok(list) => list,
        Err(message) => {
            return Err(TzapError::X509RootAuth(message));
        },
    };
    let private_key: Vec<u8> = match &key.bytes {
        Ok(bytes) => copy_bytes(bytes),
        Err(failure) => {
            return Err(io_failed(key.path.as_str(), failure));
        },
    };
    let more: Vec<Vec<u8>> = match chain {
        Ok(more) => more,
        Err(e) => {
            return Err(e);
        },
    };
    let ghost all = byte_strings(list@);
    let ghost added = byte_strings(more@);
    let leaf: Vec<u8> = copy_bytes(&list[0]);
    assert(leaf@ == all[0]);
    let mut joined: Vec<Vec<u8>> = Vec::new();
    let mut i: usize = 1;
    assert(byte_strings(joined@) =~= all.subrange(1, 1));
    while i < list.len()
        invariant
            1 <= i <= list@.len(),
            all == byte_strings(list@),
            byte_strings(joined@) == all.subrange(1, i as int),
        decreases list@.len() - i,
    {
        let ghost before = joined@;
        let item: Vec<u8> = copy_bytes(&list[i]);
        joined.push(item);
        assert(byte_strings(joined@) =~= byte_strings(before).push(item@));
        assert(all.subrange(1, i + 1) =~= all.subrange(1, i as int).push(all[i as int]));
        i = i + 1;
    }
    assert(all.subrange(1, list@.len() as int) =~= all.skip(1));
    let mut j: usize = 0;
    assert(all.skip(1) + added.take(0) =~= all.skip(1));
    while j < more.len()
        invariant
            j <= more@.len(),
            added == byte_strings(more@),
            byte_strings(joined@) == all.skip(1) + added.take(j as int),
        decreases more@.len() - j,
    {
        let ghost before = joined@;
        let item: Vec<u8> = copy_bytes(&more[j]);
        joined.push(item);
        assert(byte_strings(joined@) =~= byte_strings(before).push(item@));
        assert(all.skip(1) + added.take(j + 1) =~= (all.skip(1) + added.take(j as int)).push(
            added[j as int],
        ));
        j = j + 1;
    }
    assert(added.take(more@.len() as int) =~= added);
    Ok(SigningParts { leaf, private_key, chain: joined })
}

/// Puts the signing material together from certificate and key files.
pub fn load_x509_signer_from_certificate_files(
    certificate: &CertificateFile,
    key: &CertificateFile,
    chain_files: &Vec<CertificateFile>,
) -> (parts: Result<SigningParts, TzapError>)
    ensures
        exists|parsed: Parsed, chain: Seq<Parsed>|
            file_answer(*certificate, parsed) && files_answer(chain_files@, chain)
                && signing_result(parts) == #[trigger] signing_files(
                certificate.path@,
                crate::codec::data_view(certificate.bytes),
                parsed,
                key.path@,
                crate::codec::data_view(key.bytes),
                certificates_of(chain_files@, chain),
            ),
{
    let parsed: Result<Vec<Vec<u8>>, String> = match &certificate.bytes {
        Ok(bytes) => read_certificates(bytes),
        Err(_) => Err(String::new()),
    };
    let chain: Result<Vec<Vec<u8>>, TzapError> = load_x509_certificate_files(chain_files);
    let ghost seen = parsed_view(parsed);
    let ghost files = choose|files: Seq<Parsed>|
        files_answer(chain_files@, files) && certificate_list_result(chain)
            == #[trigger] certificates_of(chain_files@, files);
    let parts: Result<SigningParts, TzapError> = settle_signing_files(
        certificate,
        parsed,
        key,
        chain,
    );
    assert(signing_result(parts) == signing_files(
        certificate.path@,
        crate::codec::data_view(certificate.bytes),
        seen,
        key.path@,
        crate::codec::data_view(key.bytes),
        certificates_of(chain_files@, files),
    ));
    parts
}

/// What a PKCS#12 identity holds, as far as it could be written as DER.
pub struct Pkcs12Parts {
    pub certificate: Option<Result<Vec<u8>, String>>,
    pub private_key: Option<Result<Vec<u8>, String>>,
    pub chain: Vec<Result<Vec<u8>, String>>,
}

/// Whether `openssl::pkcs12::Pkcs12Ref::parse2` can find this in an identity file.
pub uninterp spec fn pkcs12_answer(
    identity: Seq<u8>,
    password: Seq<char>,
    parts: Result<Pkcs12Parts, String>,
) -> bool;

/// Calls `openssl::pkcs12::Pkcs12Ref::parse2` on an identity file and writes what
/// it holds as DER. Claimed: the result answers for this file and this password.
/// What is accepted is for OpenSSL to say and is not stated. A password with a NUL
/// character, which no C string holds, must not be handed to it.
#[verifier::external_body]
pub(crate) fn parse_pkcs12(identity: &Vec<u8>, password: &str) -> (parts: Result<
    Pkcs12Parts,
    String,
>)
    requires
        !password@.contains('\0'),
    ensures
        pkcs12_answer(identity@, password@, parts),
{
    let pkcs12 = openssl::pkcs12::Pkcs12::from_der(identity).map_err(|e| e.to_string())?;
    let parsed = pkcs12.parse2(password).map_err(|e| e.to_string())?;
    let chain = parsed.ca.iter().flatten().map(|c| c.to_der().map_err(|e| e.to_string())).collect();
    Ok(Pkcs12Parts {
        certificate: parsed.cert.map(|c| c.to_der().map_err(|e| e.to_string())),
        private_key: parsed.pkey.map(|k| k.private_key_to_der().map_err(|e| e.to_string())),
        chain,
    })
}

/// The first certificate of a chain that could not be written, or the length of
/// the chain.
pub open spec fn first_unwritten(chain: Seq<Result<Vec<u8>, String>>) -> int
    decreases chain.len(),
{
    if chain.len() == 0 {
        0
    } else {
        let earlier = first_unwritten(chain.drop_last());
        if earlier < chain.len() - 1 || chain.last() is Err {
            earlier
        } else {
            chain.len() as int
        }
    }
}

/// The certificates of a chain that could all be written.
pub open spec fn written(chain: Seq<Result<Vec<u8>, String>>) -> Seq<Seq<u8>> {
    chain.map_values(|c: Result<Vec<u8>, String>| (c->Ok_0)@)
}

/// The signing material of a PKCS#12 identity.
pub open spec fn signing_identity(
    path: Seq<char>,
    bytes: Result<Seq<u8>, IoFailureView>,
    parsed: Result<Pkcs12Parts, String>,
) -> Result<SigningPartsView, TzapFault> {
    match (bytes, parsed) {
        (Err(failure), _) => Err(TzapFault::Io { path, source: failure }),
        (Ok(_), Err(message)) => Err(TzapFault::X509RootAuth(message@)),
        (Ok(_), Ok(parts)) => match (parts.certificate, parts.private_key) {
            (None, _) => Err(TzapFault::X509RootAuth("PKCS#12 identity has no certificate"@)),
            (_, None) => Err(TzapFault::X509RootAuth("PKCS#12 identity has no private key"@)),
            (Some(certificate), Some(private_key)) => {
                let at = first_unwritten(parts.chain@);
                if at < parts.chain@.len() {
                    Err(TzapFault::X509RootAuth((parts.chain@[at]->Err_0)@))
                } else {
                    match (certificate, private_key) {
                        (Err(message), _) => Err(TzapFault::X509RootAuth(message@)),
                        (_, Err(message)) => Err(TzapFault::X509RootAuth(message@)),
                        (Ok(leaf), Ok(private_key)) => Ok(
                            SigningPartsView {
                                leaf: leaf@,
                                private_key: private_key@,
                                chain: written(parts.chain@),
                            },
                        ),
                    }
                }
            },
        },
    }
}

proof fn lemma_unwritten(chain: Seq<Result<Vec<u8>, String>>, at: int)
    requires
        0 <= at < chain.len(),
        first_unwritten(chain.take(at)) == at,
        chain[at] is Err,
    ensures
        first_unwritten(chain) == at,
    decreases chain.len(),
{
    if at == chain.len() - 1 {
        assert(chain.drop_last() =~= chain.take(at));
    } else {
        assert(chain.drop_last().take(at) =~= chain.take(at));
        lemma_unwritten(chain.drop_last(), at);
    }
}

fn write_chain(chain: &Vec<Result<Vec<u8>, String>>) -> (list: Result<Vec<Vec<u8>>, String>)
    ensures
        match list {
            Ok(list) => first_unwritten(chain@) == chain@.len() && byte_strings(list@) == written(
                chain@,
            ),
            Err(message) => first_unwritten(chain@) < chain@.len() && (chain@[first_unwritten(
                chain@,
            )]->Err_0)@ == message@,
        },
{
    let ghost wanted = written(chain@);
    let mut list: Vec<Vec<u8>> = Vec::new();
    let mut i: usize = 0;
    assert(byte_strings(list@) =~= wanted.take(0));
    while i < chain.len()
        invariant
            i <= chain@.len(),
            wanted == written(chain@),
            first_unwritten(chain@.take(i as int)) == i,
            byte_strings(list@) == wanted.take(i as int),
        decreases chain@.len() - i,
    {
        assert(chain@.take(i + 1).drop_last() =~= chain@.take(i as int));
        match &chain[i] {
            Ok(der) => {
                let ghost before = list@;
                let item: Vec<u8> = copy_bytes(der);
                list.push(item);
                assert(byte_strings(list@) =~= byte_strings(before).push(item@));
                assert(wanted.take(i + 1) =~= wanted.take(i as int).push(wanted[i as int]));
            },
            Err(message) => {
                proof {
                    lemma_unwritten(chain@, i as int);
                }
                return Err(message.clone());
            },
        }
        i = i + 1;
    }
    assert(chain@.take(chain@.len() as int) =~= chain@);
    assert(wanted.take(chain@.len() as int) =~= wanted);
    Ok(list)
}

/// Takes the signing material from what a PKCS#12 identity holds.
pub fn settle_signing_identity(
    identity: &CertificateFile,
    parsed: &Result<Pkcs12Parts, String>,
) -> (parts: Result<SigningParts, TzapError>)
    ensures
        signing_result(parts) == signing_identity(
            identity.path@,
            crate::codec::data_view(identity.bytes),
            *parsed,
        ),
{
    match &identity.bytes {
        Ok(_) => {},
        Err(failure) => {
            return Err(io_failed(identity.path.as_str(), failure));
        },
    }
    let parts: &Pkcs12Parts = match parsed {
        Ok(parts) => parts,
        Err(message) => {
            return Err(root_auth_error(message.as_str()));
        },
    };
    let certificate: &Result<Vec<u8>, String> = match &parts.certificate {
        Some(certificate) => certificate,
        None => {
            return Err(root_auth_error("PKCS#12 identity has no certificate"));
        },
    };
    let private_key: &Result<Vec<u8>, String> = match &parts.private_key {
        Some(key) => key,
        None => {
            return Err(root_auth_error("PKCS#12 identity has no private key"));
        },
    };
    let chain: Vec<Vec<u8>> = match write_chain(&parts.chain) {
        Ok(chain) => chain,
        Err(message) => {
            return Err(TzapError::X509RootAuth(message));
        },
    };
    match certificate {
        Err(message) => Err(root_auth_error(message.as_str())),
        Ok(leaf) => match private_key {
            Err(message) => Err(root_auth_error(message.as_str())),
            Ok(key) => Ok(
                SigningParts { leaf: copy_bytes(leaf), private_key: copy_bytes(key), chain },
            ),
        },
    }
}

/// Why a password with a NUL character opens no identity.
pub open spec fn nul_password_text() -> Seq<char> {
    "PKCS#12 password contains a NUL character"@
}

/// Whether `parsed` is what is said of an identity file, if it could be read: by
/// OpenSSL, unless the password has a NUL character.
pub open spec fn identity_answer(
    identity: CertificateFile,
    password: Seq<char>,
    parsed: Result<Pkcs12Parts, String>,
) -> bool {
    identity.bytes matches Ok(bytes) ==> if password.contains('\0') {
        parsed matches Err(message) && message@ == nul_password_text()
    } else {
        pkcs12_answer(bytes@, password, parsed)
    }
}

/// Takes the signing material from a PKCS#12 identity. A password with a NUL
/// character is refused.
pub fn load_x509_signer_from_pkcs12(identity: &CertificateFile, password: &str) -> (parts: Result<
    SigningParts,
    TzapError,
>)
    ensures
        exists|parsed: Result<Pkcs12Parts, String>|
            identity_answer(*identity, password@, parsed) && signing_result(parts)
                == #[trigger] signing_identity(
                identity.path@,
                crate::codec::data_view(identity.bytes),
                parsed,
            ),
{
    let parsed: Result<Pkcs12Parts, String> = match &identity.bytes {
        Ok(bytes) => if contains_nul(password) {
            Err("PKCS#12 password contains a NUL character".to_owned())
        } else {
            parse_pkcs12(bytes, password)
        },
        Err(_) => Err(String::new()),
    };
    let parts: Result<SigningParts, TzapError> = settle_signing_identity(identity, &parsed);
    assert(signing_result(parts) == signing_identity(
        identity.path@,
        crate::codec::data_view(identity.bytes),
        parsed,
    ));
    parts
}

/// What signs an archive, in the plugin's own form.
#[verifier::external_type_specification]
#[verifier::external_body]
pub struct ExX509RootAuthSigner(tzap_plugin_signing::x509_chain::X509RootAuthSigner);

/// Whether `tzap_plugin_signing::x509_chain::X509RootAuthSigner::from_pem_or_der`
/// can make a signer of some material, or refuse it for this reason.
pub uninterp spec fn signer_answer(
    parts: SigningPartsView,
    signed_at: i64,
    made: Result<(), Seq<char>>,
) -> bool;

/// What making a signer came to, apart from the signer itself.
pub open spec fn made_result<T>(r: Result<T, String>) -> Result<(), Seq<char>> {
    match r {
        Ok(_) => Ok(()),
        Err(message) => Err(message@),
    }
}

/// The material and the time that a signer was made of.
pub uninterp spec fn signer_made(
    signer: tzap_plugin_signing::x509_chain::X509RootAuthSigner,
) -> (SigningPartsView, i64);

/// Calls `tzap_plugin_signing::x509_chain::X509RootAuthSigner::from_pem_or_der`.
/// Claimed: the result answers for this material and this time, and a signer was
/// made of both. Whether the key fits the certificate is for OpenSSL to say and is
/// not stated. Neither the certificate nor the key may be longer than C can count.
#[verifier::external_body]
fn make_signer(parts: &SigningParts, signed_at: i64) -> (signer: Result<
    tzap_plugin_signing::x509_chain::X509RootAuthSigner,
    String,
>)
    requires
        parts.leaf@.len() <= i32::MAX,
        parts.private_key@.len() <= i32::MAX,
    ensures
        signer_answer(parts@, signed_at, made_result(signer)),
        signer matches Ok(s) ==> signer_made(s) == (parts@, signed_at),
{
    tzap_plugin_signing::x509_chain::X509RootAuthSigner::from_pem_or_der(
        &parts.leaf,
        &parts.private_key,
        parts.chain.clone(),
        signed_at,
    ).map_err(|e| e.to_string())
}

/// Whether `made` is what comes of making a signer of some material. Material that is too
/// long for OpenSSL is not shown to it.
pub open spec fn signer_said(
    parts: SigningPartsView,
    signed_at: i64,
    made: Result<(), Seq<char>>,
) -> bool {
    if parts.leaf.len() > i32::MAX || parts.private_key.len() > i32::MAX {
        made == Err::<(), Seq<char>>(oversized_text())
    } else {
        signer_answer(parts, signed_at, made)
    }
}

fn try_signer(parts: &SigningParts, signed_at: i64) -> (signer: Result<
    tzap_plugin_signing::x509_chain::X509RootAuthSigner,
    String,
>)
    ensures
        signer_said(parts@, signed_at, made_result(signer)),
        signer matches Ok(s) ==> signer_made(s) == (parts@, signed_at),
{
    if parts.leaf.len() > i32::MAX as usize || parts.private_key.len() > i32::MAX as usize {
        Err(oversized_message())
    } else {
        make_signer(parts, signed_at)
    }
}

/// Where the signing material comes from, with what reading its files came to.
pub enum SigningSource {
    /// A PKCS#12 identity.
    Pkcs12 { identity: CertificateFile, password: String },
    /// A certificate, a key, and more certificates of the chain.
    CertificateAndKey {
        certificate: CertificateFile,
        private_key: CertificateFile,
        chain: Vec<CertificateFile>,
    },
    /// Material that is there already.
    InMemory { parts: SigningParts },
}

/// Whether signing material is what a source gives, with what OpenSSL makes of its
/// files.
pub open spec fn comes_from(
    source: SigningSource,
    parts: Result<SigningPartsView, TzapFault>,
) -> bool {
    match source {
        SigningSource::Pkcs12 { identity, password } => exists|parsed: Result<Pkcs12Parts, String>|
            identity_answer(identity, password@, parsed) && parts == #[trigger] signing_identity(
                identity.path@,
                crate::codec::data_view(identity.bytes),
                parsed,
            ),
        SigningSource::CertificateAndKey { certificate, private_key, chain } => exists|
            parsed: Parsed,
            more: Seq<Parsed>,
        |
            file_answer(certificate, parsed) && files_answer(chain@, more) && parts
                == #[trigger] signing_files(
                certificate.path@,
                crate::codec::data_view(certificate.bytes),
                parsed,
                private_key.path@,
                crate::codec::data_view(private_key.bytes),
                certificates_of(chain@, more),
            ),
        SigningSource::InMemory { parts: given } => parts == Ok::<SigningPartsView, TzapFault>(
            given@,
        ),
    }
}

/// The signing material of a source.
pub fn load_signing_parts(source: &SigningSource) -> (parts: Result<SigningParts, TzapError>)
    ensures
        comes_from(*source, signing_result(parts)),
{
    match source {
        SigningSource::Pkcs12 { identity, password } => load_x509_signer_from_pkcs12(
            identity,
            password.as_str(),
        ),
        SigningSource::CertificateAndKey { certificate, private_key, chain } => {
            load_x509_signer_from_certificate_files(certificate, private_key, chain)
        },
        SigningSource::InMemory { parts } => Ok(
            SigningParts {
                leaf: copy_bytes(&parts.leaf),
                private_key: copy_bytes(&parts.private_key),
                chain: copy_byte_strings(&parts.chain),
            },
        ),
    }
}

/// What making a signer came to, given its material, the clock, and what the
/// plugin said of them.
pub open spec fn signer_fault(
    parts: Result<SigningPartsView, TzapFault>,
    time: Result<i64, TzapFault>,
    made: Result<(), Seq<char>>,
) -> Option<TzapFault> {
    match (parts, time, made) {
        (Err(fault), _, _) => Some(fault),
        (Ok(_), Err(fault), _) => Some(fault),
        (Ok(_), Ok(_), Err(message)) => Some(TzapFault::X509RootAuth(message)),
        (Ok(_), Ok(_), Ok(_)) => None,
    }
}

/// Whether a signer of a source can be made at a time, or `fault` says why not.
pub open spec fn signer_outcome(
    source: SigningSource,
    clock: ClockReading,
    fault: Option<TzapFault>,
) -> bool {
    exists|parts: Result<SigningPartsView, TzapFault>, made: Result<(), Seq<char>>|
        comes_from(source, parts) && (clock_time(clock) matches Ok(time) ==> (parts matches Ok(
            known,
        ) ==> signer_said(known, time, made))) && fault == #[trigger] signer_fault(
            parts,
            clock_time(clock),
            made,
        )
}

/// Whether a signer was made of the material of a source, at a time.
pub open spec fn is_signer_of(
    signer: tzap_plugin_signing::x509_chain::X509RootAuthSigner,
    source: SigningSource,
    clock: ClockReading,
) -> bool {
    comes_from(source, Ok(signer_made(signer).0)) && clock_time(clock) == Ok::<i64, TzapFault>(
        signer_made(signer).1,
    )
}

/// Makes the signer of a new archive.
pub fn load_x509_signer(source: &SigningSource, clock: &ClockReading) -> (signer: Result<
    tzap_plugin_signing::x509_chain::X509RootAuthSigner,
    TzapError,
>)
    ensures
        signer_outcome(
            *source,
            *clock,
            match signer {
                Ok(_) => None,
                Err(e) => Some(e@),
            },
        ),
        signer matches Ok(s) ==> is_signer_of(s, *source, *clock),
{
    let parts: Result<SigningParts, TzapError> = load_signing_parts(source);
    let ghost seen = signing_result(parts);
    let known: SigningParts = match parts {
        Ok(parts) => parts,
        Err(e) => {
            assert(Some(e@) == signer_fault(seen, clock_time(*clock), Ok(())));
            return Err(e);
        },
    };
    let signed_at: i64 = match current_unix_seconds_i64(clock) {
        Ok(signed_at) => signed_at,
        Err(e) => {
            assert(Some(e@) == signer_fault(seen, clock_time(*clock), Ok(())));
            return Err(e);
        },
    };
    match try_signer(&known, signed_at) {
        Ok(signer) => {
            assert(None::<TzapFault> == signer_fault(seen, clock_time(*clock), Ok(())));
            Ok(signer)
        },
        Err(message) => {
            assert(Some(TzapFault::X509RootAuth(message@)) == signer_fault(
                seen,
                clock_time(*clock),
                Err(message@),
            ));
            Err(TzapError::X509RootAuth(message))
        },
    }
}

/// Which archive a key is wrapped for.
#[derive(Clone, Copy, Debug, PartialEq, Eq)]
pub struct KeyWrapArchiveIdentity {
    pub archive_uuid: [u8; 16],
    pub session_id: [u8; 16],
    pub format_version: u16,
    pub volume_format_rev: u16,
}

/// The format version of new archives.
pub const FORMAT_VERSION: u16 = 1;

/// The volume format revision of new archives.
pub const VOLUME_FORMAT_REV: u16 = 45;

/// The identity that the key of a new archive is wrapped for. Identifiers that
/// were not chosen yet are drawn now and kept in the plan.
pub fn recipient_wrap_archive_identity_for_writer(plan: &mut WriterPlan) -> (identity:
    KeyWrapArchiveIdentity)
    ensures
        final(plan).archive_uuid == Some(identity.archive_uuid),
        final(plan).session_id == Some(identity.session_id),
        old(plan).archive_uuid is Some ==> final(plan).archive_uuid == old(plan).archive_uuid,
        old(plan).session_id is Some ==> final(plan).session_id == old(plan).session_id,
        old(plan).archive_uuid is None ==> random_answer(16, identity.archive_uuid@),
        old(plan).session_id is None ==> random_answer(16, identity.session_id@),
        identity.format_version == FORMAT_VERSION,
        identity.volume_format_rev == VOLUME_FORMAT_REV,
        final(plan).same_settings(*old(plan)),
{
    let archive_uuid: [u8; 16] = match plan.archive_uuid {
        Some(id) => id,
        None => random_16_bytes(),
    };
    let session_id: [u8; 16] = match plan.session_id {
        Some(id) => id,
        None => random_16_bytes(),
    };
    plan.archive_uuid = Some(archive_uuid);
    plan.session_id = Some(session_id);
    KeyWrapArchiveIdentity {
        archive_uuid,
        session_id,
        format_version: FORMAT_VERSION,
        volume_format_rev: VOLUME_FORMAT_REV,
    }
}

/// The number of the profile of wrapped keys.
pub const KEYWRAP_PROFILE_ID: u16 = 1;

/// The number that says that a recipient is named by a DER certificate.
pub const KEYWRAP_RECIPIENT_IDENTITY_TYPE: u16 = 2;

/// A key wrapped for one recipient.
#[derive(Debug, PartialEq, Eq)]
pub struct RecipientRecord {
    pub profile_id: u16,
    pub recipient_identity_type: u16,
    pub recipient_identity_digest: [u8; 32],
    pub recipient_identity_bytes: Vec<u8>,
    pub profile_payload_bytes: Vec<u8>,
}

/// The ways to wrap a key, in the order in which they are tried.
#[derive(Clone, Copy, Debug, PartialEq, Eq, Structural)]
pub enum KeyWrapSuite {
    X25519HkdfSha256ChaCha20Poly1305,
    P256HkdfSha256Aes256Gcm,
}

/// What the key wrapping plugin says of a record.
#[verifier::external_type_specification]
#[verifier::external_body]
pub struct ExKeyWrapOutcome(tzap_plugin_keywrap::KeyWrapOutcome);

/// The variant of an outcome, with the key that came out, if one did.
pub uninterp spec fn outcome_variant(outcome: tzap_plugin_keywrap::KeyWrapOutcome) -> WrapOutcome;

/// Tells the variants of `tzap_plugin_keywrap::KeyWrapOutcome` apart. Claimed: the
/// result is the variant of the outcome, with its key, if it has one.
#[verifier::external_body]
pub(crate) fn own_outcome(outcome: tzap_plugin_keywrap::KeyWrapOutcome) -> (own: WrapOutcome)
    ensures
        own == outcome_variant(outcome),
{
    match outcome {
        tzap_plugin_keywrap::KeyWrapOutcome::UnsupportedProfileId => WrapOutcome::UnsupportedProfileId,
        tzap_plugin_keywrap::KeyWrapOutcome::UnsupportedArchiveIdentity => WrapOutcome::UnsupportedArchiveIdentity,
        tzap_plugin_keywrap::KeyWrapOutcome::UnsupportedRecipientIdentity => WrapOutcome::UnsupportedRecipientIdentity,
        tzap_plugin_keywrap::KeyWrapOutcome::UnsupportedSuite => WrapOutcome::UnsupportedSuite,
        tzap_plugin_keywrap::KeyWrapOutcome::CertificatePolicyRejected => WrapOutcome::CertificatePolicyRejected,
        tzap_plugin_keywrap::KeyWrapOutcome::InvalidRecord => WrapOutcome::InvalidRecord,
        tzap_plugin_keywrap::KeyWrapOutcome::NoMatchingPrivateKey => WrapOutcome::NoMatchingPrivateKey,
        tzap_plugin_keywrap::KeyWrapOutcome::UnwrappedCandidateMasterKey { master_key, .. } => {
            WrapOutcome::UnwrappedCandidateMasterKey { master_key }
        }
    }
}

/// Whether an archive is of the format that keys are wrapped for.
pub open spec fn is_known_format(identity: KeyWrapArchiveIdentity) -> bool {
    identity.format_version == FORMAT_VERSION && identity.volume_format_rev == VOLUME_FORMAT_REV
}

/// Whether `tzap_plugin_keywrap::wrap_master_key_for_recipient` can make this
/// record.
pub uninterp spec fn wrap_answer(
    identity: KeyWrapArchiveIdentity,
    certificate: Seq<u8>,
    master_key: Seq<u8>,
    suite: KeyWrapSuite,
    record: RecipientRecord,
) -> bool;

/// Whether `tzap_plugin_keywrap::wrap_master_key_for_recipient` can refuse with this
/// outcome.
pub uninterp spec fn wrap_refusal(
    identity: KeyWrapArchiveIdentity,
    certificate: Seq<u8>,
    master_key: Seq<u8>,
    suite: KeyWrapSuite,
    outcome: WrapOutcome,
) -> bool;

/// Calls `tzap_plugin_keywrap::wrap_master_key_for_recipient`. Claimed: a record, or
/// the outcome of a refusal, answers for these arguments; a record carries the
/// certificate that it was made for and the numbers of the profile; and an archive of
/// another format is refused for that. The wrapped key is random, and what
/// certificates are accepted is for OpenSSL to say, so nothing more is stated.
#[verifier::external_body]
pub(crate) fn wrap_for_recipient(
    identity: &KeyWrapArchiveIdentity,
    certificate: &Vec<u8>,
    master_key: &[u8; 32],
    suite: KeyWrapSuite,
) -> (record: Result<RecipientRecord, tzap_plugin_keywrap::KeyWrapOutcome>)
    ensures
        match record {
            Ok(r) => {
                &&& wrap_answer(*identity, certificate@, master_key@, suite, r)
                &&& r.profile_id == KEYWRAP_PROFILE_ID
                &&& r.recipient_identity_type == KEYWRAP_RECIPIENT_IDENTITY_TYPE
                &&& r.recipient_identity_bytes@ == certificate@
                &&& is_known_format(*identity)
            },
            Err(outcome) => {
                &&& wrap_refusal(
                    *identity,
                    certificate@,
                    master_key@,
                    suite,
                    outcome_variant(outcome),
                )
                &&& !is_known_format(*identity) ==> outcome_variant(outcome)
                    == WrapOutcome::UnsupportedArchiveIdentity
            },
        },
{
    let identity = tzap_plugin_keywrap::ArchiveIdentity {
        archive_uuid: identity.archive_uuid, session_id: identity.session_id,
        format_version: identity.format_version, volume_format_rev: identity.volume_format_rev,
    };
    let suite = match suite {
        KeyWrapSuite::X25519HkdfSha256ChaCha20Poly1305 => tzap_plugin_keywrap::KeyWrapSuite::X25519HkdfSha256ChaCha20Poly1305,
        KeyWrapSuite::P256HkdfSha256Aes256Gcm => tzap_plugin_keywrap::KeyWrapSuite::P256HkdfSha256Aes256Gcm,
    };
    tzap_plugin_keywrap::wrap_master_key_for_recipient(identity, certificate, master_key, suite).map(|r| RecipientRecord {
        profile_id: r.profile_id, recipient_identity_type: r.recipient_identity_type,
        recipient_identity_digest: r.recipient_identity_digest, recipient_identity_bytes: r.recipient_identity_bytes,
        profile_payload_bytes: r.profile_payload_bytes,
    })
}

/// Whether an outcome leaves hope for the next way to wrap a key.
pub open spec fn retries(outcome: WrapOutcome) -> bool {
    outcome is InvalidRecord || outcome is UnsupportedSuite
}

/// Whether an outcome leaves hope for the next way to wrap a key.
pub fn may_retry(outcome: &WrapOutcome) -> (r: bool)
    ensures
        r == retries(*outcome),
{
    match outcome {
        WrapOutcome::InvalidRecord => true,
        WrapOutcome::UnsupportedSuite => true,
        _ => false,
    }
}

/// What wrapping a key comes to, given what each way came to. The first way that
/// works wins, and only an unsuitable one is passed over.
pub open spec fn wrapped(
    first: Result<RecipientRecord, WrapOutcome>,
    second: Result<RecipientRecord, WrapOutcome>,
) -> Result<RecipientRecord, TzapFault> {
    match (first, second) {
        (Ok(record), _) => Ok(record),
        (Err(outcome), _) if !retries(outcome) => Err(outcome_fault(outcome)),
        (Err(_), Ok(record)) => Ok(record),
        (Err(_), Err(outcome)) => if retries(outcome) {
            Err(
                TzapFault::Format(
                    FormatFaultView::WriterUnsupported(
                        "recipient certificate is not supported by keywrap-v1 suites"@,
                    ),
                ),
            )
        } else {
            Err(outcome_fault(outcome))
        },
    }
}

/// A record and an error taken by its view.
pub open spec fn record_result(r: Result<RecipientRecord, TzapError>) -> Result<
    RecipientRecord,
    TzapFault,
> {
    match r {
        Ok(record) => Ok(record),
        Err(e) => Err(e@),
    }
}

/// Settles what wrapping a key comes to.
pub fn settle_wrapped(
    first: Result<RecipientRecord, WrapOutcome>,
    second: Result<RecipientRecord, WrapOutcome>,
) -> (record: Result<RecipientRecord, TzapError>)
    ensures
        record_result(record) == wrapped(first, second),
{
    match first {
        Ok(record) => Ok(record),
        Err(outcome) => {
            if !may_retry(&outcome) {
                return Err(key_wrap_outcome_error(&outcome));
            }
            match second {
                Ok(record) => Ok(record),
                Err(outcome) => {
                    if !may_retry(&outcome) {
                        return Err(key_wrap_outcome_error(&outcome));
                    }
                    Err(
                        writer_unsupported(
                            "recipient certificate is not supported by keywrap-v1 suites",
                        ),
                    )
                },
            }
        },
    }
}

/// Whether wrapping a key in one way can come to `outcome`. A record names its
/// recipient by the certificate.
pub open spec fn suite_answer(
    identity: KeyWrapArchiveIdentity,
    certificate: Seq<u8>,
    master_key: Seq<u8>,
    suite: KeyWrapSuite,
    outcome: Result<RecipientRecord, WrapOutcome>,
) -> bool {
    match outcome {
        Ok(record) => {
            &&& wrap_answer(identity, certificate, master_key, suite, record)
            &&& record.profile_id == KEYWRAP_PROFILE_ID
            &&& record.recipient_identity_type == KEYWRAP_RECIPIENT_IDENTITY_TYPE
            &&& record.recipient_identity_bytes@ == certificate
            &&& is_known_format(identity)
        },
        Err(refusal) => {
            &&& wrap_refusal(identity, certificate, master_key, suite, refusal)
            &&& !is_known_format(identity) ==> refusal == WrapOutcome::UnsupportedArchiveIdentity
        },
    }
}

/// Whether wrapping a key for the holder of a certificate can come to `record`: the
/// second way is tried where the first is unsuitable.
pub open spec fn wraps_for(
    record: Result<RecipientRecord, TzapFault>,
    certificate: Seq<u8>,
    master_key: Seq<u8>,
    identity: KeyWrapArchiveIdentity,
) -> bool {
    exists|
        first: Result<RecipientRecord, WrapOutcome>,
        second: Result<RecipientRecord, WrapOutcome>,
    |
        suite_answer(
            identity,
            certificate,
            master_key,
            KeyWrapSuite::X25519HkdfSha256ChaCha20Poly1305,
            first,
        ) && ((first is Err && retries(first->Err_0)) ==> suite_answer(
            identity,
            certificate,
            master_key,
            KeyWrapSuite::P256HkdfSha256Aes256Gcm,
            second,
        )) && record == #[trigger] wrapped(first, second)
}

fn wrap_with(
    identity: &KeyWrapArchiveIdentity,
    certificate: &Vec<u8>,
    master_key: &[u8; 32],
    suite: KeyWrapSuite,
) -> (record: Result<RecipientRecord, WrapOutcome>)
    ensures
        suite_answer(*identity, certificate@, master_key@, suite, record),
{
    match wrap_for_recipient(identity, certificate, master_key, suite) {
        Ok(record) => Ok(record),
        Err(outcome) => Err(own_outcome(outcome)),
    }
}

/// Wraps the key of an archive for the holder of a certificate.
pub fn build_recipient_wrap_record_from_certificate_der(
    certificate: &Vec<u8>,
    master_key: &[u8; 32],
    identity: &KeyWrapArchiveIdentity,
) -> (record: Result<RecipientRecord, TzapError>)
    ensures
        wraps_for(record_result(record), certificate@, master_key@, *identity),
        record matches Ok(r) ==> r.recipient_identity_bytes@ == certificate@,
{
    let first: Result<RecipientRecord, WrapOutcome> = wrap_with(
        identity,
        certificate,
        master_key,
        KeyWrapSuite::X25519HkdfSha256ChaCha20Poly1305,
    );
    let retry: bool = match &first {
        Ok(_) => false,
        Err(outcome) => may_retry(outcome),
    };
    let second: Result<RecipientRecord, WrapOutcome> = if retry {
        wrap_with(identity, certificate, master_key, KeyWrapSuite::P256HkdfSha256Aes256Gcm)
    } else {
        Err(WrapOutcome::InvalidRecord)
    };
    let record: Result<RecipientRecord, TzapError> = settle_wrapped(first, second);
    assert(record_result(record) == wrapped(first, second));
    record
}

/// Why recipients cannot be addressed with some options, if they cannot.
pub open spec fn recipient_options_fault(options: TzapCreateOptions) -> Option<TzapFault> {
    if options.volume_size is Some || (options.volume_count matches Some(count) && count > 1)
        || options.volume_loss_tolerance != 0 {
        Some(
            TzapFault::Format(
                FormatFaultView::WriterUnsupported(
                    "recipient certificate encryption is currently supported only for single-volume TZAP create"@,
                ),
            ),
        )
    } else {
        None
    }
}

/// Checks that recipients can be addressed with some options.
pub fn validate_recipient_wrap_create_options(options: &TzapCreateOptions) -> (r: Result<
    (),
    TzapError,
>)
    ensures
        match r {
            Ok(_) => recipient_options_fault(*options) is None,
            Err(e) => recipient_options_fault(*options) == Some(e@),
        },
{
    let sized: bool = match options.volume_size {
        Some(_) => true,
        None => false,
    };
    let split: bool = match options.volume_count {
        Some(count) => count > 1,
        None => false,
    };
    if sized || split || options.volume_loss_tolerance != 0 {
        return Err(
            writer_unsupported(
                "recipient certificate encryption is currently supported only for single-volume TZAP create",
            ),
        );
    }
    Ok(())
}

/// How many recipients an archive is made for; `None` where its key is not
/// wrapped.
pub open spec fn recipient_count(source: TzapKeySource) -> Option<nat> {
    match source {
        TzapKeySource::RecipientCertificate(_) => Some(1),
        TzapKeySource::RecipientCertificates(list) => Some(list@.len()),
        TzapKeySource::RecipientPublicKeys(list) => Some(list@.len()),
        _ => None,
    }
}

/// Why the key of a new archive cannot be wrapped, whoever the recipients are.
pub open spec fn recipients_fault(options: TzapCreateOptions) -> Option<TzapFault> {
    if recipient_count(options.key_source) is None {
        None
    } else if recipient_options_fault(options) is Some {
        recipient_options_fault(options)
    } else if recipient_count(options.key_source) == Some(0nat) {
        Some(
            TzapFault::KeyWrap(
                if options.key_source is RecipientCertificates {
                    "at least one recipient certificate is required"@
                } else {
                    "at least one recipient public key is required"@
                },
            ),
        )
    } else {
        None
    }
}

/// Checks that the key of a new archive can be wrapped for its recipients.
pub fn check_recipients(options: &TzapCreateOptions) -> (r: Result<(), TzapError>)
    ensures
        match r {
            Ok(_) => recipients_fault(*options) is None,
            Err(e) => recipients_fault(*options) == Some(e@),
        },
{
    match &options.key_source {
        TzapKeySource::RecipientCertificate(_) => validate_recipient_wrap_create_options(options),
        TzapKeySource::RecipientCertificates(list) => {
            match validate_recipient_wrap_create_options(options) {
                Ok(_) => {},
                Err(e) => {
                    return Err(e);
                },
            }
            if list.len() == 0 {
                return Err(
                    TzapError::KeyWrap("at least one recipient certificate is required".to_owned()),
                );
            }
            Ok(())
        },
        TzapKeySource::RecipientPublicKeys(list) => {
            match validate_recipient_wrap_create_options(options) {
                Ok(_) => {},
                Err(e) => {
                    return Err(e);
                },
            }
            if list.len() == 0 {
                return Err(
                    TzapError::KeyWrap("at least one recipient public key is required".to_owned()),
                );
            }
            Ok(())
        },
        _ => Ok(()),
    }
}

/// Whether wrapping a key for the certificate in a file can come to `record`.
pub open spec fn wraps_for_file(
    record: Result<RecipientRecord, TzapFault>,
    file: CertificateFile,
    master_key: Seq<u8>,
    identity: KeyWrapArchiveIdentity,
) -> bool {
    exists|parsed: Parsed|
        file_answer(file, parsed) && match #[trigger] one_certificate(
            "recipient certificate"@,
            file.path@,
            crate::codec::data_view(file.bytes),
            parsed,
        ) {
            Ok(certificate) => wraps_for(record, certificate, master_key, identity),
            Err(fault) => record == Err::<RecipientRecord, TzapFault>(fault),
        }
}

/// Wraps the key of a new archive for one recipient's certificate file.
pub fn build_recipient_wrap_record_from_certificate_path(
    file: &CertificateFile,
    master_key: &[u8; 32],
    identity: &KeyWrapArchiveIdentity,
) -> (record: Result<RecipientRecord, TzapError>)
    ensures
        wraps_for_file(record_result(record), *file, master_key@, *identity),
{
    match load_single_x509_certificate_file("recipient certificate", file) {
        Ok(certificate) => build_recipient_wrap_record_from_certificate_der(
            &certificate,
            master_key,
            identity,
        ),
        Err(e) => Err(e),
    }
}

/// Whether the records are those of the first files of a list, in order.
pub open spec fn made_for_files(
    records: Seq<RecipientRecord>,
    files: Seq<CertificateFile>,
    master_key: Seq<u8>,
    identity: KeyWrapArchiveIdentity,
) -> bool {
    records.len() <= files.len() && forall|k: int|
        0 <= k < records.len() ==> wraps_for_file(
            Ok(#[trigger] records[k]),
            files[k],
            master_key,
            identity,
        )
}

/// Whether wrapping a key for each file of a list comes to `outcome`. The first file
/// that fails decides.
pub open spec fn wraps_for_files(
    outcome: Result<Seq<RecipientRecord>, TzapFault>,
    files: Seq<CertificateFile>,
    master_key: Seq<u8>,
    identity: KeyWrapArchiveIdentity,
) -> bool {
    match outcome {
        Ok(records) => records.len() == files.len() && made_for_files(
            records,
            files,
            master_key,
            identity,
        ),
        Err(fault) => exists|before: Seq<RecipientRecord>| #[trigger]
            made_for_files(before, files, master_key, identity) && before.len() < files.len()
                && wraps_for_file(
                Err(fault),
                files[before.len() as int],
                master_key,
                identity,
            ),
    }
}

/// Records and an error taken by their views.
pub open spec fn records_result(r: Result<Vec<RecipientRecord>, TzapError>) -> Result<
    Seq<RecipientRecord>,
    TzapFault,
> {
    match r {
        Ok(records) => Ok(records@),
        Err(e) => Err(e@),
    }
}

fn wrap_for_files(
    files: &Vec<CertificateFile>,
    master_key: &[u8; 32],
    identity: &KeyWrapArchiveIdentity,
) -> (records: Result<Vec<RecipientRecord>, TzapError>)
    ensures
        wraps_for_files(records_result(records), files@, master_key@, *identity),
{
    let mut records: Vec<RecipientRecord> = Vec::new();
    let mut i: usize = 0;
    while i < files.len()
        invariant
            i <= files@.len(),
            records@.len() == i,
            made_for_files(records@, files@, master_key@, *identity),
        decreases files@.len() - i,
    {
        match build_recipient_wrap_record_from_certificate_path(&files[i], master_key, identity) {
            Ok(record) => records.push(record),
            Err(e) => {
                assert(made_for_files(records@, files@, master_key@, *identity));
                return Err(e);
            },
        }
        i = i + 1;
    }
    Ok(records)
}

/// Whether wrapping a key for the holder of a public key can come to `record`: the
/// public key is put into a certificate, or `record` says why it could not be.
pub open spec fn wraps_for_key(
    record: Result<RecipientRecord, TzapFault>,
    public_key: Seq<u8>,
    master_key: Seq<u8>,
    identity: KeyWrapArchiveIdentity,
) -> bool {
    (exists|certificate: Seq<u8>|
        stands_for(certificate, public_key) && #[trigger] wraps_for(
            record,
            certificate,
            master_key,
            identity,
        )) || (record matches Err(fault) && is_certificate_fault(
        public_key,
        fault,
    ))
}

/// Whether the records are those of the first public keys of a list, in order.
pub open spec fn made_for_keys(
    records: Seq<RecipientRecord>,
    keys: Seq<Vec<u8>>,
    master_key: Seq<u8>,
    identity: KeyWrapArchiveIdentity,
) -> bool {
    records.len() <= keys.len() && forall|k: int|
        0 <= k < records.len() ==> wraps_for_key(
            Ok(#[trigger] records[k]),
            keys[k]@,
            master_key,
            identity,
        )
}

/// Whether wrapping a key for each public key of a list comes to `outcome`. The first
/// one that fails decides.
pub open spec fn wraps_for_keys(
    outcome: Result<Seq<RecipientRecord>, TzapFault>,
    keys: Seq<Vec<u8>>,
    master_key: Seq<u8>,
    identity: KeyWrapArchiveIdentity,
) -> bool {
    match outcome {
        Ok(records) => records.len() == keys.len() && made_for_keys(
            records,
            keys,
            master_key,
            identity,
        ),
        Err(fault) => exists|before: Seq<RecipientRecord>| #[trigger]
            made_for_keys(before, keys, master_key, identity) && before.len() < keys.len()
                && wraps_for_key(
                Err(fault),
                keys[before.len() as int]@,
                master_key,
                identity,
            ),
    }
}

fn wrap_for_keys(
    keys: &Vec<Vec<u8>>,
    master_key: &[u8; 32],
    identity: &KeyWrapArchiveIdentity,
) -> (records: Result<Vec<RecipientRecord>, TzapError>)
    ensures
        wraps_for_keys(records_result(records), keys@, master_key@, *identity),
{
    let mut records: Vec<RecipientRecord> = Vec::new();
    let mut i: usize = 0;
    while i < keys.len()
        invariant
            i <= keys@.len(),
            records@.len() == i,
            made_for_keys(records@, keys@, master_key@, *identity),
        decreases keys@.len() - i,
    {
        let certificate: Vec<u8> = match synthetic_recipient_certificate_der(keys[i].as_slice()) {
            Ok(certificate) => certificate,
            Err(e) => {
                assert(made_for_keys(records@, keys@, master_key@, *identity));
                return Err(e);
            },
        };
        let outcome: Result<RecipientRecord, TzapError> =
            build_recipient_wrap_record_from_certificate_der(&certificate, master_key, identity);
        assert(wraps_for(record_result(outcome), certificate@, master_key@, *identity));
        match outcome {
            Ok(record) => records.push(record),
            Err(e) => {
                assert(made_for_keys(records@, keys@, master_key@, *identity));
                return Err(e);
            },
        }
        i = i + 1;
    }
    Ok(records)
}

/// The identity that the key of an archive is wrapped for.
pub open spec fn identity_of(plan: WriterPlan) -> KeyWrapArchiveIdentity {
    KeyWrapArchiveIdentity {
        archive_uuid: plan.archive_uuid->0,
        session_id: plan.session_id->0,
        format_version: FORMAT_VERSION,
        volume_format_rev: VOLUME_FORMAT_REV,
    }
}

/// Whether wrapping the key of a new archive for its recipients comes to `records`.
/// `plan` is the plan with its identifiers, and `files` are the certificate files
/// that the options name.
pub open spec fn wraps_for_recipients(
    records: Result<Option<Vec<RecipientRecord>>, TzapError>,
    options: TzapCreateOptions,
    master_key: Seq<u8>,
    plan: WriterPlan,
    files: Seq<CertificateFile>,
) -> bool {
    let outcome: Result<Seq<RecipientRecord>, TzapFault> = match records {
        Ok(Some(list)) => Ok(list@),
        Ok(None) => Ok(Seq::empty()),
        Err(e) => Err(e@),
    };
    if recipients_fault(options) is Some {
        outcome == Err::<Seq<RecipientRecord>, TzapFault>(recipients_fault(options)->0)
    } else if recipient_count(options.key_source) is None {
        records == Ok::<Option<Vec<RecipientRecord>>, TzapError>(None)
    } else {
        &&& records != Ok::<Option<Vec<RecipientRecord>>, TzapError>(None)
        &&& plan.archive_uuid is Some
        &&& plan.session_id is Some
        &&& match options.key_source {
            TzapKeySource::RecipientPublicKeys(keys) => wraps_for_keys(
                outcome,
                keys@,
                master_key,
                identity_of(plan),
            ),
            _ => wraps_for_files(outcome, files, master_key, identity_of(plan)),
        }
    }
}

/// Wraps the key of a new archive for its recipients, or for nobody where a
/// passphrase or nothing protects it. `files` are the certificate files that the
/// options name.
pub fn build_recipient_records(
    options: &TzapCreateOptions,
    master_key: &[u8; 32],
    plan: &mut WriterPlan,
    files: &Vec<CertificateFile>,
) -> (records: Result<Option<Vec<RecipientRecord>>, TzapError>)
    ensures
        wraps_for_recipients(records, *options, master_key@, *final(plan), files@),
        recipient_count(options.key_source) is None || recipients_fault(*options) is Some
            ==> *final(plan) == *old(plan),
        old(plan).archive_uuid is Some ==> final(plan).archive_uuid == old(plan).archive_uuid,
        old(plan).session_id is Some ==> final(plan).session_id == old(plan).session_id,
        recipient_count(options.key_source) is Some && recipients_fault(*options) is None ==> {
            &&& old(plan).archive_uuid is None ==> random_answer(
                16,
                (final(plan).archive_uuid->0)@,
            )
            &&& old(plan).session_id is None ==> random_answer(16, (final(plan).session_id->0)@)
        },
        final(plan).same_settings(*old(plan)),
{
    match check_recipients(options) {
        Ok(_) => {},
        Err(e) => {
            return Err(e);
        },
    }
    match &options.key_source {
        TzapKeySource::RecipientPublicKeys(keys) => {
            let identity: KeyWrapArchiveIdentity = recipient_wrap_archive_identity_for_writer(plan);
            match wrap_for_keys(keys, master_key, &identity) {
                Ok(records) => Ok(Some(records)),
                Err(e) => Err(e),
            }
        },
        TzapKeySource::RecipientCertificate(_) | TzapKeySource::RecipientCertificates(_) => {
            let identity: KeyWrapArchiveIdentity = recipient_wrap_archive_identity_for_writer(plan);
            match wrap_for_files(files, master_key, &identity) {
                Ok(records) => Ok(Some(records)),
                Err(e) => Err(e),
            }
        },
        _ => Ok(None),
    }
}

proof fn lemma_record_names_certificate(
    record: RecipientRecord,
    certificate: Seq<u8>,
    master_key: Seq<u8>,
    identity: KeyWrapArchiveIdentity,
)
    requires
        wraps_for(Ok(record), certificate, master_key, identity),
    ensures
        record.recipient_identity_bytes@ == certificate,
        record.profile_id == KEYWRAP_PROFILE_ID,
{
}

/// Whether a record names its recipient by the one certificate that a file holds.
pub open spec fn names_certificate_of(record: RecipientRecord, file: CertificateFile) -> bool {
    exists|parsed: Parsed|
        file_answer(file, parsed) && #[trigger] one_certificate(
            "recipient certificate"@,
            file.path@,
            crate::codec::data_view(file.bytes),
            parsed,
        ) == Ok::<Seq<u8>, TzapFault>(record.recipient_identity_bytes@)
}

/// A key that is wrapped for certificate files is wrapped for each of them, in order:
/// every record names the one certificate that its file holds.
pub proof fn law_every_recipient_gets_a_record(
    records: Seq<RecipientRecord>,
    files: Seq<CertificateFile>,
    master_key: Seq<u8>,
    identity: KeyWrapArchiveIdentity,
)
    requires
        wraps_for_files(Ok(records), files, master_key, identity),
    ensures
        records.len() == files.len(),
        forall|k: int|
            0 <= k < records.len() ==> names_certificate_of(#[trigger] records[k], files[k]),
{
    assert forall|k: int| 0 <= k < records.len() implies names_certificate_of(
        #[trigger] records[k],
        files[k],
    ) by {
        let record = records[k];
        assert(wraps_for_file(Ok(record), files[k], master_key, identity));
        let parsed = choose|parsed: Parsed|
            file_answer(files[k], parsed) && match #[trigger] one_certificate(
                "recipient certificate"@,
                files[k].path@,
                crate::codec::data_view(files[k].bytes),
                parsed,
            ) {
                Ok(certificate) => wraps_for(Ok(record), certificate, master_key, identity),
                Err(fault) => Ok::<RecipientRecord, TzapFault>(record) == Err::<
                    RecipientRecord,
                    TzapFault,
                >(fault),
            };
        let found = one_certificate(
            "recipient certificate"@,
            files[k].path@,
            crate::codec::data_view(files[k].bytes),
            parsed,
        );
        lemma_record_names_certificate(record, found->Ok_0, master_key, identity);
    }
}

/// A file names a certificate only where it holds exactly one, and then it is that one.
pub proof fn law_certificate_files_hold_exactly_one(
    label: Seq<char>,
    path: Seq<char>,
    bytes: Seq<u8>,
    list: Seq<Seq<u8>>,
)
    ensures
        one_certificate(label, path, Ok(bytes), Ok(list)) is Ok <==> list.len() == 1,
        list.len() == 1 ==> one_certificate(label, path, Ok(bytes), Ok(list)) == Ok::<
            Seq<u8>,
            TzapFault,
        >(list[0]),
        forall|message: Seq<char>| #[trigger]
            one_certificate(label, path, Ok(bytes), Err(message)) is Err,
        forall|failure: IoFailureView, parsed: Parsed| #[trigger]
            one_certificate(label, path, Err(failure), parsed) == Err::<Seq<u8>, TzapFault>(
                TzapFault::Io { path, source: failure },
            ),
{
}

/// An archive is signed with the first certificate of the file; the others of that file
/// and those of the further files are its chain, in order.
pub proof fn law_the_first_certificate_signs(
    certificate_path: Seq<char>,
    certificate: Seq<u8>,
    leaf: Seq<u8>,
    others: Seq<Seq<u8>>,
    key_path: Seq<char>,
    private_key: Seq<u8>,
    further: Seq<Seq<u8>>,
)
    ensures
        signing_files(
            certificate_path,
            Ok(certificate),
            Ok(seq![leaf] + others),
            key_path,
            Ok(private_key),
            Ok(further),
        ) == Ok::<SigningPartsView, TzapFault>(
            SigningPartsView { leaf, private_key, chain: others + further },
        ),
{
    assert((seq![leaf] + others).skip(1) =~= others);
}

proof fn lemma_first_unwritten_counts(chain: Seq<Result<Vec<u8>, String>>)
    ensures
        0 <= first_unwritten(chain) <= chain.len(),
        first_unwritten(chain) == chain.len() <==> forall|k: int|
            0 <= k < chain.len() ==> (#[trigger] chain[k]) is Ok,
    decreases chain.len(),
{
    if chain.len() > 0 {
        let shorter = chain.drop_last();
        lemma_first_unwritten_counts(shorter);
        assert forall|k: int| 0 <= k < shorter.len() implies #[trigger] shorter[k] == chain[k] by {}
        if forall|k: int| 0 <= k < chain.len() ==> (#[trigger] chain[k]) is Ok {
            assert(chain.last() == chain[chain.len() - 1]);
            assert forall|k: int| 0 <= k < shorter.len() implies (#[trigger] shorter[k]) is Ok by {
                assert(shorter[k] == chain[k]);
            }
        } else if first_unwritten(chain) == chain.len() {
            assert forall|k: int| 0 <= k < chain.len() implies (#[trigger] chain[k]) is Ok by {
                if k < shorter.len() {
                    assert(shorter[k] == chain[k]);
                }
            }
        }
    }
}

/// An identity signs only where it holds a certificate, a key and a chain that can all be
/// written, and it signs with these.
pub proof fn law_identities_sign_with_what_they_hold(
    path: Seq<char>,
    bytes: Seq<u8>,
    parts: Pkcs12Parts,
)
    ensures
        signing_identity(path, Ok(bytes), Ok(parts)) is Ok <==> {
            &&& parts.certificate matches Some(Ok(_))
            &&& parts.private_key matches Some(Ok(_))
            &&& forall|k: int| 0 <= k < parts.chain@.len() ==> (#[trigger] parts.chain@[k]) is Ok
        },
        signing_identity(path, Ok(bytes), Ok(parts)) matches Ok(material) ==> {
            &&& material.leaf == ((parts.certificate->0)->Ok_0)@
            &&& material.private_key == ((parts.private_key->0)->Ok_0)@
            &&& material.chain.len() == parts.chain@.len()
            &&& forall|k: int|
                0 <= k < material.chain.len() ==> #[trigger] material.chain[k] == (
                parts.chain@[k]->Ok_0)@
        },
{
    lemma_first_unwritten_counts(parts.chain@);
}

/// An archive is signed at the time that the clock tells, with the material of its
/// source.
pub proof fn law_signers_sign_at_the_time_of_the_clock(
    signer: tzap_plugin_signing::x509_chain::X509RootAuthSigner,
    parts: SigningParts,
    seconds: u64,
)
    requires
        is_signer_of(signer, SigningSource::InMemory { parts }, Ok(seconds)),
    ensures
        signer_made(signer).1 == seconds,
        signer_made(signer).0.leaf == parts.leaf@,
        signer_made(signer).0.private_key == parts.private_key@,
        signer_made(signer).0.chain == byte_strings(parts.chain@),
{
}

/// A recipient whose key the first suite does not take is tried with the second, and with
/// none where the first failed for another reason.
pub proof fn law_the_second_suite_is_tried_where_the_first_does_not_fit(
    first: Result<RecipientRecord, WrapOutcome>,
    second: Result<RecipientRecord, WrapOutcome>,
)
    ensures
        first matches Ok(record) ==> wrapped(first, second) == Ok::<RecipientRecord, TzapFault>(
            record,
        ),
        first matches Err(outcome) ==> ((outcome is InvalidRecord || outcome is UnsupportedSuite)
            ==> (wrapped(first, second) is Ok <==> second is Ok)),
        first matches Err(outcome) ==> ((outcome is InvalidRecord || outcome is UnsupportedSuite)
            && second is Ok ==> wrapped(first, second) == Ok::<RecipientRecord, TzapFault>(
            second->Ok_0,
        )),
        first matches Err(outcome) ==> (!(outcome is InvalidRecord)
            && !(outcome is UnsupportedSuite) ==> wrapped(first, second) == Err::<
            RecipientRecord,
            TzapFault,
        >(outcome_fault(outcome))),
{
}

/// A record wraps the key of the archive for the certificate that it carries, by one of
/// the two suites, for an archive of the known format.
pub proof fn law_records_wrap_the_key_of_the_archive(
    record: RecipientRecord,
    certificate: Seq<u8>,
    master_key: Seq<u8>,
    identity: KeyWrapArchiveIdentity,
)
    requires
        wraps_for(Ok(record), certificate, master_key, identity),
    ensures
        wrap_answer(
            identity,
            certificate,
            master_key,
            KeyWrapSuite::X25519HkdfSha256ChaCha20Poly1305,
            record,
        ) || wrap_answer(
            identity,
            certificate,
            master_key,
            KeyWrapSuite::P256HkdfSha256Aes256Gcm,
            record,
        ),
        record.profile_id == 1,
        record.recipient_identity_type == 2,
        record.recipient_identity_bytes@ == certificate,
        identity.format_version == 1,
        identity.volume_format_rev == 45,
{
    let (first, second) = choose|
        first: Result<RecipientRecord, WrapOutcome>,
        second: Result<RecipientRecord, WrapOutcome>,
    |
        suite_answer(
            identity,
            certificate,
            master_key,
            KeyWrapSuite::X25519HkdfSha256ChaCha20Poly1305,
            first,
        ) && ((first is Err && retries(first->Err_0)) ==> suite_answer(
            identity,
            certificate,
            master_key,
            KeyWrapSuite::P256HkdfSha256Aes256Gcm,
            second,
        )) && Ok::<RecipientRecord, TzapFault>(record) == #[trigger] wrapped(first, second);
    assert(first == Ok::<RecipientRecord, WrapOutcome>(record) || second == Ok::<
        RecipientRecord,
        WrapOutcome,
    >(record));
}

/// Only an archive in one volume, without recovery volumes, can be made for recipients,
/// and only for at least one.
pub proof fn law_archives_for_recipients_are_single_volumes(options: TzapCreateOptions)
    ensures
        recipients_fault(options) is None <==> {
            ||| !(options.key_source is RecipientCertificate)
                && !(options.key_source is RecipientCertificates)
                && !(options.key_source is RecipientPublicKeys)
            ||| {
                &&& options.volume_size is None
                &&& options.volume_count matches Some(count) ==> count <= 1
                &&& options.volume_loss_tolerance == 0
                &&& options.key_source matches TzapKeySource::RecipientCertificates(list)
                    ==> list@.len() > 0
                &&& options.key_source matches TzapKeySource::RecipientPublicKeys(list)
                    ==> list@.len() > 0
            }
        },
{
}

/// Every recipient who is named by a key gets a record of their own, for a certificate
/// that stands for that key; an archive for nobody gets no records.
pub proof fn law_every_recipient_key_gets_a_record(
    records: Option<Vec<RecipientRecord>>,
    options: TzapCreateOptions,
    master_key: Seq<u8>,
    plan: WriterPlan,
    files: Seq<CertificateFile>,
)
    requires
        wraps_for_recipients(Ok(records), options, master_key, plan, files),
    ensures
        records is None <==> !(options.key_source is RecipientCertificate)
            && !(options.key_source is RecipientCertificates)
            && !(options.key_source is RecipientPublicKeys),
        records is Some ==> plan.archive_uuid is Some && plan.session_id is Some,
        records matches Some(list) ==> (options.key_source matches TzapKeySource::RecipientPublicKeys(
            keys,
        ) ==> list@.len() == keys@.len() && forall|k: int|
            0 <= k < list@.len() ==> stands_for(
                (#[trigger] list@[k]).recipient_identity_bytes@,
                keys@[k]@,
            )),
        records matches Some(list) ==> (!(options.key_source is RecipientPublicKeys)
            ==> list@.len() == files.len() && forall|k: int|
            0 <= k < list@.len() ==> names_certificate_of(#[trigger] list@[k], files[k])),
{
    if let Some(list) = records {
        if let TzapKeySource::RecipientPublicKeys(keys) = options.key_source {
            assert forall|k: int| 0 <= k < list@.len() implies stands_for(
                (#[trigger] list@[k]).recipient_identity_bytes@,
                keys@[k]@,
            ) by {
                assert(wraps_for_key(Ok(list@[k]), keys@[k]@, master_key, identity_of(plan)));
                let certificate = choose|certificate: Seq<u8>|
                    stands_for(certificate, keys@[k]@) && #[trigger] wraps_for(
                        Ok(list@[k]),
                        certificate,
                        master_key,
                        identity_of(plan),
                    );
                lemma_record_names_certificate(
                    list@[k],
                    certificate,
                    master_key,
                    identity_of(plan),
                );
            }
        } else {
            law_every_recipient_gets_a_record(list@, files, master_key, identity_of(plan));
        }
    }
}

/// The records of an archive are made for that archive: its identifiers, the one format
/// that there is, and its key.
pub proof fn law_records_are_made_for_their_archive(plan: WriterPlan)
    ensures
        identity_of(plan).archive_uuid == plan.archive_uuid->0,
        identity_of(plan).session_id == plan.session_id->0,
        identity_of(plan).format_version == 1,
        identity_of(plan).volume_format_rev == 45,
{
}

} // verus!
