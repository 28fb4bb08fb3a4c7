//! The certificates that a device is enrolled with, and which one signs.
use crate::report::contains_text;
use crate::text::{concat2, same_text};
#[allow(unused_imports)]
use crate::text::texts;
use vstd::prelude::*;

verus! {

/// What the device knows of one of its certificates.
#[derive(Debug, PartialEq, Eq)]
pub enum TzapLocalCertificateState {
    /// The certificate may sign.
    Active,
    /// The certificate was revoked.
    Revoked,
    /// The certificate may not sign for another reason, which has this name.
    Inactive(String),
}

/// The name of a state.
pub open spec fn state_name(state: TzapLocalCertificateState) -> Seq<char> {
    match state {
        TzapLocalCertificateState::Active => "active"@,
        TzapLocalCertificateState::Revoked => "revoked"@,
        TzapLocalCertificateState::Inactive(name) => name@,
    }
}

impl TzapLocalCertificateState {
    /// The name of the state.
    pub fn as_str(&self) -> (name: &str)
        ensures
            name@ == state_name(*self),
    {
        match self {
            TzapLocalCertificateState::Active => "active",
            TzapLocalCertificateState::Revoked => "revoked",
            TzapLocalCertificateState::Inactive(name) => name.as_str(),
        }
    }
}

/// What the issuer last said of a certificate.
#[derive(Clone, Copy, Debug, PartialEq, Eq, Structural)]
pub enum TzapCertificateStatus {
    /// The certificate is good.
    Valid,
    /// The certificate is suspended.
    Suspended,
    /// The certificate is revoked.
    Revoked,
    /// The issuer does not know the certificate.
    Unknown,
}

/// One certificate that the device is enrolled with.
#[derive(Debug, PartialEq, Eq)]
pub struct TzapEnrolledCertificateRecord {
    /// The name of the certificate on the device.
    pub certificate_id: String,
    /// Fingerprint of the certificate.
    pub certificate_sha256: String,
    /// Fingerprint of the issuer's certificate.
    pub issuer_certificate_sha256: String,
    /// The certificate.
    pub leaf_certificate_der: Vec<u8>,
    /// The certificates between it and the root.
    pub intermediate_chain_der: Vec<Vec<u8>>,
    /// The first second at which it is valid.
    pub not_before_unix_seconds: u64,
    /// The first second at which it is valid no more.
    pub not_after_unix_seconds: u64,
    /// The key that signs with it.
    pub signing_key_id: String,
    /// Whether it may sign.
    pub state: TzapLocalCertificateState,
}

/// One signing key of the device.
#[derive(Debug, PartialEq, Eq)]
pub struct TzapDeviceSigningKey {
    /// The name of the key on the device.
    pub key_id: String,
    /// The private key.
    pub private_key_der: Vec<u8>,
}

/// Issuers that the device does not accept any more.
#[derive(Debug, PartialEq, Eq)]
pub struct TzapEmergencyBlocklistState {
    /// Fingerprints of blocked roots.
    pub blocked_root_sha256: Vec<String>,
    /// Fingerprints of blocked issuers.
    pub blocked_issuer_sha256: Vec<String>,
    /// When the list was made.
    pub updated_at_unix_seconds: Option<u64>,
}

/// What an issuer said of a certificate, and for how long that holds.
#[derive(Debug, PartialEq, Eq)]
pub struct TzapCertificateStatusCacheRecord {
    /// Fingerprint of the certificate.
    pub certificate_sha256: String,
    /// What was said.
    pub status: TzapCertificateStatus,
    /// When it was said.
    pub this_update_unix_seconds: u64,
    /// When it has to be asked again.
    pub next_update_unix_seconds: u64,
}

/// What the device holds for signing.
#[derive(Debug, PartialEq, Eq)]
pub struct TzapLocalIdentityInventory {
    pub device_signing_keys: Vec<TzapDeviceSigningKey>,
    pub enrolled_certificates: Vec<TzapEnrolledCertificateRecord>,
    pub emergency_blocklist: TzapEmergencyBlocklistState,
    pub certificate_status_cache: Vec<TzapCertificateStatusCacheRecord>,
}

impl TzapLocalIdentityInventory {
    /// An inventory of nothing.
    pub fn empty() -> (inventory: Self)
        ensures
            inventory.device_signing_keys@.len() == 0,
            inventory.enrolled_certificates@.len() == 0,
            inventory.emergency_blocklist.blocked_root_sha256@.len() == 0,
            inventory.emergency_blocklist.blocked_issuer_sha256@.len() == 0,
            inventory.emergency_blocklist.updated_at_unix_seconds is None,
            inventory.certificate_status_cache@.len() == 0,
    {
        TzapLocalIdentityInventory {
            device_signing_keys: Vec::new(),
            enrolled_certificates: Vec::new(),
            emergency_blocklist: TzapEmergencyBlocklistState {
                blocked_root_sha256: Vec::new(),
                blocked_issuer_sha256: Vec::new(),
                updated_at_unix_seconds: None,
            },
            certificate_status_cache: Vec::new(),
        }
    }
}

/// Where the key and the certificates for signing an archive come from.
#[derive(Debug, PartialEq, Eq)]
pub enum TzapX509SigningOptions {
    /// PKCS#12 signing identity containing the leaf certificate, private key,
    /// and optional intermediate certificates.
    Pkcs12 {
        /// PKCS#12 identity file path.
        identity: String,
        /// PKCS#12 import password.
        password: String,
    },
    /// Advanced PEM/DER signing inputs.
    CertificateAndKey {
        /// PEM or DER leaf signing certificate. PEM bundles may hold
        /// intermediate certificates after the leaf certificate.
        certificate_path: String,
        /// PEM or DER private key matching the leaf signing certificate.
        private_key_path: String,
        /// Optional PEM or DER intermediate certificates.
        chain_paths: Vec<String>,
    },
    /// Validated in-memory signing material resolved from a secure store.
    InMemory {
        /// Leaf signing certificate in PEM or DER form.
        signing_certificate: Vec<u8>,
        /// Matching private key.
        signing_private_key: Vec<u8>,
        /// Optional intermediate certificates in PEM or DER form.
        signing_chain: Vec<Vec<u8>>,
    },
}

/// What an archive's signature is checked against.
#[derive(Debug, PartialEq, Eq)]
pub struct TzapX509TrustOptions {
    /// PEM or DER trusted CA certificates.
    pub trusted_ca_certificates: Vec<String>,
    /// Allow OpenSSL's default system trust roots.
    pub trusted_system_roots: bool,
    /// Add the embedded official TZAP root certificates.
    pub include_official_tzap_root: bool,
}

impl TzapX509TrustOptions {
    /// Whether there is anything to check a signature against.
    pub open spec fn has_source(&self) -> bool {
        self.include_official_tzap_root || self.trusted_ca_certificates@.len() > 0
            || self.trusted_system_roots
    }

    /// Returns whether verification has any trust source to use.
    pub fn has_trust_source(&self) -> (r: bool)
        ensures
            r == self.has_source(),
    {
        self.include_official_tzap_root || self.trusted_ca_certificates.len() > 0
            || self.trusted_system_roots
    }
}

impl Default for TzapX509TrustOptions {
    fn default() -> (options: Self)
        ensures
            options.trusted_ca_certificates@.len() == 0,
            !options.trusted_system_roots,
            !options.include_official_tzap_root,
    {
        TzapX509TrustOptions {
            trusted_ca_certificates: Vec::new(),
            trusted_system_roots: false,
            include_official_tzap_root: false,
        }
    }
}

/// Whether the issuer of a certificate is blocked on this device.
pub open spec fn issuer_blocked(
    certificate: TzapEnrolledCertificateRecord,
    inventory: TzapLocalIdentityInventory,
) -> bool {
    texts(inventory.emergency_blocklist.blocked_issuer_sha256@).contains(
        certificate.issuer_certificate_sha256@,
    )
}

/// Whether something other than `Valid` is known of a certificate.
pub open spec fn status_blocks(
    certificate: TzapEnrolledCertificateRecord,
    inventory: TzapLocalIdentityInventory,
) -> bool {
    exists|k: int|
        0 <= k < inventory.certificate_status_cache@.len() && (
        #[trigger] inventory.certificate_status_cache@[k]).certificate_sha256@
            == certificate.certificate_sha256@
            && inventory.certificate_status_cache@[k].status != TzapCertificateStatus::Valid
}

/// Why a certificate may not sign at a time, if it may not.
pub open spec fn signing_obstacle(
    certificate: TzapEnrolledCertificateRecord,
    inventory: TzapLocalIdentityInventory,
    now: u64,
) -> Option<Seq<char>> {
    if certificate.state !is Active {
        Some("certificate is not active: "@ + state_name(certificate.state))
    } else if now < certificate.not_before_unix_seconds {
        Some("certificate is not yet valid"@)
    } else if now >= certificate.not_after_unix_seconds {
        Some("certificate is expired"@)
    } else if issuer_blocked(certificate, inventory) {
        Some("certificate issuer is locally blocked"@)
    } else if status_blocks(certificate, inventory) {
        Some("certificate status blocks signing"@)
    } else {
        None
    }
}

/// Whether a certificate may sign at a time.
pub open spec fn usable(
    certificate: TzapEnrolledCertificateRecord,
    inventory: TzapLocalIdentityInventory,
    now: u64,
) -> bool {
    signing_obstacle(certificate, inventory, now) is None
}

fn status_is_blocking(
    certificate: &TzapEnrolledCertificateRecord,
    inventory: &TzapLocalIdentityInventory,
) -> (r: bool)
    ensures
        r == status_blocks(*certificate, *inventory),
{
    let cache: &Vec<TzapCertificateStatusCacheRecord> = &inventory.certificate_status_cache;
    let mut i: usize = 0;
    while i < cache.len()
        invariant
            i <= cache@.len(),
            cache == inventory.certificate_status_cache,
            forall|k: int|
                0 <= k < i ==> !((#[trigger] cache@[k]).certificate_sha256@
                    == certificate.certificate_sha256@ && cache@[k].status
                    != TzapCertificateStatus::Valid),
        decreases cache@.len() - i,
    {
        let same: bool = same_text(
            cache[i].certificate_sha256.as_str(),
            certificate.certificate_sha256.as_str(),
        );
        if same && cache[i].status != TzapCertificateStatus::Valid {
            return true;
        }
        i = i + 1;
    }
    false
}

/// Why a certificate may not sign at a time, if it may not.
pub fn find_signing_obstacle(
    certificate: &TzapEnrolledCertificateRecord,
    inventory: &TzapLocalIdentityInventory,
    now_unix_seconds: u64,
) -> (reason: Option<String>)
    ensures
        match reason {
            Some(reason) => signing_obstacle(*certificate, *inventory, now_unix_seconds) == Some(
                reason@,
            ),
            None => signing_obstacle(*certificate, *inventory, now_unix_seconds) is None,
        },
{
    let active: bool = match &certificate.state {
        TzapLocalCertificateState::Active => true,
        _ => false,
    };
    if !active {
        return Some(concat2("certificate is not active: ", certificate.state.as_str()));
    }
    if now_unix_seconds < certificate.not_before_unix_seconds {
        return Some("certificate is not yet valid".to_owned());
    }
    if now_unix_seconds >= certificate.not_after_unix_seconds {
        return Some("certificate is expired".to_owned());
    }
    if contains_text(
        &inventory.emergency_blocklist.blocked_issuer_sha256,
        certificate.issuer_certificate_sha256.as_str(),
    ) {
        return Some("certificate issuer is locally blocked".to_owned());
    }
    if status_is_blocking(certificate, inventory) {
        return Some("certificate status blocks signing".to_owned());
    }
    None
}

/// Whether a certificate may sign at a time.
pub fn certificate_is_usable_for_signing(
    certificate: &TzapEnrolledCertificateRecord,
    inventory: &TzapLocalIdentityInventory,
    now_unix_seconds: u64,
) -> (r: bool)
    ensures
        r == usable(*certificate, *inventory, now_unix_seconds),
{
    match find_signing_obstacle(certificate, inventory, now_unix_seconds) {
        Some(_) => false,
        None => true,
    }
}

/// The first certificate of a list with the name `id`, or -1.
pub open spec fn certificate_position(
    list: Seq<TzapEnrolledCertificateRecord>,
    id: Seq<char>,
) -> int
    decreases list.len(),
{
    if list.len() == 0 {
        -1
    } else {
        let earlier = certificate_position(list.drop_last(), id);
        if earlier >= 0 {
            earlier
        } else if list.last().certificate_id@ == id {
            list.len() - 1
        } else {
            -1
        }
    }
}

/// The first signing key of a list with the name `id`, or -1.
pub open spec fn key_position(list: Seq<TzapDeviceSigningKey>, id: Seq<char>) -> int
    decreases list.len(),
{
    if list.len() == 0 {
        -1
    } else {
        let earlier = key_position(list.drop_last(), id);
        if earlier >= 0 {
            earlier
        } else if list.last().key_id@ == id {
            list.len() - 1
        } else {
            -1
        }
    }
}

proof fn lemma_certificate_found(
    list: Seq<TzapEnrolledCertificateRecord>,
    id: Seq<char>,
    at: int,
)
    requires
        0 <= at < list.len(),
        certificate_position(list.take(at), id) == -1,
        list[at].certificate_id@ == id,
    ensures
        certificate_position(list, id) == at,
    decreases list.len(),
{
    if at == list.len() - 1 {
        assert(list.drop_last() =~= list.take(at));
    } else {
        assert(list.drop_last().take(at) =~= list.take(at));
        lemma_certificate_found(list.drop_last(), id, at);
    }
}

proof fn lemma_key_found(list: Seq<TzapDeviceSigningKey>, id: Seq<char>, at: int)
    requires
        0 <= at < list.len(),
        key_position(list.take(at), id) == -1,
        list[at].key_id@ == id,
    ensures
        key_position(list, id) == at,
    decreases list.len(),
{
    if at == list.len() - 1 {
        assert(list.drop_last() =~= list.take(at));
    } else {
        assert(list.drop_last().take(at) =~= list.take(at));
        lemma_key_found(list.drop_last(), id, at);
    }
}

fn find_certificate(list: &Vec<TzapEnrolledCertificateRecord>, id: &str) -> (at: Option<usize>)
    ensures
        match at {
            Some(at) => at < list@.len() && at as int == certificate_position(list@, id@),
            None => certificate_position(list@, id@) == -1,
        },
{
    let mut i: usize = 0;
    while i < list.len()
        invariant
            i <= list@.len(),
            certificate_position(list@.take(i as int), id@) == -1,
        decreases list@.len() - i,
    {
        assert(list@.take(i + 1).drop_last() =~= list@.take(i as int));
        if same_text(list[i].certificate_id.as_str(), id) {
            proof {
                lemma_certificate_found(list@, id@, i as int);
            }
            return Some(i);
        }
        i = i + 1;
    }
    assert(list@.take(list@.len() as int) =~= list@);
    None
}

fn find_signing_key(list: &Vec<TzapDeviceSigningKey>, id: &str) -> (at: Option<usize>)
    ensures
        match at {
            Some(at) => at < list@.len() && at as int == key_position(list@, id@),
            None => key_position(list@, id@) == -1,
        },
{
    let mut i: usize = 0;
    while i < list.len()
        invariant
            i <= list@.len(),
            key_position(list@.take(i as int), id@) == -1,
        decreases list@.len() - i,
    {
        assert(list@.take(i + 1).drop_last() =~= list@.take(i as int));
        if same_text(list[i].key_id.as_str(), id) {
            proof {
                lemma_key_found(list@, id@, i as int);
            }
            return Some(i);
        }
        i = i + 1;
    }
    assert(list@.take(list@.len() as int) =~= list@);
    None
}

/// The material that signs an archive, with its bytes taken as sequences.
pub struct SigningView {
    pub certificate: Seq<u8>,
    pub private_key: Seq<u8>,
    pub chain: Seq<Seq<u8>>,
}

/// Several byte strings taken as sequences.
pub open spec fn byte_strings(list: Seq<Vec<u8>>) -> Seq<Seq<u8>> {
    list.map_values(|bytes: Vec<u8>| bytes@)
}

/// The signing material of the certificate named `id`, or why it may not sign.
pub open spec fn signing_material(
    inventory: TzapLocalIdentityInventory,
    id: Seq<char>,
    now: u64,
) -> Result<SigningView, Seq<char>> {
    let at = certificate_position(inventory.enrolled_certificates@, id);
    if at < 0 {
        Err("certificate not found: "@ + id)
    } else {
        let certificate = inventory.enrolled_certificates@[at];
        match signing_obstacle(certificate, inventory, now) {
            Some(reason) => Err(reason),
            None => {
                let key = key_position(
                    inventory.device_signing_keys@,
                    certificate.signing_key_id@,
                );
                if key < 0 {
                    Err("certificate signing key is missing"@)
                } else {
                    Ok(
                        SigningView {
                            certificate: certificate.leaf_certificate_der@,
                            private_key: inventory.device_signing_keys@[key].private_key_der@,
                            chain: byte_strings(certificate.intermediate_chain_der@),
                        },
                    )
                }
            },
        }
    }
}

/// Copies a byte string.
pub fn copy_bytes(bytes: &Vec<u8>) -> (copy: Vec<u8>)
    ensures
        copy@ == bytes@,
{
    let copy: Vec<u8> = crate::bytes::copy_range(bytes.as_slice(), 0, bytes.len());
    assert(copy@ =~= bytes@);
    copy
}

/// Copies several byte strings.
pub fn copy_byte_strings(list: &Vec<Vec<u8>>) -> (copy: Vec<Vec<u8>>)
    ensures
        byte_strings(copy@) == byte_strings(list@),
{
    let mut copy: Vec<Vec<u8>> = Vec::new();
    let ghost wanted = byte_strings(list@);
    let mut i: usize = 0;
    assert(byte_strings(copy@) =~= wanted.take(0));
    while i < list.len()
        invariant
            i <= list@.len(),
            wanted == byte_strings(list@),
            byte_strings(copy@) == wanted.take(i as int),
        decreases list@.len() - i,
    {
        let ghost before = copy@;
        let item: Vec<u8> = copy_bytes(&list[i]);
        copy.push(item);
        assert(byte_strings(copy@) =~= byte_strings(before).push(item@));
        assert(wanted.take(i + 1) =~= wanted.take(i as int).push(wanted[i as int]));
        i = i + 1;
    }
    assert(wanted.take(list@.len() as int) =~= wanted);
    copy
}

/// Resolves the in-memory X.509 signing material for a locally enrolled
/// certificate. `loaded` is the inventory of the account, or why it could not be
/// loaded.
pub fn tzap_x509_signing_options_from_inventory(
    loaded: &Result<TzapLocalIdentityInventory, String>,
    certificate_id: &str,
    now_unix_seconds: u64,
) -> (options: Result<TzapX509SigningOptions, String>)
    ensures
        match loaded {
            Err(message) => options matches Err(e) && e@ == message@,
            Ok(inventory) => match options {
                Ok(TzapX509SigningOptions::InMemory {
                    signing_certificate,
                    signing_private_key,
                    signing_chain,
                }) => signing_material(*inventory, certificate_id@, now_unix_seconds) == Ok::<
                    SigningView,
                    Seq<char>,
                >(
                    SigningView {
                        certificate: signing_certificate@,
                        private_key: signing_private_key@,
                        chain: byte_strings(signing_chain@),
                    },
                ),
                Ok(_) => false,
                Err(e) => signing_material(*inventory, certificate_id@, now_unix_seconds) == Err::<
                    SigningView,
                    Seq<char>,
                >(e@),
            },
        },
{
    let inventory: &TzapLocalIdentityInventory = match loaded {
        Ok(inventory) => inventory,
        Err(message) => {
            return Err(message.clone());
        },
    };
    let at: usize = match find_certificate(&inventory.enrolled_certificates, certificate_id) {
        Some(at) => at,
        None => {
            return Err(concat2("certificate not found: ", certificate_id));
        },
    };
    let certificate: &TzapEnrolledCertificateRecord = &inventory.enrolled_certificates[at];
    match find_signing_obstacle(certificate, inventory, now_unix_seconds) {
        Some(reason) => {
            return Err(reason);
        },
        None => {},
    }
    let key: usize = match find_signing_key(
        &inventory.device_signing_keys,
        certificate.signing_key_id.as_str(),
    ) {
        Some(key) => key,
        None => {
            return Err("certificate signing key is missing".to_owned());
        },
    };
    Ok(
        TzapX509SigningOptions::InMemory {
            signing_certificate: copy_bytes(&certificate.leaf_certificate_der),
            signing_private_key: copy_bytes(&inventory.device_signing_keys[key].private_key_der),
            signing_chain: copy_byte_strings(&certificate.intermediate_chain_der),
        },
    )
}

/// Whether a certificate is one that the key `key_id` may sign with now.
pub open spec fn eligible(
    certificate: TzapEnrolledCertificateRecord,
    inventory: TzapLocalIdentityInventory,
    key_id: Seq<char>,
    now: u64,
) -> bool {
    certificate.signing_key_id@ == key_id && usable(certificate, inventory, now)
}

/// The newest eligible certificate among the first `n`: the one with the latest
/// start of validity, and the last of several with the same; -1 if there is
/// none.
pub open spec fn newest_eligible(
    inventory: TzapLocalIdentityInventory,
    key_id: Seq<char>,
    now: u64,
    n: nat,
) -> int
    decreases n,
{
    if n == 0 {
        -1
    } else {
        let list = inventory.enrolled_certificates@;
        let best = newest_eligible(inventory, key_id, now, (n - 1) as nat);
        if !eligible(list[n - 1], inventory, key_id, now) {
            best
        } else if best >= 0 && list[best].not_before_unix_seconds
            > list[n - 1].not_before_unix_seconds {
            best
        } else {
            n - 1
        }
    }
}

/// The certificate that a signing key uses unless another one is named.
pub open spec fn default_certificate(
    inventory: TzapLocalIdentityInventory,
    key_id: Seq<char>,
    now: u64,
) -> Result<Seq<char>, Seq<char>> {
    let best = newest_eligible(
        inventory,
        key_id,
        now,
        inventory.enrolled_certificates@.len(),
    );
    if best < 0 {
        Err("no usable certificate found for signing key: "@ + key_id)
    } else {
        Ok(inventory.enrolled_certificates@[best].certificate_id@)
    }
}

/// Turns a stored default-signing-key preference into a concrete certificate
/// id: the newest usable certificate for that signing key. A renewal's
/// certificate starts later than the one that it replaces, so it takes over for
/// new signatures by itself.
///
/// # Errors
///
/// Returns an error message when no enrolled certificate for `signing_key_id`
/// is currently usable.
pub fn resolve_default_signing_certificate_id(
    inventory: &TzapLocalIdentityInventory,
    signing_key_id: &str,
    now_unix_seconds: u64,
) -> (id: Result<String, String>)
    ensures
        match id {
            Ok(id) => default_certificate(*inventory, signing_key_id@, now_unix_seconds) == Ok::<
                Seq<char>,
                Seq<char>,
            >(id@),
            Err(e) => default_certificate(*inventory, signing_key_id@, now_unix_seconds) == Err::<
                Seq<char>,
                Seq<char>,
            >(e@),
        },
{
    let list: &Vec<TzapEnrolledCertificateRecord> = &inventory.enrolled_certificates;
    let mut best: Option<usize> = None;
    let mut i: usize = 0;
    while i < list.len()
        invariant
            i <= list@.len(),
            list == inventory.enrolled_certificates,
            match best {
                Some(at) => at < i && at as int == newest_eligible(
                    *inventory,
                    signing_key_id@,
                    now_unix_seconds,
                    i as nat,
                ),
                None => newest_eligible(
                    *inventory,
                    signing_key_id@,
                    now_unix_seconds,
                    i as nat,
                ) == -1,
            },
        decreases list@.len() - i,
    {
        let certificate: &TzapEnrolledCertificateRecord = &list[i];
        if same_text(certificate.signing_key_id.as_str(), signing_key_id)
            && certificate_is_usable_for_signing(certificate, inventory, now_unix_seconds) {
            best =
            match best {
                Some(at) => if list[at].not_before_unix_seconds
                    > certificate.not_before_unix_seconds {
                    Some(at)
                } else {
                    Some(i)
                },
                None => Some(i),
            };
        }
        i = i + 1;
    }
    match best {
        Some(at) => Ok(list[at].certificate_id.clone()),
        None => Err(concat2("no usable certificate found for signing key: ", signing_key_id)),
    }
}

proof fn lemma_newest(inventory: TzapLocalIdentityInventory, key_id: Seq<char>, now: u64, n: nat)
    requires
        n <= inventory.enrolled_certificates@.len(),
    ensures
        ({
            let list = inventory.enrolled_certificates@;
            let best = newest_eligible(inventory, key_id, now, n);
            &&& -1 <= best < n
            &&& best >= 0 ==> eligible(list[best], inventory, key_id, now)
            &&& forall|k: int|
                0 <= k < n && eligible(#[trigger] list[k], inventory, key_id, now) ==> best >= 0
                    && list[k].not_before_unix_seconds <= list[best].not_before_unix_seconds
        }),
    decreases n,
{
    if n > 0 {
        lemma_newest(inventory, key_id, now, (n - 1) as nat);
    }
}

proof fn lemma_certificate_position(
    list: Seq<TzapEnrolledCertificateRecord>,
    id: Seq<char>,
    at: int,
)
    requires
        0 <= at < list.len(),
        list[at].certificate_id@ == id,
        forall|i: int, j: int|
            0 <= i < j < list.len() ==> (#[trigger] list[i]).certificate_id@ != (
            #[trigger] list[j]).certificate_id@,
    ensures
        certificate_position(list, id) == at,
    decreases list.len(),
{
    if at < list.len() - 1 {
        let head = list.drop_last();
        assert forall|i: int, j: int| 0 <= i < j < head.len() implies (
        #[trigger] head[i]).certificate_id@ != (#[trigger] head[j]).certificate_id@ by {
            assert(head[i] == list[i] && head[j] == list[j]);
        }
        assert(head[at] == list[at]);
        lemma_certificate_position(head, id, at);
    } else {
        lemma_certificate_absent(list.drop_last(), id);
    }
}

proof fn lemma_certificate_absent(list: Seq<TzapEnrolledCertificateRecord>, id: Seq<char>)
    requires
        forall|k: int| 0 <= k < list.len() ==> (#[trigger] list[k]).certificate_id@ != id,
    ensures
        certificate_position(list, id) == -1,
    decreases list.len(),
{
    if list.len() > 0 {
        assert(list[list.len() - 1].certificate_id@ != id);
        lemma_certificate_absent(list.drop_last(), id);
    }
}

/// The default certificate of a signing key may sign now, and no certificate
/// that the key may sign with now starts later.
pub proof fn law_default_certificate_is_the_newest(
    inventory: TzapLocalIdentityInventory,
    key_id: Seq<char>,
    now: u64,
)
    ensures
        match default_certificate(inventory, key_id, now) {
            Ok(id) => exists|best: int|
                0 <= best < inventory.enrolled_certificates@.len()
                    && inventory.enrolled_certificates@[best].certificate_id@ == id && eligible(
                    #[trigger] inventory.enrolled_certificates@[best],
                    inventory,
                    key_id,
                    now,
                ) && forall|k: int|
                    0 <= k < inventory.enrolled_certificates@.len() && eligible(
                        #[trigger] inventory.enrolled_certificates@[k],
                        inventory,
                        key_id,
                        now,
                    ) ==> inventory.enrolled_certificates@[k].not_before_unix_seconds
                        <= inventory.enrolled_certificates@[best].not_before_unix_seconds,
            Err(_) => forall|k: int|
                0 <= k < inventory.enrolled_certificates@.len() ==> !eligible(
                    #[trigger] inventory.enrolled_certificates@[k],
                    inventory,
                    key_id,
                    now,
                ),
        },
{
    let list = inventory.enrolled_certificates@;
    lemma_newest(inventory, key_id, now, list.len());
    let best = newest_eligible(inventory, key_id, now, list.len());
    if best >= 0 {
        assert(eligible(list[best], inventory, key_id, now));
    }
}

/// Where certificates have different names, the default certificate of a key
/// that the device holds can sign: naming it gives signing material.
pub proof fn law_default_certificate_signs(
    inventory: TzapLocalIdentityInventory,
    key_id: Seq<char>,
    now: u64,
)
    requires
        forall|i: int, j: int|
            0 <= i < j < inventory.enrolled_certificates@.len() ==> (
            #[trigger] inventory.enrolled_certificates@[i]).certificate_id@ != (
            #[trigger] inventory.enrolled_certificates@[j]).certificate_id@,
        key_position(inventory.device_signing_keys@, key_id) >= 0,
        default_certificate(inventory, key_id, now) is Ok,
    ensures
        signing_material(
            inventory,
            default_certificate(inventory, key_id, now)->Ok_0,
            now,
        ) is Ok,
{
    let list = inventory.enrolled_certificates@;
    lemma_newest(inventory, key_id, now, list.len());
    let best = newest_eligible(inventory, key_id, now, list.len());
    lemma_certificate_position(list, list[best].certificate_id@, best);
}

proof fn lemma_certificate_position_is_first(
    list: Seq<TzapEnrolledCertificateRecord>,
    id: Seq<char>,
)
    ensures
        ({
            let at = certificate_position(list, id);
            &&& -1 <= at < list.len()
            &&& at >= 0 ==> list[at].certificate_id@ == id
            &&& forall|j: int|
                0 <= j < (if at >= 0 {
                    at
                } else {
                    list.len() as int
                }) ==> (#[trigger] list[j]).certificate_id@ != id
        }),
    decreases list.len(),
{
    if list.len() > 0 {
        lemma_certificate_position_is_first(list.drop_last(), id);
        assert forall|j: int| 0 <= j < list.len() - 1 implies #[trigger] list[j]
            == list.drop_last()[j] by {}
    }
}

proof fn lemma_key_position_is_first(list: Seq<TzapDeviceSigningKey>, id: Seq<char>)
    ensures
        ({
            let at = key_position(list, id);
            &&& -1 <= at < list.len()
            &&& at >= 0 ==> list[at].key_id@ == id
            &&& forall|j: int|
                0 <= j < (if at >= 0 {
                    at
                } else {
                    list.len() as int
                }) ==> (#[trigger] list[j]).key_id@ != id
        }),
    decreases list.len(),
{
    if list.len() > 0 {
        lemma_key_position_is_first(list.drop_last(), id);
        assert forall|j: int| 0 <= j < list.len() - 1 implies #[trigger] list[j]
            == list.drop_last()[j] by {}
    }
}

/// A certificate may sign exactly while it is active and within its validity, its
/// issuer is not on the device's blocklist, and no cached answer on it says anything
/// but that it is good.
pub proof fn law_a_certificate_signs_unless_something_forbids_it(
    certificate: TzapEnrolledCertificateRecord,
    inventory: TzapLocalIdentityInventory,
    now: u64,
)
    ensures
        usable(certificate, inventory, now) <==> {
            &&& certificate.state is Active
            &&& certificate.not_before_unix_seconds <= now < certificate.not_after_unix_seconds
            &&& forall|b: int|
                0 <= b < inventory.emergency_blocklist.blocked_issuer_sha256@.len() ==> (
                #[trigger] inventory.emergency_blocklist.blocked_issuer_sha256@[b])@
                    != certificate.issuer_certificate_sha256@
            &&& forall|s: int|
                0 <= s < inventory.certificate_status_cache@.len() && (
                #[trigger] inventory.certificate_status_cache@[s]).certificate_sha256@
                    == certificate.certificate_sha256@
                    ==> inventory.certificate_status_cache@[s].status
                    == TzapCertificateStatus::Valid
        },
{
    let blocked = inventory.emergency_blocklist.blocked_issuer_sha256@;
    assert forall|b: int| 0 <= b < blocked.len() implies #[trigger] texts(blocked)[b]
        == blocked[b]@ by {}
    if forall|b: int|
        0 <= b < blocked.len() ==> (#[trigger] blocked[b])@
            != certificate.issuer_certificate_sha256@ {
        assert(!texts(blocked).contains(certificate.issuer_certificate_sha256@));
    } else {
        let b = choose|b: int|
            0 <= b < blocked.len() && (#[trigger] blocked[b])@
                == certificate.issuer_certificate_sha256@;
        assert(texts(blocked)[b] == certificate.issuer_certificate_sha256@);
    }
}

/// What signs an archive belongs together: the certificate and the chain are those of
/// the first certificate with the name that was asked for, that certificate may sign
/// now, and the private key is that of the first device key with the name that the
/// certificate gives. Material comes out whenever all of these are there.
pub proof fn law_signing_material_belongs_together(
    inventory: TzapLocalIdentityInventory,
    id: Seq<char>,
    now: u64,
)
    ensures
        match signing_material(inventory, id, now) {
            Ok(material) => exists|c: int, k: int|
                {
                    let certificate = #[trigger] inventory.enrolled_certificates@[c];
                    let key = #[trigger] inventory.device_signing_keys@[k];
                    &&& 0 <= c < inventory.enrolled_certificates@.len()
                    &&& 0 <= k < inventory.device_signing_keys@.len()
                    &&& certificate.certificate_id@ == id
                    &&& forall|j: int|
                        0 <= j < c ==> (
                        #[trigger] inventory.enrolled_certificates@[j]).certificate_id@ != id
                    &&& certificate.state is Active
                    &&& certificate.not_before_unix_seconds <= now
                        < certificate.not_after_unix_seconds
                    &&& usable(certificate, inventory, now)
                    &&& key.key_id@ == certificate.signing_key_id@
                    &&& forall|j: int|
                        0 <= j < k ==> (#[trigger] inventory.device_signing_keys@[j]).key_id@
                            != certificate.signing_key_id@
                    &&& material.private_key == key.private_key_der@
                    &&& material.certificate == certificate.leaf_certificate_der@
                    &&& material.chain.len() == certificate.intermediate_chain_der@.len()
                    &&& forall|i: int|
                        0 <= i < material.chain.len() ==> #[trigger] material.chain[i]
                            == certificate.intermediate_chain_der@[i]@
                },
            Err(_) => forall|c: int, k: int|
                0 <= c < inventory.enrolled_certificates@.len() && 0 <= k
                    < inventory.device_signing_keys@.len() && (
                #[trigger] inventory.enrolled_certificates@[c]).certificate_id@ == id && (
                #[trigger] inventory.device_signing_keys@[k]).key_id@
                    == inventory.enrolled_certificates@[c].signing_key_id@ && (forall|j: int|
                    0 <= j < c ==> (#[trigger] inventory.enrolled_certificates@[j]).certificate_id@
                        != id) ==> !usable(inventory.enrolled_certificates@[c], inventory, now),
        },
{
    let certificates = inventory.enrolled_certificates@;
    let keys = inventory.device_signing_keys@;
    lemma_certificate_position_is_first(certificates, id);
    let c = certificate_position(certificates, id);
    if c >= 0 {
        law_a_certificate_signs_unless_something_forbids_it(certificates[c], inventory, now);
        lemma_key_position_is_first(keys, certificates[c].signing_key_id@);
        let k = key_position(keys, certificates[c].signing_key_id@);
        if signing_material(inventory, id, now) is Ok {
            assert(certificates[c].certificate_id@ == id && keys[k].key_id@
                == certificates[c].signing_key_id@);
        }
    }
}

/// The default certificate of a signing key is one of that key, it may sign now, and
/// among the certificates of that key which may sign now none starts later; of several
/// that start together it is the last. There is none only where no certificate of the
/// key may sign now.
pub proof fn law_default_certificate_is_the_last_of_the_newest(
    inventory: TzapLocalIdentityInventory,
    key_id: Seq<char>,
    now: u64,
)
    ensures
        match default_certificate(inventory, key_id, now) {
            Ok(id) => exists|best: int|
                {
                    let chosen = #[trigger] inventory.enrolled_certificates@[best];
                    &&& 0 <= best < inventory.enrolled_certificates@.len()
                    &&& chosen.certificate_id@ == id
                    &&& chosen.signing_key_id@ == key_id
                    &&& usable(chosen, inventory, now)
                    &&& forall|k: int|
                        {
                            let other = #[trigger] inventory.enrolled_certificates@[k];
                            0 <= k < inventory.enrolled_certificates@.len() && other.signing_key_id@
                                == key_id && usable(other, inventory, now)
                                ==> other.not_before_unix_seconds < chosen.not_before_unix_seconds
                                || (other.not_before_unix_seconds == chosen.not_before_unix_seconds
                                && k <= best)
                        }
                },
            Err(_) => forall|k: int|
                0 <= k < inventory.enrolled_certificates@.len() && (
                #[trigger] inventory.enrolled_certificates@[k]).signing_key_id@ == key_id
                    ==> !usable(inventory.enrolled_certificates@[k], inventory, now),
        },
{
    let list = inventory.enrolled_certificates@;
    lemma_last_of_the_newest(inventory, key_id, now, list.len());
    let best = newest_eligible(inventory, key_id, now, list.len());
    if best >= 0 {
        assert(list[best].signing_key_id@ == key_id);
    }
}

proof fn lemma_last_of_the_newest(
    inventory: TzapLocalIdentityInventory,
    key_id: Seq<char>,
    now: u64,
    n: nat,
)
    requires
        n <= inventory.enrolled_certificates@.len(),
    ensures
        ({
            let list = inventory.enrolled_certificates@;
            let best = newest_eligible(inventory, key_id, now, n);
            &&& -1 <= best < n
            &&& best >= 0 ==> list[best].signing_key_id@ == key_id && usable(
                list[best],
                inventory,
                now,
            )
            &&& forall|k: int|
                0 <= k < n && (#[trigger] list[k]).signing_key_id@ == key_id && usable(
                    list[k],
                    inventory,
                    now,
                ) ==> best >= 0 && (list[k].not_before_unix_seconds
                    < list[best].not_before_unix_seconds || (list[k].not_before_unix_seconds
                    == list[best].not_before_unix_seconds && k <= best))
        }),
    decreases n,
{
    if n > 0 {
        lemma_last_of_the_newest(inventory, key_id, now, (n - 1) as nat);
    }
}

} // verus!
