use zmanager_core::tzap::inventory::{
    TzapCertificateStatus, TzapCertificateStatusCacheRecord, TzapDeviceSigningKey,
    TzapEmergencyBlocklistState, TzapEnrolledCertificateRecord, TzapLocalCertificateState,
    TzapLocalIdentityInventory, TzapX509SigningOptions, TzapX509TrustOptions,
    certificate_is_usable_for_signing, resolve_default_signing_certificate_id,
    tzap_x509_signing_options_from_inventory,
};
use zmanager_core::x509_fixture::sha256_identifier;

const SIGNING_KEY: &str = "device-key-1";
const OTHER_KEY: &str = "device-key-2";

fn inventory_with(certificates: Vec<TzapEnrolledCertificateRecord>) -> TzapLocalIdentityInventory {
    let mut inventory = TzapLocalIdentityInventory::empty();
    inventory.enrolled_certificates = certificates;
    inventory
}

fn certificate(
    id: &str,
    signing_key_id: &str,
    state: TzapLocalCertificateState,
    not_before_unix_seconds: u64,
    not_after_unix_seconds: u64,
) -> TzapEnrolledCertificateRecord {
    TzapEnrolledCertificateRecord {
        certificate_id: id.to_owned(),
        certificate_sha256: leaf_sha(id),
        issuer_certificate_sha256: issuer_sha(id),
        leaf_certificate_der: vec![0x30, 0x01],
        intermediate_chain_der: vec![vec![0x30, 0x02]],
        not_before_unix_seconds,
        not_after_unix_seconds,
        signing_key_id: signing_key_id.to_owned(),
        state,
    }
}

fn leaf_sha(id: &str) -> String {
    sha256_identifier(format!("leaf:{id}").as_bytes())
}

fn issuer_sha(id: &str) -> String {
    sha256_identifier(format!("issuer:{id}").as_bytes())
}

#[test]
fn picks_the_newest_usable_certificate_for_the_signing_key() {
    let inventory = inventory_with(vec![
        certificate("cert-old", SIGNING_KEY, TzapLocalCertificateState::Active, 100, 200),
        certificate("cert-new", SIGNING_KEY, TzapLocalCertificateState::Active, 150, 250),
    ]);

    assert_eq!(
        resolve_default_signing_certificate_id(&inventory, SIGNING_KEY, 180).unwrap(),
        "cert-new"
    );
}

#[test]
fn skips_inactive_expired_not_yet_valid_blocklisted_and_status_blocked_candidates() {
    let mut inventory = inventory_with(vec![
        certificate("cert-revoked", SIGNING_KEY, TzapLocalCertificateState::Revoked, 100, 900),
        certificate("cert-expired", SIGNING_KEY, TzapLocalCertificateState::Active, 100, 150),
        certificate("cert-not-yet-valid", SIGNING_KEY, TzapLocalCertificateState::Active, 500, 900),
        certificate("cert-blocklisted", SIGNING_KEY, TzapLocalCertificateState::Active, 100, 900),
        certificate("cert-status-blocked", SIGNING_KEY, TzapLocalCertificateState::Active, 100, 900),
        certificate("cert-good", SIGNING_KEY, TzapLocalCertificateState::Active, 100, 900),
    ]);
    inventory.emergency_blocklist = TzapEmergencyBlocklistState {
        blocked_root_sha256: Vec::new(),
        blocked_issuer_sha256: vec![issuer_sha("cert-blocklisted")],
        updated_at_unix_seconds: None,
    };
    inventory.certificate_status_cache.push(TzapCertificateStatusCacheRecord {
        certificate_sha256: leaf_sha("cert-status-blocked"),
        status: TzapCertificateStatus::Suspended,
        this_update_unix_seconds: 100,
        next_update_unix_seconds: 900,
    });

    assert_eq!(
        resolve_default_signing_certificate_id(&inventory, SIGNING_KEY, 200).unwrap(),
        "cert-good"
    );
}

#[test]
fn ignores_candidates_for_a_different_signing_key() {
    let inventory = inventory_with(vec![
        certificate("cert-mine", SIGNING_KEY, TzapLocalCertificateState::Active, 100, 900),
        certificate(
            "cert-newer-but-not-mine",
            OTHER_KEY,
            TzapLocalCertificateState::Active,
            500,
            900,
        ),
    ]);

    assert_eq!(
        resolve_default_signing_certificate_id(&inventory, SIGNING_KEY, 200).unwrap(),
        "cert-mine"
    );
}

#[test]
fn errors_when_no_certificate_is_usable() {
    let inventory = inventory_with(Vec::new());
    assert!(resolve_default_signing_certificate_id(&inventory, SIGNING_KEY, 200).is_err());

    let inventory = inventory_with(vec![certificate(
        "cert-expired",
        SIGNING_KEY,
        TzapLocalCertificateState::Active,
        100,
        150,
    )]);
    assert!(resolve_default_signing_certificate_id(&inventory, SIGNING_KEY, 200).is_err());
}

#[test]
fn the_default_certificate_signs() {
    let mut inventory = inventory_with(vec![certificate(
        "cert-mine",
        SIGNING_KEY,
        TzapLocalCertificateState::Active,
        100,
        900,
    )]);
    inventory.device_signing_keys.push(TzapDeviceSigningKey {
        key_id: SIGNING_KEY.to_owned(),
        private_key_der: vec![1, 2, 3],
    });
    assert!(certificate_is_usable_for_signing(&inventory.enrolled_certificates[0], &inventory, 100));
    assert!(!certificate_is_usable_for_signing(&inventory.enrolled_certificates[0], &inventory, 99));
    let id = resolve_default_signing_certificate_id(&inventory, SIGNING_KEY, 200).unwrap();
    let options = tzap_x509_signing_options_from_inventory(&Ok(inventory), &id, 200).unwrap();
    assert_eq!(
        options,
        TzapX509SigningOptions::InMemory {
            signing_certificate: vec![0x30, 0x01],
            signing_private_key: vec![1, 2, 3],
            signing_chain: vec![vec![0x30, 0x02]],
        }
    );
}

#[test]
fn signing_material_is_refused_with_a_reason() {
    let failed = tzap_x509_signing_options_from_inventory(&Err("locked".to_owned()), "any", 200);
    assert_eq!(failed.unwrap_err(), "locked");
    let unknown = tzap_x509_signing_options_from_inventory(
        &Ok(TzapLocalIdentityInventory::empty()),
        "missing",
        200,
    );
    assert!(unknown.is_err());
    let keyless = inventory_with(vec![certificate(
        "cert-mine",
        SIGNING_KEY,
        TzapLocalCertificateState::Active,
        100,
        900,
    )]);
    assert!(tzap_x509_signing_options_from_inventory(&Ok(keyless), "cert-mine", 200).is_err());
}

#[test]
fn trust_needs_a_source() {
    let nothing = TzapX509TrustOptions {
        trusted_ca_certificates: Vec::new(),
        trusted_system_roots: false,
        include_official_tzap_root: false,
    };
    assert!(!nothing.has_trust_source());
    let system = TzapX509TrustOptions { trusted_system_roots: true, ..nothing };
    assert!(system.has_trust_source());
    assert_eq!(TzapLocalCertificateState::Active.as_str(), "active");
}
