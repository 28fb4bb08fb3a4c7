use openssl::asn1::Asn1Time;
use openssl::bn::BigNum;
use openssl::hash::MessageDigest;
use openssl::pkey::{PKey, Private};
use openssl::rsa::Rsa;
use openssl::x509::extension::{BasicConstraints, KeyUsage};
use openssl::x509::{X509, X509NameBuilder, X509NameRef};
use std::time::{SystemTime, UNIX_EPOCH};
use tzap_core::writer::RootAuthSigningRequest;
use tzap_plugin_signing::trust::{
    OFFICIAL_TZAP_ROOT_CERT_PEM, OFFICIAL_TZAP_ROOT_CERT_SHA256, OFFICIAL_TZAP_STAGING_ROOT_PEM,
    OFFICIAL_TZAP_STAGING_ROOT_SHA256,
};
use tzap_plugin_signing::x509_chain::X509RootAuthSigner;
use zmanager_core::failure::{IoFailure, IoKind};
use zmanager_core::tzap::authenticator::parse_x509_authenticator_for_inspection;
use zmanager_core::tzap::error::{FormatFault, TzapError};
use zmanager_core::tzap::inventory::TzapX509TrustOptions;
use zmanager_core::tzap::opening::ArchiveInput;
use zmanager_core::tzap::reader::open_tzap_volumes;
use zmanager_core::tzap::volumes::VolumeCandidate;
use zmanager_core::tzap::root_auth::{
    CertificateFile, FooterOutcome, NamePart, OfficialRoot, OfficialRoots, RootAuthFacts,
    RootAuthFooter, TzapX509TrustAnchor, X509_AUTHENTICATOR_ID,
    X509_SIGNER_IDENTITY_TYPE_DER_CERT, check_footer, check_public_profile,
    claimed_signing_time, classify_x509_trust_anchor, classify_x509_trust_anchor_against,
    collect_trusted_roots, inspect_tzap_x509_public_no_key_signer, inspect_tzap_x509_signer,
    inspect_x509_root_auth_footer, inspect_x509_root_auth_parts, load_x509_certificate_files,
    load_x509_production_root, load_x509_trusted_roots, should_verify_opened_x509_root_auth, trust_anchor_from,
    current_unix_seconds_i64, unix_seconds_i64, verify_opened_x509_root_auth, verify_tzap_x509_public_no_key,
    x509_name_to_string,
};
use zmanager_core::tzap::signature::{
    inspect_tzap_volumes_x509_public_no_key_signer, inspect_tzap_volumes_x509_signer,
    verify_tzap_volumes_x509, verify_tzap_volumes_x509_public_no_key,
};
use zmanager_core::x509_fixture::sha256_identifier;

fn official_roots() -> OfficialRoots {
    OfficialRoots {
        production: OfficialRoot {
            pem: OFFICIAL_TZAP_ROOT_CERT_PEM.to_vec(),
            sha256: OFFICIAL_TZAP_ROOT_CERT_SHA256.to_owned(),
        },
        staging: OfficialRoot {
            pem: OFFICIAL_TZAP_STAGING_ROOT_PEM.to_vec(),
            sha256: OFFICIAL_TZAP_STAGING_ROOT_SHA256.to_owned(),
        },
    }
}

fn trust(official: bool, system: bool) -> TzapX509TrustOptions {
    TzapX509TrustOptions {
        trusted_ca_certificates: Vec::new(),
        trusted_system_roots: system,
        include_official_tzap_root: official,
    }
}

fn name_parts(name: &X509NameRef) -> Vec<NamePart> {
    name.entries()
        .map(|entry| NamePart {
            key: entry.object().nid().short_name().ok().map(str::to_owned),
            text: entry.data().as_utf8().ok().map(|text| text.to_string()),
            raw: entry.data().as_slice().to_vec(),
        })
        .collect()
}

#[test]
fn x509_x509_trust_options_can_include_embedded_official_root() {
    let roots = load_x509_trusted_roots(&trust(true, false), &official_roots(), &Vec::new()).unwrap();

    assert_eq!(roots.len(), 2);
    assert_eq!(sha256_identifier(&roots[0]), OFFICIAL_TZAP_ROOT_CERT_SHA256);
    assert_eq!(sha256_identifier(&roots[1]), OFFICIAL_TZAP_STAGING_ROOT_SHA256);
    let root = X509::from_der(&roots[0]).unwrap();
    assert_eq!(
        x509_name_to_string(&name_parts(root.subject_name())),
        "CN=TZAP Production Root CA 2026, O=TZAP, C=AU"
    );
    let staging = X509::from_der(&roots[1]).unwrap();
    assert_eq!(
        x509_name_to_string(&name_parts(staging.subject_name())),
        "CN=TZAP Staging Root CA 2026, O=TZAP, C=AU"
    );
}

#[test]
fn tzap_backend_x509_trust_options_can_include_embedded_official_root() {
    let production = official_roots().production;
    let roots = load_x509_production_root(&trust(true, false), &production, &Vec::new()).unwrap();

    assert_eq!(roots.len(), 1);
    assert_eq!(
        sha256_identifier(&roots[0]),
        "sha256:d80d318f6cd6096dc791e314ec6f41434caa47feb75e85ad6f87d5bf72bbd53d"
    );
    let root = X509::from_der(&roots[0]).unwrap();
    assert_eq!(
        x509_name_to_string(&name_parts(root.subject_name())),
        "CN=TZAP Production Root CA 2026, O=TZAP, C=AU"
    );
    assert!(load_x509_production_root(&trust(false, true), &production, &Vec::new())
        .unwrap()
        .is_empty());
    let broken = OfficialRoot { pem: b"broken".to_vec(), ..production };
    assert!(matches!(
        load_x509_production_root(&trust(true, false), &broken, &Vec::new()),
        Err(TzapError::X509RootAuth(message))
            if message.starts_with("failed to parse embedded TZAP root certificate sha256:d80d")
    ));
}

#[test]
fn trust_anchor_classification_distinguishes_production_staging_and_untrusted() {
    let (production_stand_in, production_key) = test_ca_cert("Stand-in Production Root");
    let (staging_stand_in, _staging_key) = test_ca_cert("Stand-in Staging Root");
    let (untrusted_root, untrusted_key) = test_ca_cert("Some Other Root");
    let (leaf_cert, leaf_key) = test_leaf_cert("Archive Signer", &production_stand_in, &production_key);
    let (footer, archive_root) = signed_footer(&leaf_cert, &leaf_key, Vec::new());
    let now = now_unix_seconds();

    assert_eq!(
        classify_x509_trust_anchor_against(
            &footer,
            &archive_root,
            &production_stand_in.to_der().unwrap(),
            &staging_stand_in.to_der().unwrap(),
            now
        ),
        TzapX509TrustAnchor::ProductionRoot
    );
    assert_eq!(
        classify_x509_trust_anchor_against(
            &footer,
            &archive_root,
            &staging_stand_in.to_der().unwrap(),
            &production_stand_in.to_der().unwrap(),
            now
        ),
        TzapX509TrustAnchor::StagingRoot
    );
    assert_eq!(
        classify_x509_trust_anchor_against(
            &footer,
            &archive_root,
            &untrusted_root.to_der().unwrap(),
            &staging_stand_in.to_der().unwrap(),
            now
        ),
        TzapX509TrustAnchor::Untrusted
    );
    let _ = untrusted_key;
}

#[test]
fn trust_anchor_classification_is_untrusted_when_official_root_is_not_in_play() {
    let (root_cert, root_key) = test_ca_cert("Custom Root");
    let (leaf_cert, leaf_key) = test_leaf_cert("Archive Signer", &root_cert, &root_key);
    let (footer, archive_root) = signed_footer(&leaf_cert, &leaf_key, Vec::new());

    assert_eq!(
        classify_x509_trust_anchor(
            &footer,
            &archive_root,
            &trust(false, false),
            &official_roots(),
            now_unix_seconds()
        ),
        TzapX509TrustAnchor::Untrusted
    );
}

#[test]
fn signing_time_validation_extracts_and_uses_the_footers_claimed_time() {
    // The certificate was valid when the archive was signed, thirty days ago, and
    // has expired since.
    let signed_at = now_unix_seconds() - 30 * 86_400;
    let (root_cert, root_key) = test_ca_cert_valid_from("Stand-in Production Root", signed_at - 86_400);
    let (leaf_cert, leaf_key) = test_leaf_cert_valid_between(
        "Archive Signer",
        &root_cert,
        &root_key,
        signed_at - 3_600,
        signed_at + 3_600,
    );
    let (footer, archive_root) = signed_footer_at(&leaf_cert, &leaf_key, Vec::new(), signed_at);

    assert_eq!(claimed_signing_time(&footer, &archive_root).unwrap(), signed_at);

    let other_root_der = test_ca_cert("Stand-in Staging Root").0.to_der().unwrap();
    let now = now_unix_seconds();
    assert_eq!(
        classify_x509_trust_anchor_against(
            &footer,
            &archive_root,
            &root_cert.to_der().unwrap(),
            &other_root_der,
            now
        ),
        TzapX509TrustAnchor::Untrusted
    );
    assert_eq!(
        classify_x509_trust_anchor_against(
            &footer,
            &archive_root,
            &root_cert.to_der().unwrap(),
            &other_root_der,
            signed_at
        ),
        TzapX509TrustAnchor::ProductionRoot
    );
}

#[test]
fn a_signed_footer_is_verified_and_reported() {
    let (root_cert, root_key) = test_ca_cert("Custom Root");
    let (leaf_cert, leaf_key) = test_leaf_cert("Archive Signer", &root_cert, &root_key);
    let (footer, archive_root) = signed_footer(&leaf_cert, &leaf_key, Vec::new());
    let roots = vec![root_cert.to_der().unwrap()];

    let outcome = check_footer(&footer, &archive_root, &trust(false, false), &official_roots(), &roots);
    let FooterOutcome::Verified { report, trust_anchor } = outcome else {
        panic!("the footer is signed by a certificate of the root");
    };
    assert_eq!(trust_anchor, TzapX509TrustAnchor::Untrusted);
    assert_eq!(report.subject, "CN=Archive Signer");
    assert_eq!(report.issuer, "CN=Custom Root");
    assert_eq!(report.serial_number_hex, "02");

    let verified = FooterOutcome::Verified { report, trust_anchor };
    let report = verify_opened_x509_root_auth(Ok(()), Ok(facts(&footer)), Some(verified)).unwrap();
    assert_eq!(report.archive_root, [3; 32]);
    assert_eq!(report.authenticator_id, X509_AUTHENTICATOR_ID);
    assert_eq!(report.subject, "CN=Archive Signer");
    assert_eq!(report.trust_anchor, TzapX509TrustAnchor::Untrusted);
    assert_eq!(report.diagnostics, vec!["content".to_owned()]);

    let (other_root, _) = test_ca_cert("Some Other Root");
    let outcome = check_footer(
        &footer,
        &archive_root,
        &trust(false, false),
        &official_roots(),
        &vec![other_root.to_der().unwrap()],
    );
    assert!(matches!(outcome, FooterOutcome::Failed(_)));
}

#[test]
fn a_footer_of_another_archive_is_not_verified() {
    let (root_cert, root_key) = test_ca_cert("Custom Root");
    let (leaf_cert, leaf_key) = test_leaf_cert("Archive Signer", &root_cert, &root_key);
    let (footer, _) = signed_footer(&leaf_cert, &leaf_key, Vec::new());
    let roots = vec![root_cert.to_der().unwrap()];

    let outcome = check_footer(&footer, &[4; 32], &trust(false, false), &official_roots(), &roots);
    assert!(matches!(outcome, FooterOutcome::Failed(_)));
    assert!(matches!(claimed_signing_time(&footer, &[4; 32]), Err(TzapError::X509RootAuth(_))));
}

#[test]
fn the_signer_of_a_footer_is_inspected_without_trust() {
    let (root_cert, root_key) = test_ca_cert("Custom Root");
    let (leaf_cert, leaf_key) = test_leaf_cert("Archive Signer", &root_cert, &root_key);
    let signed_at = now_unix_seconds();
    let (footer, archive_root) = signed_footer_at(&leaf_cert, &leaf_key, Vec::new(), signed_at);

    let volumes = signed_volumes(&leaf_cert, &leaf_key);
    let archive = ArchiveInput {
        path: "a.tzap".to_owned(),
        volumes: vec![VolumeCandidate { path: "a.tzap".to_owned(), exists: true }],
        first_file: Ok(volumes[0].clone()),
        opened: vec![Ok(())],
        archive: open_tzap_volumes("a.tzap", &volumes, Some("secret")),
    };
    for inspection in [
        inspect_x509_root_auth_footer(&footer, &archive_root).unwrap(),
        inspect_x509_root_auth_parts(&footer, &archive_root).unwrap(),
    ] {
        assert_eq!(inspection.subject, "CN=Archive Signer");
        assert_eq!(inspection.issuer, "CN=Custom Root");
        assert_eq!(inspection.serial_number_hex, "02");
        assert_eq!(inspection.signed_at_unix_seconds, signed_at);
        assert_eq!(inspection.archive_root, archive_root);
        assert_eq!(
            inspection.certificate_sha256.to_vec(),
            leaf_cert.digest(MessageDigest::sha256()).unwrap().to_vec()
        );
        let notes = vec!["content".to_owned()];
        let settled =
            inspect_tzap_x509_signer(&archive, Some("secret"), Ok(notes), Some(Ok(inspection)))
                .unwrap();
        assert_eq!(settled.diagnostics, vec!["content".to_owned()]);
    }
    assert!(matches!(
        inspect_tzap_x509_signer(&archive, None, Ok(Vec::new()), None),
        Err(TzapError::PasswordRequired)
    ));

    assert!(inspect_x509_root_auth_parts(&footer, &[4; 32]).is_err());
    assert!(inspect_tzap_x509_public_no_key_signer(Err(TzapError::Cancelled), Ok(Vec::new()), None).is_err());
}

#[test]
fn the_fields_of_an_authenticator_are_read() {
    let (root_cert, root_key) = test_ca_cert("Custom Root");
    let (leaf_cert, leaf_key) = test_leaf_cert("Archive Signer", &root_cert, &root_key);
    let (footer, _) = signed_footer_at(&leaf_cert, &leaf_key, Vec::new(), 1_700_000_000);

    let parts = parse_x509_authenticator_for_inspection(&footer.authenticator_value).unwrap();
    assert_eq!(parts.signed_at_unix_seconds, 1_700_000_000);
    assert_eq!(parts.signature.len(), 256);

    let mut cut = footer.authenticator_value.clone();
    cut.pop();
    assert!(matches!(
        parse_x509_authenticator_for_inspection(&cut),
        Err(TzapError::X509RootAuth(_))
    ));
    assert!(parse_x509_authenticator_for_inspection(&[0; 59]).is_err());
}

#[test]
fn trusted_roots_come_from_files_too() {
    let (root_cert, _) = test_ca_cert("Custom Root");
    let (other_cert, _) = test_ca_cert("Some Other Root");
    let mut bundle = root_cert.to_pem().unwrap();
    bundle.extend_from_slice(&other_cert.to_pem().unwrap());
    let files = vec![CertificateFile { path: "/roots.pem".to_owned(), bytes: Ok(bundle) }];

    let mut named = trust(false, false);
    named.trusted_ca_certificates = vec!["/roots.pem".to_owned()];
    let roots = load_x509_trusted_roots(&named, &official_roots(), &files).unwrap();
    assert_eq!(roots, vec![root_cert.to_der().unwrap(), other_cert.to_der().unwrap()]);

    named.include_official_tzap_root = true;
    let roots = load_x509_trusted_roots(&named, &official_roots(), &files).unwrap();
    assert_eq!(roots.len(), 4);
    assert_eq!(roots[2], root_cert.to_der().unwrap());

    let unnamed = load_x509_trusted_roots(&trust(true, false), &official_roots(), &files).unwrap();
    assert_eq!(unnamed.len(), 2);
    named.trusted_ca_certificates.push("/gone.pem".to_owned());
    assert!(matches!(
        load_x509_trusted_roots(&named, &official_roots(), &files),
        Err(TzapError::Io { path, source })
            if path == "/gone.pem" && source.kind == IoKind::NotFound
    ));

    let unread = vec![CertificateFile { path: "/gone.pem".to_owned(), bytes: Err(IoFailure::new(IoKind::NotFound, "no such file")) }];
    assert!(matches!(
        load_x509_certificate_files(&unread),
        Err(TzapError::Io { path, .. }) if path == "/gone.pem"
    ));
    let garbled = vec![CertificateFile { path: "/bad.pem".to_owned(), bytes: Ok(b"nothing".to_vec()) }];
    assert!(matches!(load_x509_certificate_files(&garbled), Err(TzapError::X509RootAuth(_))));
}

#[test]
fn an_embedded_root_that_cannot_be_parsed_is_named() {
    let error = collect_trusted_roots(
        true,
        Err("not a certificate".to_owned()),
        "sha256:aa",
        Ok(Vec::new()),
        "sha256:bb",
        Ok(Vec::new()),
    )
    .unwrap_err();
    assert!(matches!(&error, TzapError::X509RootAuth(message)
        if message.contains("sha256:aa") && message.contains("not a certificate")));
    assert_eq!(
        collect_trusted_roots(
            false,
            Err("unused".to_owned()),
            "",
            Err("unused".to_owned()),
            "",
            Ok(vec![vec![1]])
        )
        .unwrap(),
        vec![vec![1]]
    );
}

#[test]
fn anchors_follow_the_roots_that_verify() {
    assert_eq!(trust_anchor_from(true, true), TzapX509TrustAnchor::ProductionRoot);
    assert_eq!(trust_anchor_from(true, false), TzapX509TrustAnchor::ProductionRoot);
    assert_eq!(trust_anchor_from(false, true), TzapX509TrustAnchor::StagingRoot);
    assert_eq!(trust_anchor_from(false, false), TzapX509TrustAnchor::Untrusted);
}

#[test]
fn verification_is_asked_for_where_there_is_a_signature_and_trust() {
    assert!(should_verify_opened_x509_root_auth(Some(X509_AUTHENTICATOR_ID), &trust(true, false)));
    assert!(!should_verify_opened_x509_root_auth(None, &trust(false, false)));
}

#[test]
fn failures_of_a_verification_are_told_apart() {
    let (root_cert, root_key) = test_ca_cert("Custom Root");
    let (leaf_cert, leaf_key) = test_leaf_cert("Archive Signer", &root_cert, &root_key);
    let (mut footer, _) = signed_footer(&leaf_cert, &leaf_key, Vec::new());

    assert!(matches!(
        verify_opened_x509_root_auth(Err(TzapError::PasswordRequired), Ok(facts(&footer)), None),
        Err(TzapError::PasswordRequired)
    ));
    assert!(verify_opened_x509_root_auth(Ok(()), Ok(facts(&footer)), None).is_err());
    assert!(verify_opened_x509_root_auth(
        Ok(()),
        Err(FormatFault::InvalidArchive("broken".to_owned())),
        Some(FooterOutcome::Failed("no chain".to_owned()))
    )
    .is_err());
    assert!(verify_tzap_x509_public_no_key(
        &trust(false, false),
        Ok(()),
        Ok(()),
        Ok(facts(&footer)),
        None
    )
    .is_err());

    assert!(check_public_profile(&footer).is_ok());
    footer.authenticator_id = 9;
    assert!(check_public_profile(&footer).is_err());
}

#[test]
fn names_fall_back_to_what_they_hold() {
    let parts = vec![
        NamePart { key: Some("CN".to_owned()), text: Some("Signer".to_owned()), raw: b"Signer".to_vec() },
        NamePart { key: Some("O".to_owned()), text: Some("TZAP".to_owned()), raw: b"TZAP".to_vec() },
    ];
    assert_eq!(x509_name_to_string(&parts), "CN=Signer, O=TZAP");
    assert_eq!(x509_name_to_string(&Vec::new()), "");
}

#[test]
fn a_clock_past_its_range_is_refused() {
    assert_eq!(unix_seconds_i64(1_700_000_000).unwrap(), 1_700_000_000);
    assert_eq!(unix_seconds_i64(i64::MAX as u64).unwrap(), i64::MAX);
    assert!(unix_seconds_i64(i64::MAX as u64 + 1).is_err());
    assert_eq!(current_unix_seconds_i64(&Ok(5)).unwrap(), 5);
    assert_eq!(
        current_unix_seconds_i64(&Err("before the epoch".to_owned())).unwrap_err(),
        TzapError::X509RootAuth("before the epoch".to_owned())
    );
}

fn facts(footer: &RootAuthFooter) -> RootAuthFacts {
    RootAuthFacts {
        archive_root: footer.archive_root,
        authenticator_id: footer.authenticator_id,
        signer_identity_type: footer.signer_identity_type,
        total_data_block_count: footer.total_data_block_count,
        diagnostics: vec!["content".to_owned()],
    }
}

fn test_ca_cert(cn: &str) -> (X509, PKey<Private>) {
    test_ca_cert_valid_from(cn, now_unix_seconds())
}

fn test_ca_cert_valid_from(cn: &str, not_before: i64) -> (X509, PKey<Private>) {
    let key = PKey::from_rsa(Rsa::generate(2048).unwrap()).unwrap();
    let mut name = X509NameBuilder::new().unwrap();
    name.append_entry_by_text("CN", cn).unwrap();
    let name = name.build();
    let mut builder = X509::builder().unwrap();
    builder.set_version(2).unwrap();
    builder.set_serial_number(&BigNum::from_u32(1).unwrap().to_asn1_integer().unwrap()).unwrap();
    builder.set_subject_name(&name).unwrap();
    builder.set_issuer_name(&name).unwrap();
    builder.set_pubkey(&key).unwrap();
    builder.set_not_before(&Asn1Time::from_unix(not_before).unwrap()).unwrap();
    builder.set_not_after(&Asn1Time::days_from_now(365).unwrap()).unwrap();
    builder.append_extension(BasicConstraints::new().critical().ca().build().unwrap()).unwrap();
    builder
        .append_extension(KeyUsage::new().critical().key_cert_sign().crl_sign().build().unwrap())
        .unwrap();
    builder.sign(&key, MessageDigest::sha256()).unwrap();
    (builder.build(), key)
}

fn test_leaf_cert(cn: &str, ca_cert: &X509, ca_key: &PKey<Private>) -> (X509, PKey<Private>) {
    test_leaf_cert_valid_between(
        cn,
        ca_cert,
        ca_key,
        now_unix_seconds(),
        now_unix_seconds() + 365 * 86_400,
    )
}

fn test_leaf_cert_valid_between(
    cn: &str,
    ca_cert: &X509,
    ca_key: &PKey<Private>,
    not_before: i64,
    not_after: i64,
) -> (X509, PKey<Private>) {
    let key = PKey::from_rsa(Rsa::generate(2048).unwrap()).unwrap();
    let mut name = X509NameBuilder::new().unwrap();
    name.append_entry_by_text("CN", cn).unwrap();
    let name = name.build();
    let mut builder = X509::builder().unwrap();
    builder.set_version(2).unwrap();
    builder.set_serial_number(&BigNum::from_u32(2).unwrap().to_asn1_integer().unwrap()).unwrap();
    builder.set_subject_name(&name).unwrap();
    builder.set_issuer_name(ca_cert.subject_name()).unwrap();
    builder.set_pubkey(&key).unwrap();
    builder.set_not_before(&Asn1Time::from_unix(not_before).unwrap()).unwrap();
    builder.set_not_after(&Asn1Time::from_unix(not_after).unwrap()).unwrap();
    builder.append_extension(BasicConstraints::new().build().unwrap()).unwrap();
    builder
        .append_extension(KeyUsage::new().critical().digital_signature().build().unwrap())
        .unwrap();
    builder.sign(ca_key, MessageDigest::sha256()).unwrap();
    (builder.build(), key)
}

fn now_unix_seconds() -> i64 {
    i64::try_from(SystemTime::now().duration_since(UNIX_EPOCH).unwrap().as_secs()).unwrap()
}

fn signed_footer(
    leaf_cert: &X509,
    leaf_key: &PKey<Private>,
    chain_der: Vec<Vec<u8>>,
) -> (RootAuthFooter, [u8; 32]) {
    signed_footer_at(leaf_cert, leaf_key, chain_der, now_unix_seconds())
}

fn signed_footer_at(
    leaf_cert: &X509,
    leaf_key: &PKey<Private>,
    chain_der: Vec<Vec<u8>>,
    signed_at_unix_seconds: i64,
) -> (RootAuthFooter, [u8; 32]) {
    let signer = X509RootAuthSigner::new(
        leaf_cert.to_der().unwrap(),
        leaf_key.clone(),
        chain_der,
        signed_at_unix_seconds,
    )
    .unwrap();
    let request = RootAuthSigningRequest {
        root_auth_spec_id: tzap_core::format::ROOT_AUTH_SPEC_ID,
        archive_uuid: [1; 16],
        session_id: [2; 16],
        archive_root: [3; 32],
    };
    let value = signer.authenticator_value_for_request(&request).unwrap();
    let footer = RootAuthFooter {
        archive_uuid: request.archive_uuid,
        session_id: request.session_id,
        format_version: tzap_core::format::FORMAT_VERSION,
        volume_format_rev: tzap_core::format::VOLUME_FORMAT_REV,
        authenticator_id: X509_AUTHENTICATOR_ID,
        signer_identity_type: X509_SIGNER_IDENTITY_TYPE_DER_CERT,
        signer_identity_bytes: leaf_cert.to_der().unwrap(),
        authenticator_value: value,
        total_data_block_count: 0,
        critical_metadata_digest: [0; 32],
        index_digest: [0; 32],
        fec_layout_digest: [0; 32],
        data_block_merkle_root: [0; 32],
        signer_identity_digest: [0; 32],
        archive_root: request.archive_root,
        footer_crc32c: 0,
    };
    (footer, request.archive_root)
}

fn signed_volumes(leaf_cert: &X509, leaf_key: &PKey<Private>) -> Vec<Vec<u8>> {
    let kdf = tzap_core::KdfParams::Argon2id {
        t_cost: 1,
        m_cost_kib: 8,
        parallelism: 1,
        salt: b"12345678".to_vec(),
    };
    let key = tzap_core::MasterKey::derive_from_passphrase(&kdf, "secret").unwrap();
    let signer = X509RootAuthSigner::from_pem_or_der(
        &leaf_cert.to_der().unwrap(),
        &leaf_key.private_key_to_der().unwrap(),
        Vec::new(),
        now_unix_seconds(),
    )
    .unwrap();
    let file = tzap_core::RegularFile::new("hello.txt", b"hello");
    tzap_core::writer::write_archive_with_root_auth_and_kdf(
        &[file],
        &key,
        tzap_core::WriterOptions::default(),
        &kdf,
        signer.root_auth_writer_config().unwrap(),
        |request| Ok(signer.authenticator_value_for_request(request).unwrap()),
    )
    .unwrap()
    .volumes
}

fn root_file(certificate: &X509) -> Vec<CertificateFile> {
    vec![CertificateFile {
        path: "root.pem".to_owned(),
        bytes: Ok(certificate.to_pem().unwrap()),
    }]
}

fn trust_in_files() -> TzapX509TrustOptions {
    TzapX509TrustOptions {
        trusted_ca_certificates: vec!["root.pem".to_owned()],
        trusted_system_roots: false,
        include_official_tzap_root: false,
    }
}

#[test]
fn a_signed_archive_in_memory_is_verified() {
    let (root_cert, root_key) = test_ca_cert("Custom Root");
    let (leaf_cert, leaf_key) = test_leaf_cert("Archive Signer", &root_cert, &root_key);
    let volumes = signed_volumes(&leaf_cert, &leaf_key);
    let trust = trust_in_files();

    let verify = |password: Option<&str>, roots: &Vec<CertificateFile>| {
        verify_tzap_volumes_x509("a.tzap", &volumes, password, &trust, &official_roots(), roots)
    };
    let report = verify(Some("secret"), &root_file(&root_cert)).unwrap();
    assert_eq!(report.subject, "CN=Archive Signer");
    assert_eq!(report.authenticator_id, X509_AUTHENTICATOR_ID);
    assert!(report.diagnostics.contains(&"root_auth_content_verified".to_owned()));

    let public = verify_tzap_volumes_x509_public_no_key(
        &volumes,
        &trust,
        &official_roots(),
        &root_file(&root_cert),
    )
    .unwrap();
    assert_eq!(public.subject, report.subject);
    assert_eq!(public.archive_root, report.archive_root);
    assert!(public.diagnostics.contains(&"public_data_block_commitment_verified".to_owned()));

    let (other_root, _) = test_ca_cert("Some Other Root");
    assert!(matches!(
        verify(Some("secret"), &root_file(&other_root)),
        Err(TzapError::X509RootAuth(message))
            if message.contains("root-auth authenticator verification failed")
    ));
    assert!(matches!(
        verify_tzap_volumes_x509_public_no_key(
            &volumes,
            &trust,
            &official_roots(),
            &root_file(&other_root)
        ),
        Err(TzapError::X509RootAuth(_))
    ));
    assert!(verify(Some("wrong"), &root_file(&root_cert)).is_err());
    assert!(verify(None, &root_file(&root_cert)).is_err());
    assert!(matches!(
        verify_tzap_volumes_x509_public_no_key(
            &volumes,
            &TzapX509TrustOptions { trusted_ca_certificates: Vec::new(), ..trust_in_files() },
            &official_roots(),
            &Vec::new()
        ),
        Err(TzapError::X509RootAuth(message))
            if message == "X.509 verification requires trusted roots"
    ));
}

#[test]
fn the_signer_of_an_archive_in_memory_is_shown() {
    let (root_cert, root_key) = test_ca_cert("Custom Root");
    let (leaf_cert, leaf_key) = test_leaf_cert("Archive Signer", &root_cert, &root_key);
    let volumes = signed_volumes(&leaf_cert, &leaf_key);

    let shown = inspect_tzap_volumes_x509_signer("a.tzap", &volumes, Some("secret")).unwrap();
    assert_eq!(shown.subject, "CN=Archive Signer");
    assert_eq!(shown.issuer, "CN=Custom Root");
    assert!(shown.diagnostics.contains(&"root_auth_content_verified".to_owned()));
    let public = inspect_tzap_volumes_x509_public_no_key_signer(&volumes).unwrap();
    assert_eq!(public.archive_root, shown.archive_root);
    assert_eq!(public.certificate_sha256, shown.certificate_sha256);
    assert!(public.diagnostics.contains(&"public_recovery_margin_unchecked".to_owned()));

    let mut damaged = signed_volumes(&leaf_cert, &leaf_key);
    let middle = damaged[0].len() / 2;
    damaged[0].truncate(middle);
    assert!(inspect_tzap_volumes_x509_public_no_key_signer(&damaged).is_err());
    assert!(inspect_tzap_volumes_x509_signer("a.tzap", &damaged, Some("secret")).is_err());
}
