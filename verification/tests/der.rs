use zmanager_core::der::{der_len, der_object, der_sequence, der_wrap};
use zmanager_core::x509_fixture::{
    ChainConfig, ChainIdentifiers, ExtensionPlan, certificate_fixture, certificate_policies_der,
    der_oid, intermediate_extensions, leaf_extensions, metadata_extension_bytes, metadata_fields,
    root_extensions, sha256_identifier,
};

fn identifiers() -> ChainIdentifiers {
    ChainIdentifiers {
        ca_policy: "1.3.6.1.4.1.55555.1.1".to_owned(),
        leaf_policy: "1.3.6.1.4.1.55555.1.2".to_owned(),
        document_signing: "1.3.6.1.4.1.55555.2.1".to_owned(),
        metadata_extension: "1.3.6.1.4.1.55555.3.1".to_owned(),
    }
}

#[test]
fn lengths_take_as_few_octets_as_they_can() {
    assert_eq!(der_len(0), vec![0]);
    assert_eq!(der_len(127), vec![127]);
    assert_eq!(der_len(128), vec![0x81, 128]);
    assert_eq!(der_len(255), vec![0x81, 255]);
    assert_eq!(der_len(256), vec![0x82, 1, 0]);
    assert_eq!(der_len(0xffff), vec![0x82, 0xff, 0xff]);
    assert_eq!(der_len(0x1_0002), vec![0x82, 0, 2]);
}

#[test]
fn contents_are_wrapped() {
    assert_eq!(der_wrap(0x04, &[1, 2, 3]), vec![0x04, 3, 1, 2, 3]);
    assert_eq!(der_sequence(&[]), vec![0x30, 0]);
    assert_eq!(der_object(&[0x55, 0x1d]), vec![0x06, 2, 0x55, 0x1d]);
    let long = der_sequence(&[7; 200]);
    assert_eq!(long[..3], [0x30, 0x81, 200]);
    assert_eq!(long.len(), 203);
}

#[test]
fn object_identifiers_are_encoded() {
    assert_eq!(der_oid("2.5.29.32"), Some(vec![0x06, 3, 0x55, 0x1d, 0x20]));
    assert_eq!(der_oid("not an identifier"), None);
    assert_eq!(
        certificate_policies_der(&["2.5.29.32", "2.5.29.31"]),
        Some(vec![
            0x30, 14, 0x30, 5, 0x06, 3, 0x55, 0x1d, 0x20, 0x30, 5, 0x06, 3, 0x55, 0x1d, 0x1f
        ])
    );
    assert_eq!(certificate_policies_der(&[]), Some(vec![0x30, 0]));
    assert_eq!(certificate_policies_der(&["2.5.29.32", "no such"]), None);
}

#[test]
fn metadata_is_canonical_json() {
    assert_eq!(metadata_fields("1.2.3").len(), 6);
    let bytes = metadata_extension_bytes("1.2.3").unwrap();
    assert_eq!(
        String::from_utf8(bytes).unwrap(),
        "{\"assurance_level\":\"oauth_verified_email\",\"policy_oid\":\"1.2.3\",\
         \"public_device_id\":\"pdev_0123456789ABCDEFGH\",\
         \"public_org_id\":\"porg_0123456789ABCDEFGH\",\
         \"public_signer_id\":\"psign_0123456789ABCDEFGH\",\"version\":1}"
    );
}

#[test]
fn extensions_follow_the_role_of_the_certificate() {
    assert_eq!(root_extensions().len(), 3);
    let intermediate = intermediate_extensions(vec![1]);
    assert_eq!(intermediate.len(), 6);
    assert_eq!(
        intermediate[5],
        ExtensionPlan::Der {
            oid: "2.5.29.31".to_owned(),
            critical: false,
            contents: vec![0x30, 0x00]
        }
    );
    assert_eq!(leaf_extensions("1.2", Some(vec![1]), "1.3", vec![2]).len(), 6);
    assert_eq!(leaf_extensions("1.2", None, "1.3", vec![2]).len(), 5);
    assert!(!ChainConfig::default().omit_leaf_policy);
}

#[test]
fn a_chain_leads_from_the_signer_to_the_root() {
    for omit_leaf_policy in [false, true] {
        let config = ChainConfig { omit_leaf_policy };
        let fixture = certificate_fixture(config, &identifiers()).unwrap();
        assert_eq!(fixture.chain_der.len(), 3);
        assert_eq!(fixture.chain_der[2], fixture.root_der);
        assert_eq!(fixture.root_sha256, sha256_identifier(&fixture.root_der));
        let certificates: Vec<openssl::x509::X509> = fixture
            .chain_der
            .iter()
            .map(|der| openssl::x509::X509::from_der(der).unwrap())
            .collect();
        for i in 0..2 {
            let issuer_key = certificates[i + 1].public_key().unwrap();
            assert!(certificates[i].verify(&issuer_key).unwrap());
        }
        assert!(certificates[2].verify(&certificates[2].public_key().unwrap()).unwrap());
        assert!(fixture.leaf_key.public_eq(&certificates[0].public_key().unwrap()));
    }
    let mut wrong = identifiers();
    wrong.ca_policy = "no such policy".to_owned();
    assert!(certificate_fixture(ChainConfig::default(), &wrong).is_err());
}

#[test]
fn digests_are_named() {
    assert_eq!(
        sha256_identifier(b"abc"),
        "sha256:ba7816bf8f01cfea414140de5dae2223b00361a396177a9cb410ff61f20015ad"
    );
}
