use ferro_core::admission_snapshot::{
    check_latest_binding, check_manifest_header, check_manifest_unchanged, check_trust_bundle,
    verify_artifact_digest, AdmissionArtifact, AdmissionSnapshotManifest,
};
use sha2::Digest;

const JOURNAL: [u8; 16] = [0x11; 16];
const RFC8032_PUBLIC: &str = "d75a980182b10ab7d54bfed3c964073a0ee172f3daa62325af021a68f707511a";

fn artifact(file: &str, sha256: &str) -> AdmissionArtifact {
    AdmissionArtifact { file: file.to_string(), sha256: sha256.to_string() }
}

fn manifest() -> AdmissionSnapshotManifest {
    AdmissionSnapshotManifest {
        schema: 1,
        generation: 3,
        journal_id: "11".repeat(16),
        trust_bundle: artifact("trust.json", ""),
        minimum_checkpoint: artifact("checkpoint-1", ""),
        checkpoint_chain: vec![artifact("checkpoint-1", ""), artifact("checkpoint-2", "")],
        latest_checkpoint: "checkpoint-2".to_string(),
        latest_created_at_secs: 1_700_000_000,
        trust_key_ids: Vec::new(),
    }
}

fn key_id(hex_key: &str) -> String {
    hex::encode(sha2::Sha256::digest(hex::decode(hex_key).unwrap()))
}

#[test]
fn manifest_header_binds_schema_generation_and_journal() {
    assert!(check_manifest_header(&manifest(), &JOURNAL).is_ok());
    let mut old = manifest();
    old.schema = 2;
    assert_eq!(
        check_manifest_header(&old, &JOURNAL).unwrap_err().message(),
        "runtime mutation mediation failed: unsupported admission manifest"
    );
    let mut fresh = manifest();
    fresh.generation = 0;
    assert!(check_manifest_header(&fresh, &JOURNAL).is_err());
    let mut foreign = manifest();
    foreign.journal_id = "22".repeat(16);
    assert_eq!(
        check_manifest_header(&foreign, &JOURNAL).unwrap_err().message(),
        "runtime mutation mediation failed: admission manifest journal/chain mismatch"
    );
    let mut empty = manifest();
    empty.checkpoint_chain.clear();
    assert!(check_manifest_header(&empty, &JOURNAL).is_err());
}

#[test]
fn artifacts_must_match_their_recorded_digest() {
    let good = artifact("trust.json", "ba7816bf8f01cfea414140de5dae2223b00361a396177a9cb410ff61f20015ad");
    assert!(verify_artifact_digest(&good, b"abc").is_ok());
    assert_eq!(
        verify_artifact_digest(&good, b"abd").unwrap_err().message(),
        "runtime mutation mediation failed: admission artifact digest mismatch"
    );
}

#[test]
fn trust_bundle_pins_journal_and_listed_valid_key() {
    let journal_hex = "11".repeat(16);
    let ids = vec![key_id(RFC8032_PUBLIC)];
    let key = check_trust_bundle(&JOURNAL, Some(&journal_hex), Some(RFC8032_PUBLIC), &ids).unwrap();
    assert_eq!(hex::encode(key), RFC8032_PUBLIC);

    let message = |r: Result<Vec<u8>, ferro_core::error::RuntimeError>| r.unwrap_err().message();
    assert!(message(check_trust_bundle(&JOURNAL, None, Some(RFC8032_PUBLIC), &ids)).ends_with("trust bundle lacks journal_id"));
    assert!(message(check_trust_bundle(&JOURNAL, Some("00"), Some(RFC8032_PUBLIC), &ids)).ends_with("trust bundle journal ID mismatch"));
    assert!(message(check_trust_bundle(&JOURNAL, Some(&journal_hex), None, &ids)).ends_with("trust bundle lacks initial_public_key"));
    assert!(message(check_trust_bundle(&JOURNAL, Some(&journal_hex), Some("zz"), &ids)).ends_with("invalid hexadecimal trust value"));
    assert!(message(check_trust_bundle(&JOURNAL, Some(&journal_hex), Some(RFC8032_PUBLIC), &[])).ends_with("admission manifest omits the initial trust key ID"));
}

#[test]
fn trust_bundle_refuses_a_key_off_the_curve() {
    let journal_hex = "11".repeat(16);
    let invalid = (0u8..=255)
        .map(|first| {
            let mut bytes = [0u8; 32];
            bytes[0] = first;
            bytes[31] = 0x7f;
            bytes
        })
        .find(|bytes| ed25519_dalek::VerifyingKey::from_bytes(bytes).is_err())
        .expect("some encoding is not a curve point");
    let text = hex::encode(invalid);
    let ids = vec![key_id(&text)];
    let error = check_trust_bundle(&JOURNAL, Some(&journal_hex), Some(&text), &ids).unwrap_err();
    assert_eq!(error.message(), "runtime mutation mediation failed: trust bundle public key is invalid");
}

#[test]
fn latest_checkpoint_and_stability_bindings() {
    let m = manifest();
    assert!(check_latest_binding(&m, 1_700_000_000).is_ok());
    assert!(check_latest_binding(&m, 1_700_000_001).is_err());
    let mut renamed = manifest();
    renamed.latest_checkpoint = "checkpoint-1".to_string();
    assert_eq!(
        check_latest_binding(&renamed, 1_700_000_000).unwrap_err().message(),
        "runtime mutation mediation failed: admission manifest latest checkpoint binding mismatch"
    );
    assert!(check_manifest_unchanged(b"{\"g\":3}", 3, b"{\"g\":3}", 3).is_ok());
    assert!(check_manifest_unchanged(b"{\"g\":3}", 3, b"{\"g\":4}", 3).is_err());
    assert_eq!(
        check_manifest_unchanged(b"{}", 3, b"{}", 4).unwrap_err().message(),
        "runtime mutation mediation failed: admission manifest changed during load"
    );
}
