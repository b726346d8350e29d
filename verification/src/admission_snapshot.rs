//! The checks that bind a mutation-admission snapshot on disk to the
//! witness journal it belongs to: the manifest's header, the digests of its
//! artifacts, the pinned trust key, the latest checkpoint and the manifest's
//! stability while it is loaded.

use crate::error::{ErrorView, RuntimeError};
use crate::hashing::{hex_encode, hex_lower, sha256, sha256_digest};
use crate::host::{decode_fixed_hex, fixed_hex};
use crate::records::string_eq;
use crate::text::{str_eq, strs_of};
use vstd::prelude::*;
use vstd::string::StringExecFns;

verus! {

/// Whether 32 bytes are the compressed form of a point on the Ed25519
/// curve, as the key decoder of `ed25519-dalek` decides.
pub uninterp spec fn ed25519_point_valid(bytes: Seq<u8>) -> bool;

/// `ed25519_dalek::VerifyingKey::from_bytes`, reduced to whether it accepts
/// the bytes; the contract names that answer as a function of the bytes and
/// states nothing else of the curve arithmetic.
#[verifier::external_body]
fn ed25519_key_valid(bytes: &[u8; 32]) -> (r: bool)
    ensures
        r == ed25519_point_valid(bytes@),
{
    ed25519_dalek::VerifyingKey::from_bytes(bytes).is_ok()
}

/// A file of the snapshot and the SHA-256 digest (lowercase hex) it must have.
#[derive(Debug, Clone, PartialEq, Eq)]
pub struct AdmissionArtifact {
    pub file: String,
    pub sha256: String,
}

/// The manifest of an admission snapshot.
#[derive(Debug, Clone, PartialEq, Eq)]
pub struct AdmissionSnapshotManifest {
    pub schema: u32,
    pub generation: u64,
    /// The journal id, as lowercase hex.
    pub journal_id: String,
    pub trust_bundle: AdmissionArtifact,
    pub minimum_checkpoint: AdmissionArtifact,
    pub checkpoint_chain: Vec<AdmissionArtifact>,
    /// The file of the newest checkpoint.
    pub latest_checkpoint: String,
    pub latest_created_at_secs: u64,
    /// The ids (hex SHA-256 of the public key) of the trusted keys.
    pub trust_key_ids: Vec<String>,
}

pub open spec fn refused(message: Seq<char>) -> ErrorView {
    ErrorView::Authorization(message)
}

pub open spec fn manifest_header_check(m: AdmissionSnapshotManifest, journal_id: Seq<u8>) -> Result<
    (),
    ErrorView,
> {
    if m.schema != 1 || m.generation == 0 {
        Err(refused("unsupported admission manifest"@))
    } else if m.journal_id@ != hex_lower(journal_id) || m.checkpoint_chain@.len() == 0 {
        Err(refused("admission manifest journal/chain mismatch"@))
    } else {
        Ok(())
    }
}

/// A manifest is read only in schema 1 with a non-zero generation, naming
/// the journal it is loaded for and a non-empty checkpoint chain.
pub fn check_manifest_header(manifest: &AdmissionSnapshotManifest, journal_id: &[u8; 16]) -> (r:
    Result<(), RuntimeError>)
    ensures
        match r {
            Ok(()) => manifest_header_check(*manifest, journal_id@) is Ok,
            Err(e) => manifest_header_check(*manifest, journal_id@) == Err::<(), ErrorView>(e@),
        },
{
    if manifest.schema != 1 || manifest.generation == 0 {
        return Err(RuntimeError::Authorization(String::from_str("unsupported admission manifest")));
    }
    let expected = hex_encode(journal_id);
    if !string_eq(&manifest.journal_id, &expected) || manifest.checkpoint_chain.len() == 0 {
        return Err(
            RuntimeError::Authorization(
                String::from_str("admission manifest journal/chain mismatch"),
            ),
        );
    }
    Ok(())
}

/// An artifact's bytes are accepted only when their SHA-256 digest is the
/// one the manifest records.
pub fn verify_artifact_digest(artifact: &AdmissionArtifact, bytes: &[u8]) -> (r: Result<
    (),
    RuntimeError,
>)
    ensures
        r is Ok <==> hex_lower(sha256_digest(bytes@)) == artifact.sha256@,
        r matches Err(e) ==> e@ == refused("admission artifact digest mismatch"@),
{
    let digest = sha256(bytes);
    let text = hex_encode(&digest);
    if !string_eq(&text, &artifact.sha256) {
        return Err(
            RuntimeError::Authorization(String::from_str("admission artifact digest mismatch")),
        );
    }
    Ok(())
}

/// What the trust bundle must say: the same journal id, an initial public
/// key of 32 hex-encoded bytes whose id the manifest lists, and that is a
/// valid Ed25519 key.
pub open spec fn trust_bundle_check(
    journal_id: Seq<u8>,
    pinned_id: Option<Seq<char>>,
    public_key: Option<Seq<char>>,
    trust_key_ids: Seq<Seq<char>>,
) -> Result<Seq<u8>, ErrorView> {
    match pinned_id {
        None => Err(refused("trust bundle lacks journal_id"@)),
        Some(p) => if p != hex_lower(journal_id) {
            Err(refused("trust bundle journal ID mismatch"@))
        } else {
            match public_key {
                None => Err(refused("trust bundle lacks initial_public_key"@)),
                Some(k) => match fixed_hex(k, 32) {
                    Err(e) => Err(e),
                    Ok(key) => if !trust_key_ids.contains(hex_lower(sha256_digest(key))) {
                        Err(refused("admission manifest omits the initial trust key ID"@))
                    } else if !ed25519_point_valid(key) {
                        Err(refused("trust bundle public key is invalid"@))
                    } else {
                        Ok(key)
                    },
                },
            }
        },
    }
}

/// Checks the trust bundle's `journal_id` and `initial_public_key` fields
/// (`None` where the bundle lacks one) and returns the public key.
pub fn check_trust_bundle(
    journal_id: &[u8; 16],
    pinned_id: Option<&str>,
    public_key: Option<&str>,
    trust_key_ids: &[String],
) -> (r: Result<Vec<u8>, RuntimeError>)
    ensures
        match r {
            Ok(key) => trust_bundle_check(
                journal_id@,
                crate::paths::opt_view(pinned_id),
                crate::paths::opt_view(public_key),
                strs_of(trust_key_ids@),
            ) == Ok::<Seq<u8>, ErrorView>(key@),
            Err(e) => trust_bundle_check(
                journal_id@,
                crate::paths::opt_view(pinned_id),
                crate::paths::opt_view(public_key),
                strs_of(trust_key_ids@),
            ) == Err::<Seq<u8>, ErrorView>(e@),
        },
{
    let expected = hex_encode(journal_id);
    let pinned = match pinned_id {
        None => {
            return Err(
                RuntimeError::Authorization(String::from_str("trust bundle lacks journal_id")),
            );
        },
        Some(p) => p,
    };
    if !str_eq(pinned, expected.as_str()) {
        return Err(
            RuntimeError::Authorization(String::from_str("trust bundle journal ID mismatch")),
        );
    }
    let text = match public_key {
        None => {
            return Err(
                RuntimeError::Authorization(String::from_str("trust bundle lacks initial_public_key")),
            );
        },
        Some(k) => k,
    };
    let key = decode_fixed_hex(text, 32)?;
    let key_id = hex_encode(&sha256(key.as_slice()));
    let ghost ids = strs_of(trust_key_ids@);
    let mut listed = false;
    let mut i: usize = 0;
    while i < trust_key_ids.len()
        invariant
            i <= trust_key_ids@.len(),
            ids == strs_of(trust_key_ids@),
            listed == exists|j: int| 0 <= j < i && ids[j] == key_id@,
        decreases trust_key_ids.len() - i,
    {
        assert(ids[i as int] == trust_key_ids@[i as int]@);
        if string_eq(&trust_key_ids[i], &key_id) {
            listed = true;
        }
        i += 1;
    }
    proof {
        assert(listed <==> ids.contains(key_id@));
    }
    if !listed {
        return Err(
            RuntimeError::Authorization(
                String::from_str("admission manifest omits the initial trust key ID"),
            ),
        );
    }
    let mut bytes: [u8; 32] = [0u8; 32];
    let mut j: usize = 0;
    while j < 32
        invariant
            j <= 32,
            key@.len() == 32,
            forall|k: int| 0 <= k < j ==> bytes@[k] == key@[k],
        decreases 32 - j,
    {
        bytes.set(j, key[j]);
        j += 1;
    }
    proof {
        assert(bytes@ =~= key@);
    }
    if !ed25519_key_valid(&bytes) {
        return Err(
            RuntimeError::Authorization(String::from_str("trust bundle public key is invalid")),
        );
    }
    Ok(key)
}

pub open spec fn latest_binding_check(m: AdmissionSnapshotManifest, latest_created_at_secs: u64) -> Result<
    (),
    ErrorView,
> {
    if m.checkpoint_chain@.len() == 0 || m.checkpoint_chain@.last().file@ != m.latest_checkpoint@
        || latest_created_at_secs != m.latest_created_at_secs {
        Err(refused("admission manifest latest checkpoint binding mismatch"@))
    } else {
        Ok(())
    }
}

/// The newest checkpoint of the chain is the one the manifest names, created
/// when the manifest says (`latest_created_at_secs` is read from it).
pub fn check_latest_binding(manifest: &AdmissionSnapshotManifest, latest_created_at_secs: u64) -> (r:
    Result<(), RuntimeError>)
    ensures
        match r {
            Ok(()) => latest_binding_check(*manifest, latest_created_at_secs) is Ok,
            Err(e) => latest_binding_check(*manifest, latest_created_at_secs) == Err::<
                (),
                ErrorView,
            >(e@),
        },
{
    let n = manifest.checkpoint_chain.len();
    if n == 0 || !string_eq(&manifest.checkpoint_chain[n - 1].file, &manifest.latest_checkpoint)
        || latest_created_at_secs != manifest.latest_created_at_secs {
        return Err(
            RuntimeError::Authorization(
                String::from_str("admission manifest latest checkpoint binding mismatch"),
            ),
        );
    }
    Ok(())
}

/// The manifest read again at the end of loading must be byte for byte the
/// one read at the start, with the same generation.
pub fn check_manifest_unchanged(
    first: &[u8],
    first_generation: u64,
    confirmation: &[u8],
    confirmed_generation: u64,
) -> (r: Result<(), RuntimeError>)
    ensures
        r is Ok <==> (first_generation == confirmed_generation && first@ == confirmation@),
        r matches Err(e) ==> e@ == refused("admission manifest changed during load"@),
{
    let mut same = first.len() == confirmation.len();
    if same {
        let mut i: usize = 0;
        while i < first.len()
            invariant
                first@.len() == confirmation@.len(),
                i <= first@.len(),
                same == forall|k: int| 0 <= k < i ==> first@[k] == confirmation@[k],
            decreases first.len() - i,
        {
            if first[i] != confirmation[i] {
                same = false;
            }
            i += 1;
        }
        proof {
            if same {
                assert(first@ =~= confirmation@);
            }
        }
    }
    if confirmed_generation != first_generation || !same {
        return Err(
            RuntimeError::Authorization(String::from_str("admission manifest changed during load")),
        );
    }
    Ok(())
}

} // verus!
