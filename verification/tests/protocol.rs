use std::cell::RefCell;
use std::rc::Rc;

use rand::rngs::OsRng;
use rsa::RSAPrivateKey;
use sha2::Digest;
use sha2::Sha256;

use geph4_cache::client::ClientCache;
use geph4_cache::data::AuthorityClient;
use geph4_cache::data::BinderRequest;
use geph4_cache::data::BinderResponse;
use geph4_cache::data::CacheError;
use geph4_cache::data::TransportError;
use geph4_cache::kv::CacheStore;
use geph4_cache::protocol::epoch_of;

/// A scripted authority with a real RSA signing key per level: it serves
/// the requested level's subkey, blind-signs authentication requests at
/// the levels the account is entitled to, and logs every request it
/// sees. The two levels use distinct keys, so a level/key mix-up in the
/// client fails verification.
struct MockBinder {
    plus_signer: RSAPrivateKey,
    free_signer: RSAPrivateKey,
    allow_plus: bool,
    allow_free: bool,
    garbage_signature: bool,
    epoch_key_failure: Option<TransportError>,
    zero_modulus_subkey: bool,
    zero_modulus_used_key: bool,
    huge_merkle_branch: bool,
    log: Rc<RefCell<Vec<String>>>,
    auth_digests: Rc<RefCell<Vec<Vec<u8>>>>,
}

/// The mizaru long-term key whose (single-subkey) Merkle root is the
/// given signing key.
fn root_of(signer: &RSAPrivateKey) -> mizaru::PublicKey {
    let encoded = bincode::serialize(&signer.to_public_key()).unwrap();
    mizaru::PublicKey::from(<[u8; 32]>::from(Sha256::digest(&encoded)))
}

impl MockBinder {
    fn new(allow_plus: bool, allow_free: bool) -> Self {
        let mut rng = OsRng {};
        let plus_signer = RSAPrivateKey::new(&mut rng, 512).expect("key generation");
        let free_signer = RSAPrivateKey::new(&mut rng, 512).expect("key generation");
        MockBinder {
            plus_signer,
            free_signer,
            allow_plus,
            allow_free,
            garbage_signature: false,
            epoch_key_failure: None,
            zero_modulus_subkey: false,
            zero_modulus_used_key: false,
            huge_merkle_branch: false,
            log: Rc::new(RefCell::new(vec![])),
            auth_digests: Rc::new(RefCell::new(vec![])),
        }
    }

    fn signer_for(&self, level: &str) -> &RSAPrivateKey {
        if level == "plus" {
            &self.plus_signer
        } else {
            &self.free_signer
        }
    }

    fn plus_key(&self) -> mizaru::PublicKey {
        root_of(&self.plus_signer)
    }

    fn free_key(&self) -> mizaru::PublicKey {
        root_of(&self.free_signer)
    }

    fn log_handle(&self) -> Rc<RefCell<Vec<String>>> {
        Rc::clone(&self.log)
    }

    fn digests_handle(&self) -> Rc<RefCell<Vec<Vec<u8>>>> {
        Rc::clone(&self.auth_digests)
    }
}

impl AuthorityClient for MockBinder {
    fn request(&self, req: BinderRequest) -> Result<BinderResponse, TransportError> {
        match req {
            BinderRequest::GetEpochKey { level, .. } => {
                self.log.borrow_mut().push(format!("epochkey:{}", level));
                if let Some(e) = &self.epoch_key_failure {
                    return Err(e.clone());
                }
                if self.zero_modulus_subkey {
                    return Ok(BinderResponse::GetEpochKeyResp(zero_modulus_key()));
                }
                Ok(BinderResponse::GetEpochKeyResp(self.signer_for(&level).to_public_key()))
            }
            BinderRequest::Authenticate { level, blinded_digest, .. } => {
                self.log.borrow_mut().push(format!("auth:{}", level));
                self.auth_digests.borrow_mut().push(blinded_digest.clone());
                let allowed = if level == "plus" { self.allow_plus } else { self.allow_free };
                if !allowed {
                    return Err(TransportError::WrongLevel);
                }
                if self.zero_modulus_used_key {
                    return Ok(BinderResponse::AuthenticateResp {
                        user_info: vec![7u8],
                        blind_signature: mizaru::BlindedSignature {
                            epoch: 0,
                            used_key: zero_modulus_key(),
                            merkle_branch: vec![],
                            blinded_sig: vec![1u8, 2, 3],
                        },
                    });
                }
                let signer = self.signer_for(&level);
                if self.huge_merkle_branch {
                    return Ok(BinderResponse::AuthenticateResp {
                        user_info: vec![7u8],
                        blind_signature: mizaru::BlindedSignature {
                            epoch: 0,
                            used_key: signer.to_public_key(),
                            merkle_branch: vec![[0u8; 32]; 65],
                            blinded_sig: vec![1u8, 2, 3],
                        },
                    });
                }
                let blinded_sig = if self.garbage_signature {
                    vec![1u8, 2, 3]
                } else {
                    let mut rng = OsRng {};
                    rsa_fdh::blind::sign(&mut rng, signer, &blinded_digest).unwrap()
                };
                Ok(BinderResponse::AuthenticateResp {
                    user_info: vec![7u8],
                    blind_signature: mizaru::BlindedSignature {
                        epoch: 0,
                        used_key: signer.to_public_key(),
                        merkle_branch: vec![],
                        blinded_sig,
                    },
                })
            }
            BinderRequest::GetBridges { .. } => {
                self.log.borrow_mut().push("bridges".to_string());
                Ok(BinderResponse::GetBridgesResp(vec![vec![42u8]]))
            }
            _ => Err(TransportError::Other("not scripted".to_string())),
        }
    }
}

/// An RSA public key with a zero modulus, as a hostile authority could
/// deliver it: built through deserialization, which validates nothing.
fn zero_modulus_key() -> rsa::RSAPublicKey {
    let raw =
        bincode::serialize(&(rsa::BigUint::from(0u32), rsa::BigUint::from(3u32))).unwrap();
    bincode::deserialize(&raw).unwrap()
}

fn cache_over(binder: MockBinder) -> ClientCache<MockBinder> {
    let free_pk = binder.free_key();
    let plus_pk = binder.plus_key();
    ClientCache::new("alice", "pw", free_pk, plus_pk, binder, CacheStore::new())
}

#[test]
fn plus_account_gets_a_plus_token() {
    let binder = MockBinder::new(true, true);
    let plus_pk = binder.plus_key();
    let free_pk = binder.free_key();
    let mut cc = cache_over(binder);
    let tok = cc.get_auth_token_at(1_000_000).unwrap();
    assert_eq!(tok.level, "plus");
    assert_eq!(tok.epoch, epoch_of(1_000_000));
    // the token's signature really verifies against the plus long-term
    // key, and against that key only
    assert!(plus_pk.blind_verify(&tok.unblinded_digest, &tok.unblinded_signature));
    assert!(!free_pk.blind_verify(&tok.unblinded_digest, &tok.unblinded_signature));
}

#[test]
fn wrong_level_advances_to_free_with_a_new_digest() {
    let binder = MockBinder::new(false, true);
    let log = binder.log_handle();
    let digests = binder.digests_handle();
    let plus_pk = binder.plus_key();
    let free_pk = binder.free_key();
    let mut cc = cache_over(binder);
    let tok = cc.get_auth_token_at(1_000_000).unwrap();
    assert_eq!(tok.level, "free");
    // a free token verifies under the free long-term key, not the plus one
    assert!(free_pk.blind_verify(&tok.unblinded_digest, &tok.unblinded_signature));
    assert!(!plus_pk.blind_verify(&tok.unblinded_digest, &tok.unblinded_signature));
    // plus was attempted first; its WrongLevel answer triggered exactly
    // one follow-up attempt, for free
    assert_eq!(
        *log.borrow(),
        vec![
            "epochkey:plus".to_string(),
            "auth:plus".to_string(),
            "epochkey:free".to_string(),
            "auth:free".to_string(),
        ]
    );
    // the follow-up attempt blinded a brand-new digest, not the plus one
    assert_eq!(digests.borrow().len(), 2);
    assert_ne!(digests.borrow()[0], digests.borrow()[1]);
}

#[test]
fn invalid_signature_aborts_without_trying_free() {
    let mut binder = MockBinder::new(true, true);
    binder.garbage_signature = true;
    let log = binder.log_handle();
    let mut cc = cache_over(binder);
    let err = cc.get_auth_token_at(1_000_000).unwrap_err();
    assert_eq!(err, CacheError::SignatureVerification);
    // the free level was never attempted
    assert_eq!(*log.borrow(), vec!["epochkey:plus".to_string(), "auth:plus".to_string()]);
    // nothing was stored
    assert!(cc.export_entries().is_empty());
}

#[test]
fn levels_exhausted_when_neither_works() {
    let binder = MockBinder::new(false, false);
    let mut cc = cache_over(binder);
    assert_eq!(cc.get_auth_token_at(1_000_000).unwrap_err(), CacheError::LevelsExhausted);
}

#[test]
fn token_is_cached_for_a_day() {
    let binder = MockBinder::new(true, true);
    let log = binder.log_handle();
    let mut cc = cache_over(binder);
    cc.get_auth_token_at(1_000_000).unwrap();
    let n_first = log.borrow().len();
    // within 24 h the stored token is returned without authority contact
    let tok = cc.get_auth_token_at(1_000_000 + 86399).unwrap();
    assert_eq!(tok.level, "plus");
    assert_eq!(log.borrow().len(), n_first);
    // past 24 h a new acquisition runs
    cc.get_auth_token_at(1_000_000 + 86400).unwrap();
    assert!(log.borrow().len() > n_first);
}

#[test]
fn bridges_need_a_token_and_cache_per_hostname() {
    let binder = MockBinder::new(true, true);
    let log = binder.log_handle();
    let mut cc = cache_over(binder);
    let bridges = cc.get_bridges_at("exit1.example", 1_000_000).unwrap();
    assert_eq!(bridges, vec![vec![42u8]]);
    assert!(log.borrow().contains(&"bridges".to_string()));
    // a second read within five minutes is served from the store
    let n = log.borrow().len();
    let again = cc.get_bridges_at("exit1.example", 1_000_000 + 299).unwrap();
    assert_eq!(again, vec![vec![42u8]]);
    assert_eq!(log.borrow().len(), n);
    // purging the hostname forces fresh discovery on the next attempt
    cc.purge_bridges("exit1.example").unwrap();
    cc.get_bridges_at("exit1.example", 1_000_000 + 299).unwrap();
    assert!(log.borrow().len() > n);
}

#[test]
fn token_failure_propagates_out_of_bridges() {
    let binder = MockBinder::new(false, false);
    let mut cc = cache_over(binder);
    assert_eq!(
        cc.get_bridges_at("exit1.example", 1_000_000),
        Err(CacheError::LevelsExhausted),
    );
}

#[test]
fn epoch_is_the_day_number() {
    assert_eq!(epoch_of(0), 0);
    assert_eq!(epoch_of(86400 * 5 + 3), 5);
    // the day number wraps at the 16-bit range the protocol carries
    assert_eq!(epoch_of(86400 * 65536), 0);
}

#[test]
fn epoch_key_failure_aborts_the_whole_acquisition() {
    // a transport failure on the subkey fetch is not a WrongLevel signal:
    // it aborts instead of degrading to the lower tier
    let mut binder = MockBinder::new(true, true);
    binder.epoch_key_failure = Some(TransportError::WrongLevel);
    let mut cc = cache_over(binder);
    assert_eq!(cc.get_auth_token_at(1_000_000).unwrap_err(), CacheError::WrongLevel);

    let mut binder = MockBinder::new(true, true);
    binder.epoch_key_failure = Some(TransportError::Timeout);
    let mut cc = cache_over(binder);
    assert_eq!(cc.get_auth_token_at(1_000_000).unwrap_err(), CacheError::Timeout);
}

#[test]
fn degenerate_subkey_is_a_clean_fatal_error() {
    // a hostile authority serves a zero-modulus epoch subkey: the
    // acquisition must fail cleanly, not crash
    let mut binder = MockBinder::new(true, true);
    binder.zero_modulus_subkey = true;
    let mut cc = cache_over(binder);
    assert!(matches!(
        cc.get_auth_token_at(1_000_000),
        Err(CacheError::Transport(_))
    ));
}

#[test]
fn degenerate_embedded_key_fails_verification_cleanly() {
    // a hostile authority embeds a zero-modulus key inside its own
    // authentication response: the unblinding step must refuse it as a
    // signature-verification failure, without attempting the free level
    let mut binder = MockBinder::new(true, true);
    binder.zero_modulus_used_key = true;
    let log = binder.log_handle();
    let mut cc = cache_over(binder);
    assert_eq!(
        cc.get_auth_token_at(1_000_000).unwrap_err(),
        CacheError::SignatureVerification
    );
    assert_eq!(*log.borrow(), vec!["epochkey:plus".to_string(), "auth:plus".to_string()]);
}

#[test]
fn oversized_merkle_branch_fails_verification_cleanly() {
    // a hostile authority sends a Merkle branch longer than the machine
    // word, which would overflow the epoch shift inside verification:
    // the signature is refused as invalid, without a crash and without
    // attempting the free level
    let mut binder = MockBinder::new(true, true);
    binder.huge_merkle_branch = true;
    let log = binder.log_handle();
    let mut cc = cache_over(binder);
    assert_eq!(
        cc.get_auth_token_at(1_000_000).unwrap_err(),
        CacheError::SignatureVerification
    );
    assert_eq!(*log.borrow(), vec!["epochkey:plus".to_string(), "auth:plus".to_string()]);
}
