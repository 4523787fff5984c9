use vstd::prelude::*;

use crate::ChainSpecError;
use sp_core::Pair;
use sp_runtime::traits::IdentifyAccount;

verus! {

/// A derived sr25519 public key; only the public half is ever retained.
#[derive(Clone, Copy, Debug, PartialEq, Eq)]
pub struct PublicKey(pub [u8; 32]);

impl View for PublicKey {
    type V = Seq<u8>;

    open spec fn view(&self) -> Seq<u8> {
        self.0@
    }
}

/// A fixed-size account identifier, derived deterministically from a public key.
#[derive(Clone, Copy, Debug, PartialEq, Eq)]
pub struct AccountId(pub [u8; 32]);

impl View for AccountId {
    type V = Seq<u8>;

    open spec fn view(&self) -> Seq<u8> {
        self.0@
    }
}

/// Public key of the type used for block-authoring slot assignment.
#[derive(Clone, Copy, Debug, PartialEq, Eq)]
pub struct CollatorKey(pub [u8; 32]);

impl View for CollatorKey {
    type V = Seq<u8>;

    open spec fn view(&self) -> Seq<u8> {
        self.0@
    }
}

/// The per-role consensus keys of a collator; currently one role ("aura").
#[derive(Clone, Copy, Debug, PartialEq, Eq)]
pub struct SessionKeys {
    pub aura: CollatorKey,
}

/// The sr25519 public key that the key-derivation scheme assigns to a seed
/// `s`, derived along the hard junction `//s`: `Some` bytes when the
/// derivation path parses, `None` when it does not. The derivation depends on
/// the seed alone, which is what makes independently built networks agree.
pub uninterp spec fn sr25519_public_of(seed: Seq<char>) -> Option<Seq<u8>>;

/// Generates a crypto pair from a seed and returns its public half.
///
/// Relies on sp_core::crypto::Pair::from_string (and Pair::public) for
/// sr25519: the derivation reads only the seed string, so the outcome is a
/// function of the seed alone; it fails exactly when the derivation path
/// cannot be parsed into a key.
#[verifier::external_body]
pub fn get_from_seed(seed: &str) -> (r: Result<PublicKey, ChainSpecError>)
    ensures
        r is Ok <==> sr25519_public_of(seed@) is Some,
        r is Ok ==> r->Ok_0@ == sr25519_public_of(seed@)->Some_0,
        r is Err ==> r->Err_0 == ChainSpecError::InvalidSeed,
{
    match sp_core::sr25519::Pair::from_string(&format!("//{}", seed), None) {
        Ok(pair) => Ok(PublicKey(pair.public().into())),
        Err(_) => Err(ChainSpecError::InvalidSeed),
    }
}

/// Resolves a public key to its account identifier.
///
/// Relies on sp_runtime::MultiSigner::into_account: for an sr25519 public key
/// the signer-extraction rule yields the 32 public-key bytes unchanged.
#[verifier::external_body]
fn account_of_public(key: &PublicKey) -> (r: AccountId)
    ensures
        r@ == key@,
{
    let signer = sp_runtime::MultiSigner::from(sp_core::sr25519::Public::from(key.0));
    AccountId(signer.into_account().into())
}

/// Generates an account identifier from a seed: the key derived from the seed,
/// passed through the signature scheme's signer-extraction rule.
pub fn get_account_id_from_seed(seed: &str) -> (r: Result<AccountId, ChainSpecError>)
    ensures
        r is Ok <==> sr25519_public_of(seed@) is Some,
        r is Ok ==> r->Ok_0@ == sr25519_public_of(seed@)->Some_0,
        r is Err ==> r->Err_0 == ChainSpecError::InvalidSeed,
{
    match get_from_seed(seed) {
        Ok(key) => Ok(account_of_public(&key)),
        Err(e) => Err(e),
    }
}

/// Generates collator keys from a seed.
///
/// The collator key type must always match the session keys of the chain: its
/// key material is the same sr25519 derivation as the plain public key.
pub fn get_collator_keys_from_seed(seed: &str) -> (r: Result<CollatorKey, ChainSpecError>)
    ensures
        r is Ok <==> sr25519_public_of(seed@) is Some,
        r is Ok ==> r->Ok_0@ == sr25519_public_of(seed@)->Some_0,
        r is Err ==> r->Err_0 == ChainSpecError::InvalidSeed,
{
    match get_from_seed(seed) {
        Ok(key) => Ok(CollatorKey(key.0)),
        Err(e) => Err(e),
    }
}

/// Generates the session keys from the individual per-role keys (a single
/// argument for now, since there is just one role).
pub fn pop_session_keys(keys: CollatorKey) -> (r: SessionKeys)
    ensures
        r.aura == keys,
{
    SessionKeys { aura: keys }
}

} // verus!
