//! Wallets: an Ed25519 key pair, the address derived from it, and signed
//! transfers made with it.

use vstd::prelude::*;
use vstd::utf8::encode_utf8;

use crate::blockchain::APXS_DEFAULT_FEE;
use crate::crypto::{ed25519_public_key, ed25519_signature, public_key_of, generate_secret_key, sha256, sign};
use crate::text::{all_lower_hex, push_decimal, to_hex_lower};
use crate::transaction::{address_of, legacy_message, SignedTransaction};

verus! {

/// An APXS wallet.
pub struct Wallet {
    signing_key: [u8; 32],
    verifying_key: [u8; 32],
    address: String,
}

impl Wallet {
    /// The 32-byte Ed25519 secret key.
    pub closed spec fn secret_key(self) -> Seq<u8> {
        self.signing_key@
    }

    /// The public key stored beside it.
    pub closed spec fn public_key(self) -> Seq<u8> {
        self.verifying_key@
    }

    /// The wallet's address.
    pub closed spec fn address_text(self) -> Seq<char> {
        self.address@
    }

    /// The public key belongs to the secret key and the address to the public
    /// key (sixty-four lowercase hexadecimal digits).
    pub open spec fn wf(self) -> bool {
        &&& self.public_key() == ed25519_public_key(self.secret_key())
        &&& self.address_text() == address_of(self.public_key())
        &&& self.address_text().len() == 64
        &&& all_lower_hex(self.address_text())
    }

    /// Every wallet is well formed.
    #[verifier::type_invariant]
    spec fn keys_and_address_agree(self) -> bool {
        self.wf()
    }

    /// The wallet's address: the lowercase hexadecimal SHA-256 digest of its
    /// public key.
    pub fn address(&self) -> (r: &str)
        ensures
            r@ == self.address_text(),
            r@ == address_of(ed25519_public_key(self.secret_key())),
            self.wf(),
    {
        proof {
            use_type_invariant(self);
        }
        self.address.as_str()
    }

    /// The address of a public key.
    fn address_from_public_key(public_key: &[u8; 32]) -> (r: String)
        ensures
            r@ == address_of(public_key@),
            r@.len() == 64,
            all_lower_hex(r@),
    {
        let digest = sha256(public_key.as_slice());
        to_hex_lower(digest.as_slice())
    }

    /// The wallet of a secret key.
    fn from_signing_key(signing_key: [u8; 32]) -> (w: Wallet)
        ensures
            w.secret_key() == signing_key@,
            w.wf(),
    {
        let verifying_key = public_key_of(&signing_key);
        let address = Self::address_from_public_key(&verifying_key);
        Wallet { signing_key, verifying_key, address }
    }

    /// A wallet with a fresh random secret key, or `None` where the system's
    /// random source fails.
    pub fn new() -> (r: Option<Wallet>)
        ensures
            r matches Some(w) ==> w.wf(),
    {
        match generate_secret_key() {
            Some(key) => Some(Self::from_signing_key(key)),
            None => None,
        }
    }

    /// The wallet whose secret key is `bytes`, which must be exactly 32 bytes.
    pub fn from_key_bytes(bytes: &[u8]) -> (r: Result<Wallet, String>)
        ensures
            r is Ok <==> bytes@.len() == 32,
            r matches Ok(w) ==> {
                &&& w.secret_key() == bytes@
                &&& w.public_key() == ed25519_public_key(bytes@)
                &&& w.address_text() == address_of(ed25519_public_key(bytes@))
                &&& w.wf()
            },
            r matches Err(e) ==> e@ == "Invalid wallet file: private key must be 32 bytes."@,
    {
        if bytes.len() != 32 {
            return Err("Invalid wallet file: private key must be 32 bytes.".to_owned());
        }
        let mut key = [0u8; 32];
        for i in 0..32
            invariant
                bytes@.len() == 32,
                forall|j: int| 0 <= j < i ==> key@[j] == bytes@[j],
        {
            key[i] = bytes[i];
        }
        assert(key@ =~= bytes@);
        Ok(Self::from_signing_key(key))
    }

    /// The secret key, as stored in a wallet file.
    pub fn signing_key_bytes(&self) -> (r: [u8; 32])
        ensures
            r@ == self.secret_key(),
            self.wf(),
    {
        proof {
            use_type_invariant(self);
        }
        self.signing_key
    }

    /// The public key.
    pub fn verifying_key_bytes(&self) -> (r: [u8; 32])
        ensures
            r@ == self.public_key(),
            r@ == ed25519_public_key(self.secret_key()),
            self.wf(),
    {
        proof {
            use_type_invariant(self);
        }
        self.verifying_key
    }

    /// A transfer of `amount` to `recipient` with the minimum fee, signed
    /// over its current-format message. It passes `verify_signature` exactly
    /// when the amount is positive and the recipient is non-empty and not the
    /// wallet itself.
    pub fn create_transaction(&self, recipient: &str, amount: u64, nonce: u64) -> (r:
        SignedTransaction)
        ensures
            r.sender@ == self.address_text(),
            r.recipient@ == recipient@,
            r.amount == amount,
            r.nonce == nonce,
            r.fee == APXS_DEFAULT_FEE,
            r.public_key@ == self.public_key(),
            r.signature@ == ed25519_signature(self.secret_key(), encode_utf8(r.message_text())),
            r.signature_valid() <==> (amount != 0 && recipient@.len() != 0 && recipient@
                != self.address_text()),
            self.wf(),
    {
        proof {
            use_type_invariant(self);
        }
        let fee = APXS_DEFAULT_FEE;
        let mut message = legacy_message(self.address.as_str(), recipient, amount, nonce);
        push_decimal(&mut message, fee);
        let signature = sign(&self.signing_key, message.as_str().as_bytes());
        SignedTransaction {
            sender: self.address.clone(),
            recipient: recipient.to_owned(),
            amount,
            nonce,
            fee,
            public_key: self.verifying_key,
            signature,
        }
    }
}

/// A well-formed wallet is determined by its secret key: two well-formed
/// wallets with the same secret key have the same public key and address.
pub proof fn lemma_wallet_determined_by_secret(a: Wallet, b: Wallet)
    requires
        a.wf(),
        b.wf(),
        a.secret_key() == b.secret_key(),
    ensures
        a.public_key() == b.public_key(),
        a.address_text() == b.address_text(),
{
}

} // verus!
