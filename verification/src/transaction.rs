//! Signed APXS transfers: the signed message formats (legacy and current),
//! the sender address derived from the public key, and signature checking.

use vstd::prelude::*;
use vstd::string::StringExecFns;
use vstd::utf8::encode_utf8;

use crate::crypto::{ed25519_verify, sha256, sha256_digest, verify};
use crate::text::{all_lower_hex, decimal, hex_lower, push_decimal, to_hex_lower};

verus! {

/// A transfer of `amount` atomic units from `sender` to `recipient`, paying
/// `fee`, signed with the Ed25519 key whose public half is `public_key`.
///
/// A `fee` of zero marks a legacy transaction, signed before fees existed.
#[derive(Clone)]
pub struct SignedTransaction {
    pub sender: String,
    pub recipient: String,
    pub amount: u64,
    pub nonce: u64,
    pub fee: u64,
    /// The compressed Ed25519 public key.
    pub public_key: [u8; 32],
    /// The Ed25519 signature (`R` then `s`).
    pub signature: [u8; 64],
}

/// The text a legacy transaction was signed over:
/// sender, recipient, amount and nonce, in that order, with no separators.
pub open spec fn legacy_text(sender: Seq<char>, recipient: Seq<char>, amount: u64, nonce: u64) -> Seq<
    char,
> {
    sender + recipient + decimal(amount as nat) + decimal(nonce as nat)
}

/// An APXS address: the lowercase hexadecimal SHA-256 digest of a public key.
pub open spec fn address_of(public_key: Seq<u8>) -> Seq<char> {
    hex_lower(sha256_digest(public_key))
}

/// Whether two transactions have the same sender, recipient, amount, fee and
/// nonce (keys and signatures are not compared).
pub open spec fn same_transfer(a: SignedTransaction, b: SignedTransaction) -> bool {
    &&& a.sender@ == b.sender@
    &&& a.recipient@ == b.recipient@
    &&& a.amount == b.amount
    &&& a.fee == b.fee
    &&& a.nonce == b.nonce
}

impl SignedTransaction {
    /// The current message format: sender, recipient, amount, nonce, fee.
    pub open spec fn message_text(self) -> Seq<char> {
        legacy_text(self.sender@, self.recipient@, self.amount, self.nonce) + decimal(
            self.fee as nat,
        )
    }

    /// The text the signature covers: the legacy format where the fee is
    /// zero, the current one otherwise.
    pub open spec fn signed_text(self) -> Seq<char> {
        if self.fee == 0 {
            legacy_text(self.sender@, self.recipient@, self.amount, self.nonce)
        } else {
            self.message_text()
        }
    }

    /// When `verify_signature` accepts a transaction.
    pub open spec fn signature_valid(self) -> bool {
        &&& self.amount != 0
        &&& self.sender@.len() != 0
        &&& self.recipient@.len() != 0
        &&& self.sender@ != self.recipient@
        &&& address_of(self.public_key@) == self.sender@
        &&& ed25519_verify(self.public_key@, encode_utf8(self.signed_text()), self.signature@)
    }
}

/// The legacy signed message: `sender`, `recipient`, `amount`, `nonce`
/// concatenated, the numbers in decimal.
pub fn legacy_message(sender: &str, recipient: &str, amount: u64, nonce: u64) -> (r: String)
    ensures
        r@ == legacy_text(sender@, recipient@, amount, nonce),
{
    let mut s = sender.to_owned();
    s.append(recipient);
    push_decimal(&mut s, amount);
    push_decimal(&mut s, nonce);
    s
}

impl SignedTransaction {
    /// The current signed message: sender, recipient, amount, nonce and fee
    /// concatenated, the numbers in decimal.
    pub fn message(&self) -> (r: String)
        ensures
            r@ == self.message_text(),
    {
        let mut s = legacy_message(self.sender.as_str(), self.recipient.as_str(), self.amount, self.nonce);
        push_decimal(&mut s, self.fee);
        s
    }

    /// The address that the public key belongs to.
    pub fn derived_address(&self) -> (r: String)
        ensures
            r@ == address_of(self.public_key@),
            r@.len() == 64,
            all_lower_hex(r@),
    {
        let digest = sha256(self.public_key.as_slice());
        to_hex_lower(digest.as_slice())
    }

    /// Whether the transaction is a well-formed transfer (positive amount,
    /// distinct non-empty parties) whose sender is the address of its public
    /// key and whose signature covers its signed text.
    pub fn verify_signature(&self) -> (r: bool)
        ensures
            r == self.signature_valid(),
    {
        if self.amount == 0 {
            return false;
        }
        if self.sender.as_str().is_empty() {
            return false;
        }
        if self.recipient.as_str().is_empty() {
            return false;
        }
        if self.sender == self.recipient {
            return false;
        }
        let derived = self.derived_address();
        if derived != self.sender {
            return false;
        }
        if self.fee == 0 {
            let message = legacy_message(
                self.sender.as_str(),
                self.recipient.as_str(),
                self.amount,
                self.nonce,
            );
            return verify(&self.public_key, message.as_str().as_bytes(), &self.signature);
        }
        let message = self.message();
        verify(&self.public_key, message.as_str().as_bytes(), &self.signature)
    }
}

} // verus!
