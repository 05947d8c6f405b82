//! What each encryption method fixes: its name, its tag in key derivation,
//! and the sizes of its key and nonce.

use vstd::prelude::*;
use crate::cipher::primitives::{AEAD_KEY_LEN, AEAD_NONCE_LEN, BLOCK_LEN, BLOWFISH_KEY_LEN, TDES_KEY_LEN};
use crate::error::ErrorKind;
use crate::models::EncryptionMethod;

verus! {

impl EncryptionMethod {
    /// Whether the method is a block cipher that the registry runs in
    /// chained mode with a tag of its own, rather than a cipher that
    /// authenticates by itself.
    pub open spec fn is_block(self) -> bool {
        self == EncryptionMethod::Blowfish || self == EncryptionMethod::DESTripleDES
    }

    /// The byte that stands for the method where keys are derived.
    pub open spec fn spec_tag(self) -> u8 {
        match self {
            EncryptionMethod::AES256 => 1,
            EncryptionMethod::Chacha20 => 2,
            EncryptionMethod::Blowfish => 3,
            EncryptionMethod::DESTripleDES => 4,
        }
    }

    /// The length of the nonce or initialisation vector that opens every
    /// payload sealed with the method.
    pub open spec fn spec_nonce_len(self) -> usize {
        if self.is_block() {
            BLOCK_LEN
        } else {
            AEAD_NONCE_LEN
        }
    }

    /// The length of the cipher key of the method.
    pub open spec fn spec_key_len(self) -> usize {
        match self {
            EncryptionMethod::AES256 => AEAD_KEY_LEN,
            EncryptionMethod::Chacha20 => AEAD_KEY_LEN,
            EncryptionMethod::Blowfish => BLOWFISH_KEY_LEN,
            EncryptionMethod::DESTripleDES => TDES_KEY_LEN,
        }
    }

    /// The name of the method, as a tenant writes it.
    pub open spec fn spec_name(self) -> Seq<char> {
        match self {
            EncryptionMethod::AES256 => "AES256"@,
            EncryptionMethod::Chacha20 => "Chacha20"@,
            EncryptionMethod::Blowfish => "Blowfish"@,
            EncryptionMethod::DESTripleDES => "DESTripleDES"@,
        }
    }

    /// Whether the method is a block cipher.
    #[verifier::when_used_as_spec(is_block)]
    pub fn is_block_cipher(self) -> (b: bool)
        ensures
            b == self.is_block(),
    {
        match self {
            EncryptionMethod::Blowfish => true,
            EncryptionMethod::DESTripleDES => true,
            _ => false,
        }
    }

    /// The byte that stands for the method where keys are derived.
    #[verifier::when_used_as_spec(spec_tag)]
    pub fn tag(self) -> (t: u8)
        ensures
            t == self.spec_tag(),
    {
        match self {
            EncryptionMethod::AES256 => 1,
            EncryptionMethod::Chacha20 => 2,
            EncryptionMethod::Blowfish => 3,
            EncryptionMethod::DESTripleDES => 4,
        }
    }

    /// The length of the nonce or initialisation vector of the method.
    #[verifier::when_used_as_spec(spec_nonce_len)]
    pub fn nonce_len(self) -> (n: usize)
        ensures
            n == self.spec_nonce_len(),
    {
        if self.is_block_cipher() {
            BLOCK_LEN
        } else {
            AEAD_NONCE_LEN
        }
    }

    /// The length of the cipher key of the method.
    #[verifier::when_used_as_spec(spec_key_len)]
    pub fn key_len(self) -> (n: usize)
        ensures
            n == self.spec_key_len(),
    {
        match self {
            EncryptionMethod::AES256 => AEAD_KEY_LEN,
            EncryptionMethod::Chacha20 => AEAD_KEY_LEN,
            EncryptionMethod::Blowfish => BLOWFISH_KEY_LEN,
            EncryptionMethod::DESTripleDES => TDES_KEY_LEN,
        }
    }

    /// The name of the method, as a tenant writes it.
    pub fn name(self) -> (text: String)
        ensures
            text@ == self.spec_name(),
    {
        match self {
            EncryptionMethod::AES256 => "AES256".to_owned(),
            EncryptionMethod::Chacha20 => "Chacha20".to_owned(),
            EncryptionMethod::Blowfish => "Blowfish".to_owned(),
            EncryptionMethod::DESTripleDES => "DESTripleDES".to_owned(),
        }
    }

    /// Reads the name of a method.
    ///
    /// Fails with `UnsupportedMethod` exactly when `text` is not the name
    /// of one of the four methods.
    pub fn from_name(text: &str) -> (r: Result<EncryptionMethod, ErrorKind>)
        ensures
            match r {
                Ok(method) => text@ == method.spec_name(),
                Err(e) => e == ErrorKind::UnsupportedMethod && forall|m: EncryptionMethod|
                    text@ != m.spec_name(),
            },
    {
        let wanted = text.to_owned();
        if wanted == EncryptionMethod::AES256.name() {
            Ok(EncryptionMethod::AES256)
        } else if wanted == EncryptionMethod::Chacha20.name() {
            Ok(EncryptionMethod::Chacha20)
        } else if wanted == EncryptionMethod::Blowfish.name() {
            Ok(EncryptionMethod::Blowfish)
        } else if wanted == EncryptionMethod::DESTripleDES.name() {
            Ok(EncryptionMethod::DESTripleDES)
        } else {
            Err(ErrorKind::UnsupportedMethod)
        }
    }
}

/// No two methods share a name, so reading a method's name gives the
/// method back.
pub proof fn lemma_names_distinct(a: EncryptionMethod, b: EncryptionMethod)
    ensures
        a.spec_name() == b.spec_name() <==> a == b,
{
    reveal_strlit("AES256");
    reveal_strlit("Chacha20");
    reveal_strlit("Blowfish");
    reveal_strlit("DESTripleDES");
    if a != b && a.spec_name() == b.spec_name() {
        assert(a.spec_name().len() == b.spec_name().len());
        assert("Chacha20"@[0] == 'C');
        assert("Blowfish"@[0] == 'B');
    }
}

} // verus!
