//! The credential store: the load → mutate → dump lifecycle over the bytes
//! of a store file.
//!
//! The store holds the current master passphrase and, once a load has
//! succeeded, the decrypted credential list. Loading derives the key from
//! the salt found in the file and authenticates by decryption: a wrong
//! passphrase surfaces as [`StoreError::AuthenticationFailure`], never as a
//! parse or I/O problem. Dumping re-encrypts the in-memory list under the
//! file's salt and a fresh random nonce. Reading and writing the file itself
//! is the caller's business: these functions take and return its bytes.

use vstd::prelude::*;
use vstd::string::*;
use vstd::utf8::*;

use crate::codec::{ser_entries, sp_entries};
use crate::crypto::{
    decrypt_contents, derive_encryption_key, derived_key, encrypt_contents, get_random_salt,
    opened, sealed,
};
use crate::envelope::{pack_envelope, unpack_envelope, CIPHERTEXT_START, SALT_LEN};
use crate::pass::{find_first, opt_view, remove_first, EntryView, PasswordEntry, Passwords};

verus! {

/// Why a store operation failed.
///
/// A wrong master passphrase is reported as `AuthenticationFailure` and as
/// nothing else, so a caller can re-prompt; `ParseError` means the file is
/// corrupt or foreign; `CipherError` is an unexpected failure inside
/// encryption or randomness; `IoError` is reserved for callers that read or
/// write the file; `NotLoaded` reports a mutation attempted before a
/// successful load.
#[derive(Clone, Copy, Debug, PartialEq, Eq, Structural)]
pub enum StoreError {
    AuthenticationFailure,
    IoError,
    ParseError,
    CipherError,
    NotLoaded,
}

impl StoreError {
    /// A human-readable description of the failure.
    pub fn message(&self) -> (r: String)
        ensures
            r@ == (match *self {
                StoreError::AuthenticationFailure
                    => "Master password incorrect. Please try again."@,
                StoreError::IoError => "Could not read or write the password store"@,
                StoreError::ParseError => "The password store file is corrupt"@,
                StoreError::CipherError => "Failed to encrypt passwords"@,
                StoreError::NotLoaded => "Load passwords before using them"@,
            }),
    {
        match self {
            StoreError::AuthenticationFailure => String::from_str(
                "Master password incorrect. Please try again.",
            ),
            StoreError::IoError => String::from_str("Could not read or write the password store"),
            StoreError::ParseError => String::from_str("The password store file is corrupt"),
            StoreError::CipherError => String::from_str("Failed to encrypt passwords"),
            StoreError::NotLoaded => String::from_str("Load passwords before using them"),
        }
    }
}

/// Relies on std's `String::from_utf8`: it succeeds exactly on valid UTF-8
/// and returns the string those bytes encode.
#[verifier::external_body]
fn bytes_to_string(bytes: Vec<u8>) -> (r: Option<String>)
    ensures
        match r {
            Some(s) => valid_utf8(bytes@) && encode_utf8(s@) == bytes@,
            None => !valid_utf8(bytes@),
        },
{
    match String::from_utf8(bytes) {
        Ok(s) => Some(s),
        Err(_) => None,
    }
}

/// What loading a store file under a master passphrase yields: the entries,
/// or the error that the file and passphrase force.
pub open spec fn spec_load(file: Seq<u8>, master: Seq<char>) -> Result<Seq<EntryView>, StoreError> {
    if file.len() < CIPHERTEXT_START {
        Err(StoreError::ParseError)
    } else {
        let salt = file.subrange(0, SALT_LEN as int);
        let nonce = file.subrange(SALT_LEN as int, CIPHERTEXT_START as int);
        let ciphertext = file.subrange(CIPHERTEXT_START as int, file.len() as int);
        match opened(derived_key(master, salt), nonce, ciphertext) {
            None => Err(StoreError::AuthenticationFailure),
            Some(plaintext) => if !valid_utf8(plaintext) {
                Err(StoreError::ParseError)
            } else {
                match sp_entries(decode_utf8(plaintext)) {
                    None => Err(StoreError::ParseError),
                    Some(es) => Ok(es),
                }
            },
        }
    }
}

/// What a dump produces: the old file's salt, a fresh nonce, and the
/// serialized credentials sealed under the key that the current passphrase
/// derives with that salt.
pub open spec fn dump_output(
    out: Seq<u8>,
    file: Seq<u8>,
    master: Seq<char>,
    creds: Seq<EntryView>,
) -> bool {
    ({
        let salt = file.subrange(0, SALT_LEN as int);
        let key = derived_key(master, salt);
        let plaintext = encode_utf8(ser_entries(creds));
        exists|nonce: Seq<u8>|
            {
                &&& nonce.len() == 12
                &&& out == salt + nonce + #[trigger] sealed(key, nonce, plaintext)
                &&& opened(key, nonce, sealed(key, nonce, plaintext)) == Some(plaintext)
            }
    })
}

/// The credential store: a master passphrase and, once loaded, the entries.
pub struct PasswordStore {
    pub master_password: String,
    pub passwords: Option<Passwords>,
}

impl PasswordStore {
    /// The current master passphrase.
    pub open spec fn master(&self) -> Seq<char> {
        self.master_password@
    }

    /// The loaded credential list, absent until a load succeeds.
    pub open spec fn creds(&self) -> Option<Seq<EntryView>> {
        match self.passwords {
            Some(p) => Some(p@),
            None => None,
        }
    }

    /// A store over the given passphrase; nothing is loaded yet.
    pub fn new(master_password: String) -> (s: Self)
        ensures
            s.master() == master_password@,
            s.creds() is None,
    {
        PasswordStore { master_password, passwords: None }
    }

    /// The initial content of a fresh store file: an empty credential list,
    /// sealed under a fresh salt and nonce. Loading it with the same
    /// passphrase yields the empty list.
    pub fn initial_file_content(master_password: &str) -> (r: Result<Vec<u8>, StoreError>)
        ensures
            match r {
                Ok(out) => spec_load(out@, master_password@) == Ok::<_, StoreError>(
                    Seq::<EntryView>::empty(),
                ) && out@.len() >= CIPHERTEXT_START,
                Err(e) => e == StoreError::CipherError,
            },
    {
        let salt = match get_random_salt() {
            Some(s) => s,
            None => {
                return Err(StoreError::CipherError);
            },
        };
        let empty = Passwords::new();
        let plaintext = empty.serialize();
        let (ciphertext, nonce) = match encrypt_contents(
            plaintext.as_str(),
            master_password,
            &salt,
        ) {
            Some(p) => p,
            None => {
                return Err(StoreError::CipherError);
            },
        };
        let out = pack_envelope(&salt, &nonce, &ciphertext);
        proof {
            crate::envelope::lemma_envelope_round_trip(salt@, nonce@, ciphertext@);
            broadcast use encode_utf8_valid_utf8, encode_utf8_decode_utf8;

            crate::codec::lemma_parse_serialized(Seq::<EntryView>::empty());
            assert(empty@ =~= Seq::<EntryView>::empty());
        }
        Ok(out)
    }

    /// Decrypts and parses a store file's bytes under the current passphrase
    /// and keeps the entries in memory; on any failure the store is left as
    /// it was, and a wrong passphrase is reported as `AuthenticationFailure`.
    pub fn load(&mut self, file: &Vec<u8>) -> (r: Result<(), StoreError>)
        ensures
            final(self).master() == old(self).master(),
            match spec_load(file@, old(self).master()) {
                Ok(es) => r is Ok && final(self).creds() == Some(es),
                Err(e) => r == Err::<(), StoreError>(e) && final(self).creds() == old(
                    self,
                ).creds(),
            },
    {
        let parts = match unpack_envelope(file) {
            Some(p) => p,
            None => {
                return Err(StoreError::ParseError);
            },
        };
        let key = derive_encryption_key(self.master_password.as_str(), parts.0.as_slice());
        let plaintext_bytes = match decrypt_contents(&parts.2, &key, &parts.1) {
            Ok(p) => p,
            Err(e) => {
                return Err(e);
            },
        };
        let plaintext = match bytes_to_string(plaintext_bytes) {
            Some(s) => s,
            None => {
                return Err(StoreError::ParseError);
            },
        };
        proof {
            broadcast use encode_utf8_decode_utf8;

        }
        let parsed = match Passwords::parse_passwords(plaintext.as_str()) {
            Ok(p) => p,
            Err(e) => {
                return Err(e);
            },
        };
        self.passwords = Some(parsed);
        Ok(())
    }

    /// Serializes the in-memory credentials and seals them under the salt
    /// already in the file and a fresh random nonce; yields the new file
    /// bytes. Fails with `NotLoaded` before a successful load, `ParseError`
    /// on a file too short to carry a salt, and `CipherError` when
    /// randomness or the cipher fail.
    pub fn dump(&self, file: &Vec<u8>) -> (r: Result<Vec<u8>, StoreError>)
        ensures
            match r {
                Ok(out) => file@.len() >= CIPHERTEXT_START && (self.creds() matches Some(cs)
                    && dump_output(out@, file@, self.master(), cs)),
                Err(e) => {
                    if file@.len() < CIPHERTEXT_START {
                        e == StoreError::ParseError
                    } else if self.creds() is None {
                        e == StoreError::NotLoaded
                    } else {
                        e == StoreError::CipherError
                    }
                },
            },
    {
        let parts = match unpack_envelope(file) {
            Some(p) => p,
            None => {
                return Err(StoreError::ParseError);
            },
        };
        let creds = match &self.passwords {
            Some(c) => c,
            None => {
                return Err(StoreError::NotLoaded);
            },
        };
        let plaintext = creds.serialize();
        let (ciphertext, nonce) = match encrypt_contents(
            plaintext.as_str(),
            self.master_password.as_str(),
            &parts.0,
        ) {
            Some(p) => p,
            None => {
                return Err(StoreError::CipherError);
            },
        };
        let out = pack_envelope(&parts.0, &nonce, &ciphertext);
        proof {
            let salt = file@.subrange(0, SALT_LEN as int);
            let key = derived_key(self.master(), salt);
            let pt = encode_utf8(ser_entries(self.creds().unwrap()));
            assert(nonce@.len() == 12 && out@ == salt + nonce@ + sealed(key, nonce@, pt) && opened(
                key,
                nonce@,
                sealed(key, nonce@, pt),
            ) == Some(pt));
        }
        Ok(out)
    }

    /// Appends a new entry; demands a successful load first.
    pub fn push(&mut self, service: String, username: Option<String>, password: String) -> (r:
        Result<(), StoreError>)
        ensures
            final(self).master() == old(self).master(),
            match old(self).creds() {
                Some(cs) => r is Ok && final(self).creds() == Some(
                    cs.push(
                        EntryView {
                            service: service@,
                            username: opt_view(username),
                            password: password@,
                        },
                    ),
                ),
                None => r == Err::<(), StoreError>(StoreError::NotLoaded) && final(self).creds()
                    is None,
            },
    {
        let entry = PasswordEntry::new(service, username, password);
        match &mut self.passwords {
            Some(p) => {
                p.append(entry);
                Ok(())
            },
            None => Err(StoreError::NotLoaded),
        }
    }

    /// Removes and returns the first entry identified by `(service,
    /// username)`; a missing match is an outcome, not an error, and leaves
    /// the credentials unchanged.
    pub fn pop(&mut self, service: String, username: Option<String>) -> (r: Option<PasswordEntry>)
        ensures
            final(self).master() == old(self).master(),
            match old(self).creds() {
                Some(cs) => final(self).creds() == Some(
                    remove_first(cs, service@, opt_view(username)),
                ) && (match r {
                    Some(e) => find_first(cs, service@, opt_view(username)) == Some(e@),
                    None => find_first(cs, service@, opt_view(username)) is None,
                }),
                None => final(self).creds() is None && r is None,
            },
    {
        match &mut self.passwords {
            Some(p) => p.remove(service, username),
            None => None,
        }
    }

    /// Returns the first entry identified by `(service, username)`, if any.
    pub fn find(&self, service: String, username: Option<String>) -> (r: Option<&PasswordEntry>)
        ensures
            match self.creds() {
                Some(cs) => (match r {
                    Some(e) => find_first(cs, service@, opt_view(username)) == Some(e@),
                    None => find_first(cs, service@, opt_view(username)) is None,
                }),
                None => r is None,
            },
    {
        match &self.passwords {
            Some(p) => p.find(service, username),
            None => None,
        }
    }

    /// Replaces the in-memory passphrase; the file is untouched until the
    /// next dump, so a load in between still demands the old passphrase.
    pub fn update_master(&mut self, new_master_password: String)
        ensures
            final(self).master() == new_master_password@,
            final(self).creds() == old(self).creds(),
    {
        self.master_password = new_master_password;
    }
}

/// A dump followed by a load restores the credentials exactly: loading the
/// dumped bytes under the passphrase that dumped them yields the same
/// entries, in the same order.
pub proof fn lemma_dump_then_load(
    out: Seq<u8>,
    file: Seq<u8>,
    master: Seq<char>,
    creds: Seq<EntryView>,
)
    requires
        file.len() >= CIPHERTEXT_START,
        dump_output(out, file, master, creds),
    ensures
        spec_load(out, master) == Ok::<_, StoreError>(creds),
{
    let salt = file.subrange(0, SALT_LEN as int);
    let key = derived_key(master, salt);
    let plaintext = encode_utf8(ser_entries(creds));
    let nonce = choose|nonce: Seq<u8>|
        nonce.len() == 12 && out == salt + nonce + sealed(key, nonce, plaintext) && opened(
            key,
            nonce,
            sealed(key, nonce, plaintext),
        ) == Some(plaintext);
    let ciphertext = sealed(key, nonce, plaintext);
    crate::envelope::lemma_envelope_round_trip(salt, nonce, ciphertext);
    broadcast use encode_utf8_valid_utf8, encode_utf8_decode_utf8;

    crate::codec::lemma_parse_serialized(creds);
}

} // verus!
