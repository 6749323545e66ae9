//! The operations behind the subcommands: each checks the passphrase by
//! loading the store file's bytes, acts on the credentials, and — where it
//! changed them or the passphrase — returns the re-encrypted file bytes for
//! the caller to persist.

use vstd::prelude::*;

use crate::io::{is_rendered_listing, MessageType};
use crate::pass::{find_first, opt_view, remove_first, EntryView, PasswordEntry};
use crate::store::{dump_output, spec_load, PasswordStore, StoreError};

verus! {

/// Adds one credential: loads the file (checking the passphrase), appends
/// the entry, and returns the re-encrypted file bytes.
pub fn add_password(
    password_store: &mut PasswordStore,
    file: &Vec<u8>,
    service: String,
    username: Option<String>,
    password: String,
) -> (r: Result<Vec<u8>, StoreError>)
    ensures
        final(password_store).master() == old(password_store).master(),
        match spec_load(file@, old(password_store).master()) {
            Err(e) => r == Err::<Vec<u8>, StoreError>(e) && final(password_store).creds() == old(
                password_store,
            ).creds(),
            Ok(es) => {
                let new_creds = es.push(
                    EntryView {
                        service: service@,
                        username: opt_view(username),
                        password: password@,
                    },
                );
                &&& final(password_store).creds() == Some(new_creds)
                &&& match r {
                    Ok(out) => dump_output(
                        out@,
                        file@,
                        old(password_store).master(),
                        new_creds,
                    ),
                    Err(e) => e == StoreError::CipherError,
                }
            },
        },
{
    match password_store.load(file) {
        Ok(_) => {},
        Err(e) => {
            return Err(e);
        },
    }
    match password_store.push(service, username, password) {
        Ok(_) => {},
        Err(e) => {
            return Err(e);
        },
    }
    password_store.dump(file)
}

/// Looks one credential up: loads the file and returns an owned copy of the
/// first entry identified by `(service, username)`, if any.
pub fn show_password(
    password_store: &mut PasswordStore,
    file: &Vec<u8>,
    service: String,
    username: Option<String>,
) -> (r: Result<Option<PasswordEntry>, StoreError>)
    ensures
        final(password_store).master() == old(password_store).master(),
        match spec_load(file@, old(password_store).master()) {
            Err(e) => r == Err::<Option<PasswordEntry>, StoreError>(e),
            Ok(es) => {
                &&& final(password_store).creds() == Some(es)
                &&& match r {
                    Ok(found) => match found {
                        Some(e) => find_first(es, service@, opt_view(username)) == Some(e@),
                        None => find_first(es, service@, opt_view(username)) is None,
                    },
                    Err(_) => false,
                }
            },
        },
{
    match password_store.load(file) {
        Ok(_) => {},
        Err(e) => {
            return Err(e);
        },
    }
    match password_store.find(service, username) {
        Some(e) => Ok(Some(e.duplicate())),
        None => Ok(None),
    }
}

/// Lists the credentials: loads the file and returns the console listing,
/// passwords masked unless asked for.
pub fn list_passwords(
    password_store: &mut PasswordStore,
    file: &Vec<u8>,
    show_passwords: bool,
) -> (r: Result<String, StoreError>)
    ensures
        final(password_store).master() == old(password_store).master(),
        match spec_load(file@, old(password_store).master()) {
            Err(e) => r == Err::<String, StoreError>(e),
            Ok(es) => {
                &&& final(password_store).creds() == Some(es)
                &&& match r {
                    Ok(listing) => is_rendered_listing(
                        listing@,
                        es,
                        show_passwords,
                        Some(MessageType::Info),
                    ),
                    Err(_) => false,
                }
            },
        },
{
    match password_store.load(file) {
        Ok(_) => {},
        Err(e) => {
            return Err(e);
        },
    }
    Ok(password_store.print(show_passwords, Some(MessageType::Info)))
}

/// Removes one credential: loads the file, removes the first entry
/// identified by `(service, username)` if any, and returns the re-encrypted
/// file bytes along with the removed entry. A missing match is an outcome,
/// not an error.
pub fn remove_password(
    password_store: &mut PasswordStore,
    file: &Vec<u8>,
    service: String,
    username: Option<String>,
) -> (r: Result<(Vec<u8>, Option<PasswordEntry>), StoreError>)
    ensures
        final(password_store).master() == old(password_store).master(),
        match spec_load(file@, old(password_store).master()) {
            Err(e) => r == Err::<(Vec<u8>, Option<PasswordEntry>), StoreError>(e),
            Ok(es) => {
                let remaining = remove_first(es, service@, opt_view(username));
                &&& final(password_store).creds() == Some(remaining)
                &&& match r {
                    Ok(out) => dump_output(
                        out.0@,
                        file@,
                        old(password_store).master(),
                        remaining,
                    ) && (match out.1 {
                        Some(e) => find_first(es, service@, opt_view(username)) == Some(e@),
                        None => find_first(es, service@, opt_view(username)) is None,
                    }),
                    Err(e) => e == StoreError::CipherError,
                }
            },
        },
{
    match password_store.load(file) {
        Ok(_) => {},
        Err(e) => {
            return Err(e);
        },
    }
    let removed = password_store.pop(service, username);
    match password_store.dump(file) {
        Ok(out) => Ok((out, removed)),
        Err(e) => Err(e),
    }
}

/// Rotates the master passphrase: loads the file under the old passphrase,
/// replaces the passphrase in memory, and returns the file bytes
/// re-encrypted under the key the new passphrase derives with the file's
/// salt.
pub fn update_master_password(
    password_store: &mut PasswordStore,
    file: &Vec<u8>,
    new_master_password: String,
) -> (r: Result<Vec<u8>, StoreError>)
    ensures
        match spec_load(file@, old(password_store).master()) {
            Err(e) => r == Err::<Vec<u8>, StoreError>(e) && final(password_store).master() == old(
                password_store,
            ).master(),
            Ok(es) => {
                &&& final(password_store).master() == new_master_password@
                &&& final(password_store).creds() == Some(es)
                &&& match r {
                    Ok(out) => dump_output(out@, file@, new_master_password@, es),
                    Err(e) => e == StoreError::CipherError,
                }
            },
        },
{
    match password_store.load(file) {
        Ok(_) => {},
        Err(e) => {
            return Err(e);
        },
    }
    password_store.update_master(new_master_password);
    password_store.dump(file)
}

} // verus!
