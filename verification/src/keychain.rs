//! Storing SSH key passphrases. Only the macOS Keychain can hold them; on
//! other systems nothing is stored, loaded or deleted.
use crate::process::own;
use vstd::prelude::*;

verus! {

/// Refuses to store a passphrase: there is no system keychain here.
pub fn store_passphrase(_server_id: &str, _passphrase: &str) -> (r: Result<(), String>)
    ensures
        r matches Err(e) && e@ == "SSH key passphrase storage is currently supported on macOS only"@,
{
    Err(own("SSH key passphrase storage is currently supported on macOS only"))
}

/// No passphrase is stored here.
pub fn load_passphrase(_server_id: &str) -> (r: Result<Option<String>, String>)
    ensures
        r matches Ok(None),
{
    Ok(None)
}

/// Nothing to delete here.
pub fn delete_passphrase(_server_id: &str) -> (r: Result<(), String>)
    ensures
        r is Ok,
{
    Ok(())
}

} // verus!
