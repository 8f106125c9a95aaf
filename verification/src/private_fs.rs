//! Files only the daemon's user may read: credentials and the like live in
//! real directories with mode 0700 and files with mode 0600.

use vstd::prelude::*;
use crate::error::SandboxError;
use crate::text::{chars_of, concat_chars, string_of, text3};

verus! {

/// The mode private directories are given.
pub const PRIVATE_DIR_MODE: u32 = 0o700;

/// The mode private files are given.
pub const PRIVATE_FILE_MODE: u32 = 0o600;

/// A private directory must be a real directory, not a link to one.
pub fn check_private_dir(is_symlink: bool, is_dir: bool, context: &str, path: &str) -> (r: Result<(), SandboxError>)
    ensures
        !is_symlink && is_dir ==> r is Ok,
        is_symlink || !is_dir ==> (r matches Err(SandboxError::InvalidConfig(m))
            && m@ == context@ + " must be a real directory: "@ + path@),
{
    if is_symlink || !is_dir {
        let m = text3(context, &chars_of(" must be a real directory: "), path);
        return Err(SandboxError::invalid(m));
    }
    Ok(())
}

/// A private file may not be readable, writable or runnable by anyone but
/// its owner.
pub fn check_private_file_mode(mode: u32, context: &str, path: &str) -> (r: Result<(), SandboxError>)
    ensures
        (mode & 0o077u32) == 0 ==> r is Ok,
        (mode & 0o077u32) != 0 ==> (r matches Err(SandboxError::InvalidConfig(m))
            && m@ == context@ + " "@ + path@ + " must have 0600 permissions"@),
{
    if mode & 0o777 & 0o077 != 0 {
        assert((mode & 0o777u32) & 0o077u32 == mode & 0o077u32) by (bit_vector);
        let head = text3(context, &chars_of(" "), path);
        let m = string_of(&concat_chars(&chars_of(head.as_str()), &chars_of(" must have 0600 permissions")));
        return Err(SandboxError::invalid(m));
    }
    assert((mode & 0o777u32) & 0o077u32 == mode & 0o077u32) by (bit_vector);
    Ok(())
}

} // verus!
