//! Where the refresh token and the encryption password are kept: files in
//! one directory of the user's cache.

use vstd::prelude::*;
use vstd::string::*;

verus! {

/// A saved credential could not be read.
pub struct CredentialReadError;

/// The directory that holds the saved credentials.
pub struct CredentialManager {
    pub directory: String,
}

/// The credential directory under the home directory `home`.
pub open spec fn credential_directory(home: Seq<char>) -> Seq<char> {
    home + "/.cache/cloudencryptor/"@
}

/// The file that holds the refresh token: `token` in `directory`.
pub open spec fn token_file_path(directory: Seq<char>) -> Seq<char> {
    directory + "/token"@
}

/// The file that the saved password is read from: `key` in `directory`.
pub open spec fn password_file_path(directory: Seq<char>) -> Seq<char> {
    directory + "/key"@
}

impl CredentialManager {
    /// The manager of the credentials kept under the home directory `home`.
    pub fn in_home(home: &str) -> (m: CredentialManager)
        ensures
            m.directory@ == credential_directory(home@),
            m.directory@ == home@ + "/.cache/cloudencryptor/"@,
    {
        let mut directory = String::from_str(home);
        directory.append("/.cache/cloudencryptor/");
        CredentialManager { directory }
    }

    /// The path of the file that holds the refresh token; `save_token` writes
    /// it and `get_token` reads it.
    pub fn token_path(&self) -> (p: String)
        ensures
            p@ == token_file_path(self.directory@),
            p@ == self.directory@ + "/token"@,
    {
        let mut p = self.directory.clone();
        p.append("/token");
        p
    }

    /// The path of the file that `get_passwd` reads the saved password from.
    pub fn passwd_path(&self) -> (p: String)
        ensures
            p@ == password_file_path(self.directory@),
            p@ == self.directory@ + "/key"@,
    {
        let mut p = self.directory.clone();
        p.append("/key");
        p
    }

    /// The path of the file that `save_passwd` writes the password to: the
    /// token file, not the file that `get_passwd` reads.
    pub fn passwd_save_path(&self) -> (p: String)
        ensures
            p@ == token_file_path(self.directory@),
            p@ == self.directory@ + "/token"@,
    {
        self.token_path()
    }
}

} // verus!
