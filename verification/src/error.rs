//! The ways in which an operation on the vault can fail.

use vstd::prelude::*;
use vstd::string::StringExecFns;

verus! {

/// Why an operation was refused. Every operation returns its value or
/// exactly one of these.
#[derive(Clone, Copy, Debug, PartialEq, Eq, Structural)]
pub enum VaultError {
    /// `init` was asked to run on a vault that exists already.
    AlreadyInitialized,
    /// The vault or its key data is missing.
    NotInitialized,
    /// The site to add has an entry already.
    SiteAlreadyExists,
    /// The site asked for has no entry.
    SiteNotFound,
    /// The master password is wrong or a sealed value was altered: the two
    /// cannot be told apart.
    AuthenticationFailure,
    /// A prompt was answered with nothing but whitespace, or not at all.
    EmptyInput,
    /// The password and its repetition differ.
    PasswordMismatch,
}

impl VaultError {
    /// The message that tells the user of this error. `site` is the site
    /// that the refused operation was about; only the two errors about a
    /// site name it.
    pub open spec fn message_text(self, site: Seq<char>) -> Seq<char> {
        match self {
            VaultError::AlreadyInitialized => "passkeeper is already initialized"@,
            VaultError::NotInitialized => "passkeeper is not initialized\nRun passkeeper init"@,
            VaultError::SiteAlreadyExists => "A password for "@ + site
                + " is already in your vault"@,
            VaultError::SiteNotFound => "No password for "@ + site + " in your vault"@,
            VaultError::AuthenticationFailure => "Sorry, wrong password"@,
            VaultError::EmptyInput => "You must enter a password"@,
            VaultError::PasswordMismatch => "Passwords do not match"@,
        }
    }

    /// The message that tells the user of this error.
    pub fn message(&self, site: &str) -> (text: String)
        ensures
            text@ == self.message_text(site@),
    {
        match self {
            VaultError::AlreadyInitialized => String::from_str("passkeeper is already initialized"),
            VaultError::NotInitialized => String::from_str(
                "passkeeper is not initialized\nRun passkeeper init",
            ),
            VaultError::SiteAlreadyExists => String::from_str("A password for ").concat(
                site,
            ).concat(" is already in your vault"),
            VaultError::SiteNotFound => String::from_str("No password for ").concat(site).concat(
                " in your vault",
            ),
            VaultError::AuthenticationFailure => String::from_str("Sorry, wrong password"),
            VaultError::EmptyInput => String::from_str("You must enter a password"),
            VaultError::PasswordMismatch => String::from_str("Passwords do not match"),
        }
    }
}

/// Each error has a message of its own: two different errors never read
/// the same, whatever the site.
pub proof fn lemma_messages_distinct(first: VaultError, second: VaultError, site: Seq<char>)
    requires
        first != second,
    ensures
        first.message_text(site) != second.message_text(site),
{
    reveal_strlit("passkeeper is already initialized");
    reveal_strlit("passkeeper is not initialized\nRun passkeeper init");
    reveal_strlit("A password for ");
    reveal_strlit("No password for ");
    reveal_strlit("Sorry, wrong password");
    reveal_strlit("You must enter a password");
    reveal_strlit("Passwords do not match");
    assert(VaultError::AlreadyInitialized.message_text(site)[14] == 'a');
    assert(VaultError::NotInitialized.message_text(site)[14] == 'n');
    assert(VaultError::AlreadyInitialized.message_text(site)[0] == 'p');
    assert(VaultError::NotInitialized.message_text(site)[0] == 'p');
    assert(VaultError::SiteAlreadyExists.message_text(site)[0] == 'A');
    assert(VaultError::SiteNotFound.message_text(site)[0] == 'N');
    assert(VaultError::AuthenticationFailure.message_text(site)[0] == 'S');
    assert(VaultError::EmptyInput.message_text(site)[0] == 'Y');
    assert(VaultError::PasswordMismatch.message_text(site)[0] == 'P');
}

} // verus!
