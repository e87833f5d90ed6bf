//! Errors of the launcher.
use vstd::prelude::*;

verus! {

/// A failure reported to the user, with its message.
#[derive(Debug)]
pub enum AppError {
    /// The configuration cannot be located or read.
    Config(String),
    /// Signing in failed.
    Auth(String),
}

/// A request about profiles, accounts or versions that cannot be served.
#[derive(Debug, Clone, PartialEq, Eq)]
pub enum CommandError {
    ProfileNotFound,
    AccountNotFound,
    NoActiveAccount,
    ActiveAccountNotFound,
    /// The version with this id has no metadata on disk.
    VersionNotInstalled(String),
}

/// The message shown for a command error.
pub open spec fn command_error_message(e: CommandError) -> Seq<char> {
    match e {
        CommandError::ProfileNotFound => "Profile not found"@,
        CommandError::AccountNotFound => "Account not found"@,
        CommandError::NoActiveAccount => "No active account"@,
        CommandError::ActiveAccountNotFound => "Active account not found"@,
        CommandError::VersionNotInstalled(v) => "Version "@ + v@ + " is not installed."@,
    }
}

impl CommandError {
    /// The message shown for this error.
    pub fn message(&self) -> (r: String)
        ensures
            r@ == command_error_message(*self),
    {
        match self {
            CommandError::ProfileNotFound => String::from_str("Profile not found"),
            CommandError::AccountNotFound => String::from_str("Account not found"),
            CommandError::NoActiveAccount => String::from_str("No active account"),
            CommandError::ActiveAccountNotFound => String::from_str("Active account not found"),
            CommandError::VersionNotInstalled(v) => {
                let a = crate::text::str_concat("Version ", v.as_str());
                crate::text::str_concat(a.as_str(), " is not installed.")
            },
        }
    }
}

impl AppError {
    /// The message carried by this error.
    pub fn message(&self) -> (r: String)
        ensures
            r@ == match *self {
                AppError::Config(m) => m@,
                AppError::Auth(m) => m@,
            },
    {
        match self {
            AppError::Config(m) => m.clone(),
            AppError::Auth(m) => m.clone(),
        }
    }
}

} // verus!
