//! The user-facing failures of a lookup, with enough context for an
//! actionable message: the package name, and the version where one is
//! known.

use vstd::prelude::*;
use vstd::string::StringExecFns;

verus! {

/// A failure to answer the user's request.
pub enum UserError {
    /// No package name was provided at all.
    NoNameProvided,
    /// The index could not be queried for the package; the transport's
    /// own words are carried along.
    CannotLookup {
        /// The package name asked for.
        name: String,
        /// The version asked for, where one was given.
        version: Option<String>,
        /// The transport's description of what went wrong.
        error: String,
    },
    /// The index knows no published version of the package.
    NoVersions {
        /// The package name asked for.
        name: String,
    },
    /// The requested version does not exist for the package.
    InvalidVersion {
        /// The package name asked for.
        name: String,
        /// The version that was requested.
        version: String,
    },
    /// The flags chosen leave nothing to print.
    MustOutputSomething,
}

/// The message each failure prints, prefixed with "error: ".
pub open spec fn spec_user_error_message(e: UserError) -> Seq<char> {
    match e {
        UserError::NoNameProvided => "error: no name was provided"@,
        UserError::CannotLookup { name, version, error } => match version {
            Some(v) => "error: cannot lookup '"@ + name@ + "/"@ + v@ + "'"@,
            None => "error: cannot lookup '"@ + name@ + "'. no version found"@,
        },
        UserError::NoVersions { name } => "error: no versions published for '"@ + name@ + "'"@,
        UserError::InvalidVersion { name, version } => "error: invalid version '"@ + version@
            + "' for '"@ + name@ + "'"@,
        UserError::MustOutputSomething => "error: `-f false` cannot be used without --deps"@,
    }
}

impl UserError {
    /// The message this failure prints.
    pub fn message(&self) -> (r: String)
        ensures
            r@ == spec_user_error_message(*self),
    {
        let mut out = String::new();
        match self {
            UserError::NoNameProvided => {
                out.append("error: no name was provided");
            },
            UserError::CannotLookup { name, version, error: _ } => match version {
                Some(v) => {
                    out.append("error: cannot lookup '");
                    out.append(name.as_str());
                    out.append("/");
                    out.append(v.as_str());
                    out.append("'");
                },
                None => {
                    out.append("error: cannot lookup '");
                    out.append(name.as_str());
                    out.append("'. no version found");
                },
            },
            UserError::NoVersions { name } => {
                out.append("error: no versions published for '");
                out.append(name.as_str());
                out.append("'");
            },
            UserError::InvalidVersion { name, version } => {
                out.append("error: invalid version '");
                out.append(version.as_str());
                out.append("' for '");
                out.append(name.as_str());
                out.append("'");
            },
            UserError::MustOutputSomething => {
                out.append("error: `-f false` cannot be used without --deps");
            },
        }
        proof {
            assert(out@ =~= spec_user_error_message(*self));
        }
        out
    }
}

} // verus!
