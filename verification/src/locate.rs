//! Config locator: decides which configuration file path to load, given the
//! optional explicit path and what the filesystem probes found. Existence
//! probing itself is input here, not performed here: the locator is the pure
//! precedence rule, and it never reads file contents.

use vstd::prelude::*;
use vstd::string::StringExecFns;

use crate::errors::MailError;

verus! {

/// The file name looked for in the home directory.
pub open spec fn home_config_name() -> Seq<char> {
    "/.quickmail.yml"@
}

/// The file name looked for in the current working directory.
pub open spec fn cwd_config_name() -> Seq<char> {
    "config.yml"@
}

/// The path of the home-directory configuration candidate: the home
/// directory with `/.quickmail.yml` appended.
pub fn home_config_path(home_dir: &str) -> (r: String)
    ensures
        r@ == home_dir@ + home_config_name(),
{
    let mut s = home_dir.to_owned();
    s.append("/.quickmail.yml");
    s
}

/// Resolution order, first match wins: the explicit path verbatim if one was
/// supplied (existence deliberately not required: reading it is the loader's
/// job); else the home candidate if the home directory is known and the
/// candidate exists; else `config.yml` if it exists in the working
/// directory; else `ConfigNotFound`.
///
/// `home_candidate` is the path built by [`home_config_path`], or `None`
/// when no home directory is known; `home_exists` and `cwd_exists` report
/// the existence probes for the home candidate and for `config.yml`.
pub fn resolve_config_path(
    explicit: Option<String>,
    home_candidate: Option<String>,
    home_exists: bool,
    cwd_exists: bool,
) -> (r: Result<String, MailError>)
    ensures
        explicit matches Some(p) ==> r == Ok::<String, MailError>(p),
        explicit is None && home_exists ==> (home_candidate matches Some(h) ==> r == Ok::<
            String,
            MailError,
        >(h)),
        explicit is None && !(home_candidate is Some && home_exists) && cwd_exists ==> (r matches
            Ok(q) && q@ == cwd_config_name()),
        explicit is None && !(home_candidate is Some && home_exists) && !cwd_exists ==> r == Err::<
            String,
            MailError,
        >(MailError::ConfigNotFound),
{
    match explicit {
        Some(path) => Ok(path),
        None => {
            match home_candidate {
                Some(candidate) => {
                    if home_exists {
                        return Ok(candidate);
                    }
                },
                None => {},
            }
            if cwd_exists {
                Ok(String::from_str("config.yml"))
            } else {
                Err(MailError::ConfigNotFound)
            }
        },
    }
}

} // verus!
