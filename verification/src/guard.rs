//! Static-secret guards: an inbound request is authorized by an exact,
//! case-sensitive match of a header value against one configured secret.
//! Two independent instances exist (administrative and system-integration),
//! each with its own header and its own configured secret, so presenting one
//! guard's secret never satisfies the other.

use vstd::prelude::*;

verus! {

/// Why a guard rejected a request.
#[derive(Clone, Copy, PartialEq, Eq, Structural, Debug)]
pub enum GuardError {
    /// The header was absent or empty: unauthorized.
    MissingCredential,
    /// A value was presented but no expected secret is configured on the
    /// service: a server-side error, not a client error.
    NotConfigured,
    /// A non-empty value was presented and did not match: unauthorized.
    InvalidCredential,
}

impl GuardError {
    /// Guard failures map to an HTTP status: missing or invalid credentials
    /// are the client's fault, a missing configuration is the server's.
    pub fn status_code(&self) -> (r: u16)
        ensures
            r == 500 <==> *self is NotConfigured,
            r == 401 <==> !(*self is NotConfigured),
    {
        match self {
            GuardError::NotConfigured => 500,
            _ => 401,
        }
    }
}

/// The header value of a request, seen as the sequence of its characters;
/// `None` when the header was absent.
pub open spec fn view_opt(s: Option<&String>) -> Option<Seq<char>> {
    match s {
        Some(x) => Some(x@),
        None => None,
    }
}

/// A presented value passes exactly when it is non-empty, a secret is
/// configured, and the two match character for character.
pub open spec fn secret_accepted(provided: Option<Seq<char>>, configured: Option<Seq<char>>) -> bool {
    match (provided, configured) {
        (Some(p), Some(c)) => p.len() > 0 && p == c,
        _ => false,
    }
}

/// The one outcome a guard owes on each input: absent or empty value fails
/// as a missing credential; a value with no configured secret fails as a
/// configuration error; a mismatch fails as an invalid credential; only an
/// exact match passes.
pub open spec fn guard_outcome(provided: Option<Seq<char>>, configured: Option<Seq<char>>) -> Result<
    (),
    GuardError,
> {
    match provided {
        Some(p) => {
            if p.len() == 0 {
                Err(GuardError::MissingCredential)
            } else {
                match configured {
                    Some(c) => {
                        if p == c {
                            Ok(())
                        } else {
                            Err(GuardError::InvalidCredential)
                        }
                    },
                    None => Err(GuardError::NotConfigured),
                }
            }
        },
        None => Err(GuardError::MissingCredential),
    }
}

/// The two guard instances are not interchangeable: while their configured
/// secrets differ, no presented value satisfies both, so the secret of one
/// guard never passes the other.
pub proof fn law_guards_not_interchangeable(p: Seq<char>, admin: Seq<char>, integration: Seq<char>)
    requires
        admin != integration,
    ensures
        !(secret_accepted(Some(p), Some(admin)) && secret_accepted(Some(p), Some(integration))),
{
}

/// Hold one presented header value against one configured secret.
pub fn check_secret(provided: Option<&String>, configured: Option<&String>) -> (r: Result<
    (),
    GuardError,
>)
    ensures
        r == guard_outcome(view_opt(provided), view_opt(configured)),
        r is Ok <==> secret_accepted(view_opt(provided), view_opt(configured)),
{
    match provided {
        Some(key) => {
            if key.as_str().is_empty() {
                Err(GuardError::MissingCredential)
            } else {
                match configured {
                    Some(expected) => {
                        if *key == *expected {
                            Ok(())
                        } else {
                            Err(GuardError::InvalidCredential)
                        }
                    },
                    None => Err(GuardError::NotConfigured),
                }
            }
        },
        None => Err(GuardError::MissingCredential),
    }
}

/// Authorization witness of the system-integration guard; a request handler
/// holding one has passed `VWApi::from_request`.
pub struct VWApi;

impl VWApi {
    /// Run the system-integration guard on the value of its own header.
    pub fn from_request(api_key: Option<&String>, configured: Option<&String>) -> (r: Result<
        VWApi,
        GuardError,
    >)
        ensures
            r is Ok <==> secret_accepted(view_opt(api_key), view_opt(configured)),
            r matches Err(e) ==> guard_outcome(view_opt(api_key), view_opt(configured)) == Err::<
                (),
                GuardError,
            >(e),
    {
        match check_secret(api_key, configured) {
            Ok(()) => Ok(VWApi),
            Err(e) => Err(e),
        }
    }
}

} // verus!
