use vstd::prelude::*;
use crate::text::{chars_of, contains, occurs, text_eq};

verus! {

/// Part of a container name that marks each light-client backend.
pub const ZAINO_MARKER: &'static str = "zaino";

pub const LIGHTWALLETD_MARKER: &'static str = "lightwalletd";

/// Endpoints that the wallet reaches each backend at.
pub const ZAINO_URI: &'static str = "http://zaino:9067";

pub const LIGHTWALLETD_URI: &'static str = "http://lightwalletd:9067";

/// Which light-client backend runs beside the node.
#[derive(Clone, Copy, Debug, PartialEq, Eq, Structural)]
pub enum BackendKind {
    NoBackend,
    Zaino,
    Lightwalletd,
}

/// Why a backend could not be chosen.
#[derive(Clone, Debug, PartialEq, Eq)]
pub enum BackendError {
    /// The `--backend` value is none of `lwd`, `zaino`, `none`.
    InvalidBackend(String),
    /// No running container carries either backend's name.
    NoBackendDetected,
}

pub open spec fn backend_of_flag(flag: Seq<char>) -> Option<BackendKind> {
    if flag == "lwd"@ {
        Some(BackendKind::Lightwalletd)
    } else if flag == "zaino"@ {
        Some(BackendKind::Zaino)
    } else if flag == "none"@ {
        Some(BackendKind::NoBackend)
    } else {
        None
    }
}

/// The backend that a `--backend` value asks for.
pub fn parse_backend(flag: &str) -> (r: Result<BackendKind, BackendError>)
    ensures
        match r {
            Ok(k) => backend_of_flag(flag@) == Some(k),
            Err(e) => backend_of_flag(flag@) is None && (e matches BackendError::InvalidBackend(
                s,
            ) && s@ == flag@),
        },
{
    if text_eq(flag, "lwd") {
        Ok(BackendKind::Lightwalletd)
    } else if text_eq(flag, "zaino") {
        Ok(BackendKind::Zaino)
    } else if text_eq(flag, "none") {
        Ok(BackendKind::NoBackend)
    } else {
        Err(BackendError::InvalidBackend(String::from_str(flag)))
    }
}

pub open spec fn detect_spec(listing: Seq<char>) -> Option<BackendKind> {
    if occurs(listing, ZAINO_MARKER@) {
        Some(BackendKind::Zaino)
    } else if occurs(listing, LIGHTWALLETD_MARKER@) {
        Some(BackendKind::Lightwalletd)
    } else {
        None
    }
}

/// The backend that runs, from the names of the running containers: zaino when a name holds
/// `zaino`, else lightwalletd when one holds `lightwalletd`, else none is detected.
pub fn detect_backend(listing: &str) -> (r: Result<BackendKind, BackendError>)
    ensures
        match r {
            Ok(k) => detect_spec(listing@) == Some(k),
            Err(e) => detect_spec(listing@) is None && e is NoBackendDetected,
        },
{
    let names = chars_of(listing);
    if contains(&names, &chars_of(ZAINO_MARKER)) {
        Ok(BackendKind::Zaino)
    } else if contains(&names, &chars_of(LIGHTWALLETD_MARKER)) {
        Ok(BackendKind::Lightwalletd)
    } else {
        Err(BackendError::NoBackendDetected)
    }
}

impl BackendKind {
    pub open spec fn uri_spec(self) -> Seq<char> {
        match self {
            BackendKind::Zaino => ZAINO_URI@,
            _ => LIGHTWALLETD_URI@,
        }
    }

    /// The endpoint that the wallet talks to; without a backend the wallet is configured
    /// for lightwalletd.
    pub fn uri(self) -> (r: &'static str)
        ensures
            r@ == self.uri_spec(),
    {
        match self {
            BackendKind::Zaino => ZAINO_URI,
            _ => LIGHTWALLETD_URI,
        }
    }

    /// The compose profile that starts the backend, if one is requested.
    pub fn profile(self) -> (r: Option<&'static str>)
        ensures
            self is NoBackend <==> r is None,
            self is Zaino ==> (r matches Some(p) && p@ == "zaino"@),
            self is Lightwalletd ==> (r matches Some(p) && p@ == "lwd"@),
    {
        match self {
            BackendKind::NoBackend => None,
            BackendKind::Zaino => Some("zaino"),
            BackendKind::Lightwalletd => Some("lwd"),
        }
    }

    /// A backend was asked for, so its readiness is waited on.
    pub fn requested(self) -> (r: bool)
        ensures
            r == !(self is NoBackend),
    {
        !matches!(self, BackendKind::NoBackend)
    }
}

} // verus!
