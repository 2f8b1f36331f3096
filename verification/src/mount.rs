//! Whether a scope may be mounted into a container, and under what name.
//!
//! A scope is refused before anything is written: a container that is not in
//! the document, one another scope already owns, or an address bar another
//! scope already owns. Each refusal is an error the application is handed and
//! an entry in the record, with the scope's name on it.

use vstd::prelude::*;
use crate::diagnostics::{ErrorKind, UiError};

verus! {

/// How a scope is mounted.
#[derive(Clone, Debug)]
pub struct MountConfig {
    /// Human readable scope name used in diagnostics and DOM attributes.
    pub scope: String,
    /// Whether this scope owns the page's address bar. One page has one, so
    /// at most one scope may say yes; a scope that says no still routes, in
    /// memory.
    pub url_owner: bool,
    /// The path this application is deployed under, for an owner.
    pub base: String,
}

impl Default for MountConfig {
    fn default() -> (r: MountConfig)
        ensures
            r.scope@ == Seq::<char>::empty(),
            !r.url_owner,
            r.base@ == Seq::<char>::empty(),
    {
        MountConfig { scope: String::new(), url_owner: false, base: String::new() }
    }
}

/// Why a scope was not mounted: the error the application is handed, and
/// the entry the record gets, with the scope name it carries.
#[derive(Clone, Debug, PartialEq, Eq)]
pub struct Refused {
    pub error: UiError,
    pub kind: ErrorKind,
    pub detail: &'static str,
    pub scope: String,
}

/// The name a scope goes by: its own, or `default` when it has none.
pub open spec fn scope_name(scope: Seq<char>) -> Seq<char> {
    if scope.len() == 0 {
        "default"@
    } else {
        scope
    }
}

/// What mounting asks of the page, in order: a container in the document,
/// one no other scope owns, and, for an owner of the address bar, an address
/// bar nobody else owns. The answer is the scope's name, or the refusal.
pub open spec fn admission(
    config_scope: Seq<char>,
    url_owner: bool,
    connected: bool,
    occupied: bool,
    url_free: bool,
) -> Result<Seq<char>, (UiError, ErrorKind, Seq<char>, Seq<char>)> {
    if !connected {
        Err((UiError::InvalidContainer, ErrorKind::InvalidContainer, "the container is not in the document"@, config_scope))
    } else if occupied {
        Err((UiError::OccupiedContainer, ErrorKind::OccupiedContainer, "another scope already owns the container"@, config_scope))
    } else if url_owner && !url_free {
        Err((UiError::UrlOwnerConflict, ErrorKind::UrlOwnerConflict, "another scope on this page already owns the URL"@, scope_name(config_scope)))
    } else {
        Ok(scope_name(config_scope))
    }
}

/// Decides whether the scope `config` describes may be mounted into a
/// container that is `connected` to the document and already `occupied` or
/// not, with the address bar `url_free` or claimed.
pub fn check_mount(config: &MountConfig, connected: bool, occupied: bool, url_free: bool) -> (r: Result<String, Refused>)
    ensures
        match r {
            Ok(name) => admission(config.scope@, config.url_owner, connected, occupied, url_free) == Ok::<
                Seq<char>,
                (UiError, ErrorKind, Seq<char>, Seq<char>),
            >(name@),
            Err(refused) => admission(config.scope@, config.url_owner, connected, occupied, url_free) == Err::<
                Seq<char>,
                (UiError, ErrorKind, Seq<char>, Seq<char>),
            >((refused.error, refused.kind, refused.detail@, refused.scope@)),
        },
{
    if !connected {
        return Err(Refused {
            error: UiError::InvalidContainer,
            kind: ErrorKind::InvalidContainer,
            detail: "the container is not in the document",
            scope: config.scope.clone(),
        });
    }
    if occupied {
        return Err(Refused {
            error: UiError::OccupiedContainer,
            kind: ErrorKind::OccupiedContainer,
            detail: "another scope already owns the container",
            scope: config.scope.clone(),
        });
    }
    let name = if config.scope.as_str().unicode_len() == 0 {
        "default".to_owned()
    } else {
        config.scope.clone()
    };
    if config.url_owner && !url_free {
        return Err(Refused {
            error: UiError::UrlOwnerConflict,
            kind: ErrorKind::UrlOwnerConflict,
            detail: "another scope on this page already owns the URL",
            scope: name,
        });
    }
    Ok(name)
}

/// A refusal always carries an error the record registers, of the same
/// class.
pub proof fn law_every_refusal_is_recorded_as_itself(
    config_scope: Seq<char>,
    url_owner: bool,
    connected: bool,
    occupied: bool,
    url_free: bool,
)
    ensures
        admission(config_scope, url_owner, connected, occupied, url_free) matches Err((e, k, _, _)) ==> crate::diagnostics::error_kind(e) == Some(k),
{
}

} // verus!
