use rustify_ui::diagnostics::{ErrorKind, UiError};
use rustify_ui::mount::{check_mount, MountConfig};

fn config(scope: &str, url_owner: bool) -> MountConfig {
    MountConfig {
        scope: scope.to_string(),
        url_owner,
        base: "/".to_string(),
    }
}

#[test]
fn a_container_outside_the_document_is_refused_first() {
    let refused = check_mount(&config("editor", true), false, true, false).unwrap_err();
    assert_eq!(refused.error, UiError::InvalidContainer);
    assert_eq!(refused.kind, ErrorKind::InvalidContainer);
    assert_eq!(refused.detail, "the container is not in the document");
    assert_eq!(refused.scope, "editor");
}

#[test]
fn an_occupied_container_is_refused_before_the_address_bar_is_asked_about() {
    let refused = check_mount(&config("", true), true, true, false).unwrap_err();
    assert_eq!(refused.error, UiError::OccupiedContainer);
    assert_eq!(refused.kind, ErrorKind::OccupiedContainer);
    assert_eq!(refused.scope, "");
}

#[test]
fn a_second_owner_of_the_address_bar_is_refused_under_its_name() {
    let refused = check_mount(&config("", true), true, false, false).unwrap_err();
    assert_eq!(refused.error, UiError::UrlOwnerConflict);
    assert_eq!(refused.kind, ErrorKind::UrlOwnerConflict);
    assert_eq!(refused.scope, "default");
    assert_eq!(refused.detail, "another scope on this page already owns the URL");
}

#[test]
fn a_scope_that_may_mount_goes_by_its_own_name_or_default() {
    assert_eq!(check_mount(&config("editor", false), true, false, false), Ok("editor".to_string()));
    assert_eq!(check_mount(&config("", true), true, false, true), Ok("default".to_string()));
    let plain = MountConfig::default();
    assert!(!plain.url_owner);
    assert_eq!(check_mount(&plain, true, false, false), Ok("default".to_string()));
}
