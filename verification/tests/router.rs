use rustify_ui::router::{strip_base, Arrival, History, Location, Params, Route, Routes};

fn routes() -> Routes {
    Routes::new(&["/", "/objects", "/objects/:id", "/objects/:id/notes"])
}

#[test]
fn a_static_route_matches_only_itself() {
    assert_eq!(
        routes().match_path("/objects").map(|(index, _)| index),
        Some(1)
    );
    assert_eq!(routes().match_path("/objects-archive"), None);
    assert_eq!(routes().match_path("/"), Some((0, Default::default())));
}

#[test]
fn a_parameter_binds_by_name() {
    let (index, params) = routes().match_path("/objects/17").expect("matched");
    assert_eq!(index, 2);
    assert_eq!(params.get("id").map(String::as_str), Some("17"));

    let (index, params) = routes().match_path("/objects/17/notes").expect("matched");
    assert_eq!(index, 3);
    assert_eq!(params.get("id").map(String::as_str), Some("17"));
}

#[test]
fn a_parameter_arrives_decoded() {
    let (_, params) = routes().match_path("/objects/a%20b").expect("matched");
    assert_eq!(params.get("id").map(String::as_str), Some("a b"));
}

#[test]
fn a_path_that_matches_nothing_is_an_answer_rather_than_an_error() {
    assert_eq!(routes().match_path("/nowhere"), None);
    assert_eq!(routes().match_path("/objects/17/notes/extra"), None);
}

#[test]
fn a_trailing_slash_is_the_same_place() {
    assert_eq!(
        routes().match_path("/objects/17/"),
        routes().match_path("/objects/17")
    );
    assert_eq!(Location::new("/objects/", "").path, "/objects");
}

#[test]
fn an_address_is_the_base_and_the_path_and_the_query() {
    let at = Location::new("/objects/17", "?tab=notes");
    assert_eq!(at.href("/"), "/objects/17?tab=notes");
    assert_eq!(at.href("/tools/demo/"), "/tools/demo/objects/17?tab=notes");
}

#[test]
fn a_path_outside_the_base_is_not_ours() {
    assert_eq!(
        strip_base("/tools/demo/", "/tools/demo/objects"),
        Some("/objects")
    );
    assert_eq!(strip_base("/tools/demo/", "/tools/demo"), Some("/"));
    assert_eq!(strip_base("/tools/demo/", "/tools/demo-other/x"), None);
    assert_eq!(strip_base("/tools/demo/", "/elsewhere"), None);
    assert_eq!(strip_base("/", "/objects"), Some("/objects"));
}

#[test]
fn a_push_takes_the_next_number_and_a_replace_keeps_the_one_it_has() {
    let mut history = History::new(0);
    assert_eq!(history.push(), 1);
    assert_eq!(history.push(), 2);
    assert_eq!(history.replace(), 2);
    assert_eq!(history.index(), 2);
}

#[test]
fn an_allowed_move_is_simply_accepted() {
    let mut history = History::new(4);
    assert_eq!(history.arrived(Some(1), false), Arrival::Accept);
    assert_eq!(history.index(), 1);
    assert!(!history.restoring());
}

#[test]
fn a_refused_move_is_undone_in_one_go_of_the_difference() {
    let mut history = History::new(4);
    assert_eq!(
        history.arrived(Some(1), true),
        Arrival::Restore { delta: 3 }
    );
    assert!(history.restoring());
    assert_eq!(history.index(), 4);

    assert_eq!(history.arrived(Some(4), true), Arrival::Accept);
    assert!(!history.restoring());
    assert_eq!(history.index(), 4);
}

#[test]
fn a_back_pressed_during_a_recovery_is_re_aimed_from_where_it_landed() {
    let mut history = History::new(4);
    assert_eq!(
        history.arrived(Some(1), true),
        Arrival::Restore { delta: 3 }
    );
    assert_eq!(
        history.arrived(Some(2), true),
        Arrival::Restore { delta: 2 }
    );
    assert_eq!(history.arrived(Some(4), true), Arrival::Accept);
    assert_eq!(history.index(), 4);
}

#[test]
fn a_recovery_that_will_not_converge_stops_rather_than_fighting() {
    let mut history = History::new(4);
    assert_eq!(
        history.arrived(Some(1), true),
        Arrival::Restore { delta: 3 }
    );
    assert_eq!(
        history.arrived(Some(1), true),
        Arrival::Restore { delta: 3 }
    );
    assert_eq!(
        history.arrived(Some(1), true),
        Arrival::Restore { delta: 3 }
    );
    assert_eq!(history.arrived(Some(1), true), Arrival::GiveUp);
    assert!(!history.restoring());
    assert_eq!(history.index(), 1);
}

#[test]
fn an_entry_this_router_did_not_push_is_left_alone() {
    let mut history = History::new(4);
    assert_eq!(history.arrived(None, true), Arrival::Accept);
    assert!(!history.restoring());
}

#[test]
fn a_push_ends_any_recovery_because_it_truncates_what_was_ahead() {
    let mut history = History::new(4);
    assert_eq!(
        history.arrived(Some(1), true),
        Arrival::Restore { delta: 3 }
    );
    history.push();
    assert!(!history.restoring());
}

#[test]
fn a_forward_move_that_is_refused_goes_back_by_a_negative_difference() {
    let mut history = History::new(1);
    assert_eq!(
        history.arrived(Some(3), true),
        Arrival::Restore { delta: -2 }
    );
    assert_eq!(history.arrived(Some(1), true), Arrival::Accept);
}

#[test]
fn the_first_binding_of_a_name_is_the_one_kept_and_an_insert_replaces_it() {
    let mut params = Params::new();
    assert_eq!(params.get("id"), None);
    params.insert("id".to_string(), "1".to_string());
    params.insert("tab".to_string(), "x".to_string());
    params.insert("id".to_string(), "2".to_string());
    assert_eq!(params.get("id").map(String::as_str), Some("2"));
    assert_eq!(params.get("tab").map(String::as_str), Some("x"));
    assert_eq!(routes().len(), 4);
    assert!(!routes().is_empty());
}

#[test]
fn a_malformed_escape_is_kept_as_it_was_written() {
    let (_, params) = routes().match_path("/objects/50%").expect("matched");
    assert_eq!(params.get("id").map(String::as_str), Some("50%"));
    let (_, params) = routes().match_path("/objects/%e4%b8%ad").expect("matched");
    assert_eq!(params.get("id").map(String::as_str), Some("中"));
}

#[test]
fn a_location_path_always_starts_with_a_slash() {
    assert_eq!(Location::new("objects", "").path, "/objects");
    assert_eq!(Location::new("", "").path, "/");
    assert_eq!(Location::new("///", "").path, "/");
}

#[test]
fn taking_the_base_off_an_address_gives_the_path_back() {
    for base in ["/", "/tools/demo/", "/tools/demo", ""] {
        for path in ["/objects/17", "/", "objects/"] {
            let at = Location::new(path, "");
            let href = at.href(base);
            assert_eq!(strip_base(base, &href), Some(at.path.as_str()), "{base:?} {path:?}");
        }
    }
}

#[test]
fn extra_slashes_in_a_pattern_declare_the_same_route() {
    let route = Route::new("/objects/:id");
    assert_eq!(Route::new("objects/:id/"), route);
    assert_eq!(Route::new("//objects//:id"), route);
    assert_ne!(Route::new("/objects"), route);
}
