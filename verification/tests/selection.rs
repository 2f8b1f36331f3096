use rustify_ui::selection::{Counts, Id, Selection};

fn selection(ids: &[Id]) -> Selection {
    Selection::from_ids(ids)
}

#[test]
fn toggling_says_what_the_identity_now_is() {
    let mut chosen = Selection::new();
    assert!(chosen.toggle(7));
    assert!(chosen.contains(7));
    assert!(!chosen.toggle(7));
    assert!(!chosen.contains(7));
    assert!(chosen.is_empty());
}

#[test]
fn deleting_an_identity_deselects_it_and_leaves_the_rest() {
    let mut chosen = selection(&[1, 2, 3, 4, 5, 6, 7, 8, 9, 10]);
    assert_eq!(chosen.remove_deleted(&[2, 5, 9, 99]), 3);
    assert_eq!(chosen.len(), 7);
    for id in [1, 3, 4, 6, 7, 8, 10] {
        assert!(chosen.contains(id), "{id} was not deleted");
    }
    for id in [2, 5, 9] {
        assert!(!chosen.contains(id), "{id} was deleted");
    }
}

#[test]
fn reordering_and_hiding_change_nothing_about_what_is_selected() {
    let chosen = selection(&[3, 1, 2]);
    assert_eq!(
        chosen.counts(|_| true),
        Counts {
            visible: 3,
            hidden: 0
        }
    );
    assert_eq!(
        chosen.counts(|_| false),
        Counts {
            visible: 0,
            hidden: 3
        }
    );
    assert_eq!(chosen.ids().into_iter().collect::<Vec<_>>(), vec![1, 2, 3]);
}

#[test]
fn how_many_are_hidden_is_a_question_about_the_view() {
    let chosen = selection(&[1, 2, 3, 4, 5]);
    let view: Vec<Id> = vec![2, 4];
    let counts = chosen.counts(|id| view.contains(&id));
    assert_eq!(
        counts,
        Counts {
            visible: 2,
            hidden: 3
        }
    );
    assert_eq!(counts.total(), chosen.len());
}

#[test]
fn setting_replaces_and_adding_does_not() {
    let mut chosen = selection(&[1, 2]);
    chosen.add(&[2, 3]);
    assert_eq!(chosen.ids().into_iter().collect::<Vec<_>>(), vec![1, 2, 3]);
    chosen.set(&[9]);
    assert_eq!(chosen.ids().into_iter().collect::<Vec<_>>(), vec![9]);
    chosen.clear();
    assert!(chosen.is_empty());
}

#[test]
fn an_empty_selection_has_nothing_hidden() {
    let chosen = Selection::new();
    assert_eq!(chosen.counts(|_| false), Counts::default());
}

#[test]
fn toggling_twice_leaves_the_selection_as_it_was() {
    let mut chosen = selection(&[4, 8]);
    let before = chosen.clone();
    chosen.toggle(6);
    chosen.toggle(6);
    assert_eq!(chosen, before);
    chosen.toggle(4);
    chosen.toggle(4);
    assert_eq!(chosen, before);
    assert_eq!(Selection::default(), Selection::new());
}
