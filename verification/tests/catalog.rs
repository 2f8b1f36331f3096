use rustify_ui::catalog::{catalog, entry, markdown, Category, Support, LATER};

const ALL: [Category; 18] = [
    Category::Button,
    Category::Label,
    Category::Link,
    Category::Icon,
    Category::TextField,
    Category::TextArea,
    Category::Checkbox,
    Category::Radio,
    Category::Switch,
    Category::Select,
    Category::Slider,
    Category::Progress,
    Category::Loading,
    Category::Tooltip,
    Category::Menu,
    Category::Dialog,
    Category::Tabs,
    Category::ScrollArea,
];

#[test]
fn every_one_of_the_eighteen_categories_appears_exactly_once() {
    let table = catalog();
    assert_eq!(table.len(), 18);
    for category in ALL {
        let found = table
            .iter()
            .filter(|entry| entry.category == category)
            .count();
        assert_eq!(found, 1, "{} appears {found} times", category.name());
    }
}

#[test]
fn no_cell_is_blank_and_every_answer_carries_its_reason() {
    for entry in &catalog() {
        assert!(
            !entry.category.name().is_empty(),
            "a category with no name is a blank cell"
        );
        for (class, capability) in entry.capabilities() {
            assert!(
                !capability.note.trim().is_empty(),
                "{} has a bare {class}",
                entry.category.name()
            );
        }
    }
}

#[test]
fn the_nine_this_release_does_not_ship_say_so_in_every_column() {
    let table = catalog();
    let absent: Vec<&'static str> = table
        .iter()
        .filter(|entry| !entry.shipped())
        .map(|entry| entry.category.name())
        .collect();
    assert_eq!(
        absent,
        [
            "link",
            "icon",
            "radio",
            "switch",
            "select",
            "progress",
            "tooltip",
            "tabs",
            "scroll area"
        ]
    );
    for entry in table.iter().filter(|entry| !entry.shipped()) {
        assert_eq!(entry.presentation.across_regions, Support::No);
        for (class, capability) in entry.capabilities() {
            assert_eq!(
                capability.support,
                Support::No,
                "{} claims {class} without shipping anything",
                entry.category.name()
            );
            assert_eq!(capability.note, LATER);
        }
    }
}

#[test]
fn the_nine_it_does_ship_are_the_subset_the_plan_named() {
    let table = catalog();
    let shipped: Vec<&'static str> = table
        .iter()
        .filter(|entry| entry.shipped())
        .map(|entry| entry.category.name())
        .collect();
    assert_eq!(
        shipped,
        [
            "button",
            "label",
            "text field",
            "text area",
            "checkbox",
            "slider",
            "loading",
            "menu",
            "dialog"
        ]
    );
    for entry in table.iter().filter(|entry| entry.shipped()) {
        assert_ne!(entry.presentation.dom, Support::No);
        assert_ne!(entry.accessibility.support, Support::No);
    }
}

#[test]
fn every_row_is_printed_with_ten_filled_cells() {
    let table = markdown();
    let rows: Vec<&str> = table.lines().skip(2).collect();
    assert_eq!(rows.len(), 18);
    for row in rows {
        let cells: Vec<&str> = row.trim_matches('|').split('|').map(str::trim).collect();
        assert_eq!(cells.len(), 10, "{row}");
        for cell in cells {
            assert!(!cell.is_empty(), "blank cell in {row}");
        }
    }
}

#[test]
fn a_category_can_be_looked_up() {
    assert_eq!(entry(Category::Slider).category, Category::Slider);
    assert_eq!(entry(Category::Tabs).presentation.dom, Support::No);
}

#[test]
fn every_category_is_found_where_the_table_holds_it() {
    let table = catalog();
    for (i, category) in ALL.iter().enumerate() {
        assert_eq!(table[i].category, *category);
        assert_eq!(entry(*category), table[i]);
    }
}

#[test]
fn the_table_starts_with_its_header_and_names_each_support_level() {
    let table = markdown();
    let first = table.lines().next().unwrap();
    assert!(first.starts_with('|'));
    assert_eq!(Support::Yes.name(), "yes");
    assert_eq!(Support::Partial.name(), "partial");
    assert_eq!(Support::No.name(), "no");
    assert_eq!(Category::ScrollArea.name(), "scroll area");
}
