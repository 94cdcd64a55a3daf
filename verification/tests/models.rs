use hopes::models::{Color, Item, Priority, Status};

#[test]
fn priority_steps_and_labels() {
    assert_eq!(Priority::Urgent.next(), Priority::High);
    assert_eq!(Priority::Low.next(), Priority::Urgent);
    assert_eq!(Priority::Urgent.prev(), Priority::Low);
    assert_eq!(Priority::Medium.prev(), Priority::High);
    for p in Priority::all() {
        assert_eq!(p.next().prev(), p);
        assert_eq!(p.next().next().next().next(), p);
    }
    assert_eq!(Priority::High.label(), "HIGH");
    assert_eq!(Priority::Medium.short_label(), "MED");
    assert_eq!(Priority::Urgent.color(), Color::LightRed);
    assert_eq!(Priority::Low.color(), Color::DarkGray);
}

#[test]
fn priority_from_digit_keys() {
    assert_eq!(Priority::from_digit('1'), Some(Priority::Urgent));
    assert_eq!(Priority::from_digit('4'), Some(Priority::Low));
    assert_eq!(Priority::from_digit('5'), None);
    assert_eq!(Priority::from_digit('x'), None);
}

#[test]
fn status_steps_badges_and_labels() {
    assert_eq!(Status::Todo.next(), Status::InProgress);
    assert_eq!(Status::Complete.next(), Status::Todo);
    assert_eq!(Status::Todo.prev(), Status::Complete);
    for s in Status::all() {
        assert_eq!(s.prev().next(), s);
        assert_eq!(s.next().next().next(), s);
    }
    assert_eq!(Status::InProgress.label(), "IN PROGRESS");
    assert_eq!(Status::InProgress.short_label(), "WIP");
    assert_eq!(Status::Complete.badge(), ("[x]", Color::Green));
    assert_eq!(Status::Todo.badge(), ("[ ]", Color::DarkGray));
}

#[test]
fn new_item_defaults() {
    let it = Item::new("t".to_string(), vec!["a".to_string()]);
    assert_eq!(it.title, "t");
    assert_eq!(it.description, "");
    assert_eq!(it.priority, Priority::Medium);
    assert_eq!(it.status, Status::Todo);
    assert_eq!(it.tags, vec!["a".to_string()]);
    let d = it.with_description("notes".to_string());
    assert_eq!(d.description, "notes");
    assert_eq!(d.title, "t");
}
