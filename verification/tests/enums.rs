// The three closed enumerations and their string mappings: Status falls
// back to Unknown on unrecognized input, DcName and ActionType reject it.

use rust_eureka::{ActionType, DcName, Status};

#[test]
fn action_type_test_from_str() {
    assert_eq!(ActionType::Added, ActionType::from_str("ADDED").unwrap());
    assert_eq!(ActionType::Deleted, ActionType::from_str("DELETED").unwrap());
    assert_eq!(ActionType::Modified, ActionType::from_str("MODIFIED").unwrap());
}

#[test]
#[should_panic]
fn action_type_test_from_str_invalid() {
    ActionType::from_str("sfd2ef").unwrap();
}

#[test]
fn action_type_test_to_string() {
    assert_eq!("ADDED".to_owned(), String::from(ActionType::Added));
    assert_eq!("DELETED".to_owned(), String::from(ActionType::Deleted));
    assert_eq!("MODIFIED".to_owned(), String::from(ActionType::Modified));
}

#[test]
fn dcname_test_from_str() {
    assert_eq!(DcName::Amazon, DcName::from_str("Amazon").unwrap());
    assert_eq!(DcName::MyOwn, DcName::from_str("MyOwn").unwrap());
}

#[test]
#[should_panic]
fn dcname_test_from_str_invalid() {
    DcName::from_str("sfd2ef").unwrap();
}

#[test]
fn dcname_test_to_string() {
    assert_eq!("Amazon".to_owned(), String::from(DcName::Amazon));
    assert_eq!("MyOwn".to_owned(), String::from(DcName::MyOwn));
}

#[test]
fn test_from_string_ref() {
    let up = Status::from("UP");
    assert_eq!(Status::Up, up);
}

#[test]
fn test_from_string() {
    let up = Status::from("UP".to_owned());
    assert_eq!(Status::Up, up);
}

#[test]
fn test_status_values() {
    assert_eq!(
        vec![Status::Up, Status::Down, Status::Starting, Status::OutOfService],
        Status::values()
    );
    assert_eq!(vec![DcName::MyOwn, DcName::Amazon], DcName::values());
    assert_eq!(
        vec![ActionType::Added, ActionType::Deleted, ActionType::Modified],
        ActionType::values()
    );
}

#[test]
fn test_status_fallback_vs_action_strictness() {
    // any unrecognized status string falls back to Unknown
    assert_eq!(Status::Unknown, Status::from("GARBAGE"));
    // while an unrecognized action type is an error
    assert!(ActionType::from_str("GARBAGE").is_err());
    let err = ActionType::from_str("GARBAGE").unwrap_err();
    assert_eq!("Not a valid ActionType".to_owned(), err.description());
}

#[test]
fn test_invalid_dcname_description() {
    let err = DcName::from_str("GARBAGE").unwrap_err();
    assert_eq!("Not a valid DCName".to_owned(), err.description());
}
