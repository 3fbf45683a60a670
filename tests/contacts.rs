use std::collections::BTreeMap;

use bom_validator::contact::{
    validate_date, validate_email, validate_name, validate_phone, Email, Metadata,
    OrganizationalContact, Phone,
};
use bom_validator::{ValidationError, ValidationErrors, ValidationErrorsKind, ValidationResult};

#[test]
fn it_validates() {
    let metadata = Metadata {
        timestamp: Some("2024-02-04".to_string()),
        authors: vec![
            OrganizationalContact {
                name: Some("lisa".to_string()),
                email: Some(Email("lisa@example.com".to_string())),
                phone: Some(Phone("012345678".to_string())),
            },
            OrganizationalContact {
                name: Some("bart".to_string()),
                email: Some(Email("bar@example.com".to_string())),
                phone: Some(Phone("555-1234".to_string())),
            },
        ],
    };

    let result = metadata.validate();
    println!("{:?}", result);
    let errors = result.errors().unwrap();
    println!("ERRORS: {:#?}", errors);
}

#[test]
fn contact_errors_by_author() {
    let metadata = Metadata {
        timestamp: Some("2024-02-04".to_string()),
        authors: vec![
            OrganizationalContact {
                name: Some("lisa".to_string()),
                email: Some(Email("lisa@example.com".to_string())),
                phone: Some(Phone("012345678".to_string())),
            },
            OrganizationalContact {
                name: Some("bart".to_string()),
                email: Some(Email("bar@example.com".to_string())),
                phone: Some(Phone("555-1234".to_string())),
            },
            OrganizationalContact {
                name: None,
                email: Some(Email("lisa@example.com".to_string())),
                phone: None,
            },
        ],
    };

    let mut first = ValidationErrors::new();
    first.add_field("phone", ValidationError::new("email unknown"));
    let mut second = ValidationErrors::new();
    second.add_field("email", ValidationError::new("email unknown"));
    let mut list = BTreeMap::new();
    list.insert(0usize, first);
    list.insert(1usize, second);
    let mut expected = ValidationErrors::new();
    expected.add_field("timestamp", ValidationError::new("unsupported date format"));
    expected.add_nested("authors", ValidationErrorsKind::List(list));
    assert_eq!(metadata.validate(), ValidationResult::Error(expected));
}

#[test]
fn supported_date_passes() {
    let metadata = Metadata {
        timestamp: Some("2024/02/04".to_string()),
        authors: Vec::new(),
    };
    assert!(metadata.validate().passed());
}

#[test]
fn contact_leaf_rules() {
    assert_eq!(validate_date("2024/02/04"), Ok(()));
    assert_eq!(
        validate_date("2024-02-04"),
        Err(ValidationError::new("unsupported date format"))
    );
    assert_eq!(validate_name("anyone"), Ok(()));
    assert_eq!(validate_email(&Email("lisa@example.com".to_string())), Ok(()));
    assert_eq!(
        validate_email(&Email("bar@example.com".to_string())),
        Err(ValidationError::new("email unknown"))
    );
    assert_eq!(validate_phone(&Phone("555-1234".to_string())), Ok(()));
    assert_eq!(validate_phone(&Phone("555".to_string())), Ok(()));
    assert_eq!(
        validate_phone(&Phone("55".to_string())),
        Err(ValidationError::new("email unknown"))
    );
    assert_eq!(
        validate_phone(&Phone("012345678".to_string())),
        Err(ValidationError::new("email unknown"))
    );
}
