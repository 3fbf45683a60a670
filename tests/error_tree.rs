use std::collections::BTreeMap;

use bom_validator::{
    ValidationContext, ValidationError, ValidationErrors, ValidationErrorsKind, ValidationResult,
};

fn failing_tree(name: &str, message: &str) -> ValidationErrors {
    let mut errors = ValidationErrors::new();
    errors.add_field(name, ValidationError::new(message));
    errors
}

#[test]
fn has_error() {
    let mut errors = ValidationErrors::new();
    errors.add_field("test", ValidationError::new("missing"));
    let result = std::result::Result::Err(errors);

    assert!(ValidationErrors::has_error(&result, "test"));
    assert!(!ValidationErrors::has_error(&result, "nope"));
}

#[test]
fn has_error_on_ok() {
    let result: Result<(), ValidationErrors> = Ok(());
    assert!(!ValidationErrors::has_error(&result, "test"));
}

#[test]
fn contains_key() {
    let mut errors = ValidationErrors::new();
    errors.add_field("test", ValidationError::new("missing"));

    assert!(errors.contains_key("test"));
    assert!(!errors.contains_key("haha"));
}

#[test]
fn is_empty() {
    let mut errors = ValidationErrors::new();
    assert!(errors.is_empty());

    errors.add_field("hello", ValidationError::new("again"));
    assert!(!errors.is_empty());
}

#[test]
fn field_errors_accumulate_under_one_name() {
    let mut errors = ValidationErrors::new();
    errors.add_field("a", ValidationError::new("first"));
    errors.add_field("b", ValidationError::new("other"));
    errors.add_field("a", ValidationError::new("second"));

    let text = format!("{:?}", errors);
    let first = text.find("first").unwrap();
    let second = text.find("second").unwrap();
    let other = text.find("other").unwrap();
    assert!(first < second);
    assert!(second < other);
    assert!(text.find("\"a\"").unwrap() < text.find("\"b\"").unwrap());
}

#[test]
fn entries_keep_insertion_order() {
    let mut errors = ValidationErrors::new();
    errors.add_field("zeta", ValidationError::new("z"));
    errors.add_enum("alpha", ValidationError::new("a"));
    let text = format!("{:?}", errors);
    assert!(text.find("zeta").unwrap() < text.find("alpha").unwrap());
}

#[test]
fn passed_collapses_empty_tree() {
    let result = ValidationResult::from_errors(ValidationErrors::new());
    assert!(result.passed());
    assert!(!result.has_errors());
    assert!(result.errors().is_none());

    let result = ValidationResult::from_errors(failing_tree("x", "bad"));
    assert!(!result.passed());
    assert!(result.has_errors());
    assert!(result.errors().unwrap().contains_key("x"));
}

#[test]
fn default_result_is_passed() {
    assert!(ValidationResult::default().passed());
}

#[test]
fn into_errors_of_passed_is_empty() {
    assert!(ValidationResult::Passed.into_errors().is_empty());
    let errors = ValidationResult::Error(failing_tree("x", "bad")).into_errors();
    assert!(errors.contains_key("x"));
}

#[test]
fn merge_field_on_passed_parent() {
    let result =
        ValidationErrors::merge_field(ValidationResult::Passed, "name", ValidationError::new("bad"));
    assert_eq!(result, ValidationResult::Error(failing_tree("name", "bad")));
}

#[test]
fn merge_enum_adds_enum_entry() {
    let result =
        ValidationErrors::merge_enum(ValidationResult::Passed, "kind", ValidationError::new("no"));
    let mut expected = ValidationErrors::new();
    expected.add_enum("kind", ValidationError::new("no"));
    assert_eq!(result, ValidationResult::Error(expected));
}

#[test]
fn merge_struct_passing_child_leaves_no_trace() {
    let parent = ValidationResult::Error(failing_tree("a", "x"));
    let result = ValidationErrors::merge_struct(parent, "child", ValidationResult::Passed);
    assert_eq!(result, ValidationResult::Error(failing_tree("a", "x")));

    let result =
        ValidationErrors::merge_struct(ValidationResult::Passed, "child", ValidationResult::Passed);
    assert!(result.passed());
}

#[test]
fn merge_struct_failing_child_is_nested_unchanged() {
    let child = ValidationResult::Error(failing_tree("inner", "broken"));
    let result = ValidationErrors::merge_struct(ValidationResult::Passed, "child", child);
    let mut expected = ValidationErrors::new();
    expected.add_nested("child", ValidationErrorsKind::Struct(failing_tree("inner", "broken")));
    assert_eq!(result, ValidationResult::Error(expected));
}

#[test]
fn merge_list_all_passing_leaves_parent() {
    let children = vec![ValidationResult::Passed, ValidationResult::Passed];
    let result = ValidationErrors::merge_list(ValidationResult::Passed, "items", children);
    assert!(result.passed());

    let result = ValidationErrors::merge_list(ValidationResult::Passed, "items", Vec::new());
    assert!(result.passed());
}

#[test]
fn merge_list_single_failure_keeps_its_index() {
    for n in 1..6usize {
        for failing in 0..n {
            let children: Vec<ValidationResult> = (0..n)
                .map(|i| {
                    if i == failing {
                        ValidationResult::Error(failing_tree("f", "bad"))
                    } else {
                        ValidationResult::Passed
                    }
                })
                .collect();
            let result = ValidationErrors::merge_list(ValidationResult::Passed, "items", children);
            let mut list = BTreeMap::new();
            list.insert(failing, failing_tree("f", "bad"));
            let mut expected = ValidationErrors::new();
            expected.add_nested("items", ValidationErrorsKind::List(list));
            assert_eq!(result, ValidationResult::Error(expected));
        }
    }
}

#[test]
fn merge_list_keeps_every_failure() {
    let children = vec![
        ValidationResult::Error(failing_tree("a", "first reason")),
        ValidationResult::Passed,
        ValidationResult::Error(failing_tree("b", "second reason")),
    ];
    let result = ValidationErrors::merge_list(ValidationResult::Passed, "items", children);
    let mut list = BTreeMap::new();
    list.insert(0usize, failing_tree("a", "first reason"));
    list.insert(2usize, failing_tree("b", "second reason"));
    let mut expected = ValidationErrors::new();
    expected.add_nested("items", ValidationErrorsKind::List(list));
    assert_eq!(result, ValidationResult::Error(expected));
}

#[test]
fn context_skips_absent_values() {
    let result: ValidationResult = ValidationContext::new()
        .add_field("a", None::<u32>, |_v: u32| Err(ValidationError::new("never")))
        .add_enum("b", None::<u32>, |_v: u32| Err(ValidationError::new("never")))
        .add_struct("c", None::<u32>, |_v: u32| ValidationResult::Error(failing_tree("x", "y")))
        .into();
    assert!(result.passed());
}

#[test]
fn context_collects_every_check() {
    let values = vec![1u32, 5, 2, 7];
    let check = |v: &u32| {
        if *v > 4 {
            ValidationResult::Error(failing_tree("value", "too big"))
        } else {
            ValidationResult::Passed
        }
    };
    let result = ValidationContext::new()
        .add_field("a", Some(3u32), |v: u32| {
            if v > 2 {
                Err(ValidationError::new("a too big"))
            } else {
                Ok(())
            }
        })
        .add_enum("b", Some(0u32), |_v: u32| Ok(()))
        .add_list("values", &values, check)
        .finish();

    let mut list = BTreeMap::new();
    list.insert(1usize, failing_tree("value", "too big"));
    list.insert(3usize, failing_tree("value", "too big"));
    let mut expected = failing_tree("a", "a too big");
    expected.add_nested("values", ValidationErrorsKind::List(list));
    assert_eq!(result, ValidationResult::Error(expected));
}

#[test]
fn calls_that_add_nothing_accept_a_taken_name() {
    let result = ValidationContext::new()
        .add_enum("taken", Some(1u32), |_v: u32| Err(ValidationError::new("bad")))
        .add_field("taken", None::<u32>, |_v: u32| Err(ValidationError::new("never")))
        .add_field("taken", Some(1u32), |_v: u32| Ok(()))
        .add_enum("taken", Some(1u32), |_v: u32| Ok(()))
        .add_struct("taken", Some(1u32), |_v: u32| ValidationResult::Passed)
        .add_struct("taken", None::<u32>, |_v: u32| ValidationResult::Passed)
        .add_list("taken", &vec![1u32, 2], |_v: &u32| ValidationResult::Passed)
        .finish();
    let mut expected = ValidationErrors::new();
    expected.add_enum("taken", ValidationError::new("bad"));
    assert_eq!(result, ValidationResult::Error(expected));
}

#[test]
fn chain_without_failures_passes() {
    let result = ValidationContext::new()
        .add_field("a", Some(1u32), |_v: u32| Ok(()))
        .add_enum("b", Some(2u32), |_v: u32| Ok(()))
        .add_struct("c", Some(3u32), |_v: u32| ValidationResult::Passed)
        .add_list("d", &vec![4u32, 5], |_v: &u32| ValidationResult::Passed)
        .finish();
    assert!(result.passed());
}

#[test]
fn default_tree_is_empty() {
    assert!(ValidationErrors::default().is_empty());
}
