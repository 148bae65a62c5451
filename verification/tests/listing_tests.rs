use toolset_io::error::ToolsetError;
use toolset_io::listing::{
    print_all_frameworks, print_all_tests, print_all_tests_for_framework, print_all_tests_with_tag,
    Entity,
};

fn entities(names: &[&str]) -> Vec<Entity> {
    names.iter().map(|n| Entity { name: n.to_string() }).collect()
}

#[test]
fn it_can_print_all_tests() {
    let passed = match print_all_tests(Ok(entities(&["json", "plaintext"]))) {
        Ok(_) => true,
        _ => false,
    };
    assert!(passed);
}

#[test]
fn it_can_print_all_frameworks() {
    let passed = match print_all_frameworks(Ok(entities(&["gemini", "actix"]))) {
        Ok(_) => true,
        _ => false,
    };
    assert!(passed);
}

#[test]
fn it_can_print_all_tests_with_tag() {
    let passed = match print_all_tests_with_tag(Ok(entities(&["broken"]))) {
        Ok(_) => true,
        _ => false,
    };
    assert!(passed);
}

#[test]
fn listing_prints_each_name_in_order() {
    let lines = print_all_tests(Ok(entities(&["json", "plaintext", "db"]))).unwrap();
    assert_eq!(lines, vec!["json", "plaintext", "db"]);
}

#[test]
fn listing_for_framework_prints_names() {
    let lines = print_all_tests_for_framework(Ok(entities(&["gemini"]))).unwrap();
    assert_eq!(lines, vec!["gemini"]);
}

#[test]
fn listing_propagates_io_error_unchanged() {
    let err: Result<Vec<Entity>, ToolsetError> = Err(ToolsetError::IoError("boom".to_string()));
    let r = print_all_frameworks(err);
    assert_eq!(r, Err(ToolsetError::IoError("boom".to_string())));
}
