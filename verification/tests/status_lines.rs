use comic_ingest::status::HttpStatus;

#[test]
fn status_line_names_the_code_and_its_reason() {
    let status = HttpStatus::from_code(404).expect("404 is a status code");
    assert_eq!(status.code(), 404);
    assert!(!status.is_success());
    assert_eq!(status.line(), "404 Not Found");
}

#[test]
fn status_line_of_a_code_without_a_reason() {
    let status = HttpStatus::from_code(299).expect("299 is a status code");
    assert!(status.is_success());
    assert_eq!(status.line(), "299 <unknown status code>");
}

#[test]
fn numbers_outside_the_range_are_no_status() {
    assert_eq!(HttpStatus::from_code(99), None);
    assert_eq!(HttpStatus::from_code(1000), None);
    assert_eq!(HttpStatus::from_code(0), None);
    assert!(HttpStatus::from_code(100).is_some());
    assert!(HttpStatus::from_code(999).is_some());
}

#[test]
fn success_is_the_range_from_200_to_299() {
    assert!(!HttpStatus::from_code(199).unwrap().is_success());
    assert!(HttpStatus::from_code(200).unwrap().is_success());
    assert!(HttpStatus::from_code(204).unwrap().is_success());
    assert!(HttpStatus::from_code(299).unwrap().is_success());
    assert!(!HttpStatus::from_code(300).unwrap().is_success());
    assert!(!HttpStatus::from_code(500).unwrap().is_success());
}
