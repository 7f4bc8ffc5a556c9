use splix::weights::WeightError;
use splix::request::{validate_args, ValidationError};

#[test]
fn missing_source_is_rejected_first() {
    let result = validate_args("nowhere", false, None, None, None, false);
    assert_eq!(result.unwrap_err(), ValidationError::SourceMissing);
    let result = validate_args("nowhere", false, Some(vec![0]), Some(vec![]), None, false);
    assert_eq!(result.unwrap_err(), ValidationError::SourceMissing);
}

#[test]
fn request_without_axis_is_rejected() {
    let result = validate_args("img.png", true, None, None, Some("out"), true);
    assert_eq!(result.unwrap_err(), ValidationError::NoAxis);
}

#[test]
fn zero_row_weight_is_rejected() {
    let result = validate_args("img.png", true, Some(vec![2, 0]), None, None, false);
    assert_eq!(result.unwrap_err(), ValidationError::Rows(WeightError::Zero));
}

#[test]
fn zero_col_weight_is_rejected() {
    let result = validate_args("img.png", true, None, Some(vec![0]), None, false);
    assert_eq!(result.unwrap_err(), ValidationError::Cols(WeightError::Zero));
}

#[test]
fn empty_weight_lists_are_rejected() {
    let result = validate_args("img.png", true, Some(vec![]), None, None, false);
    assert_eq!(result.unwrap_err(), ValidationError::Rows(WeightError::Empty));
    let result = validate_args("img.png", true, Some(vec![2]), Some(vec![]), None, false);
    assert_eq!(result.unwrap_err(), ValidationError::Cols(WeightError::Empty));
}

#[test]
fn rows_are_checked_before_cols() {
    let result = validate_args("img.png", true, Some(vec![0]), Some(vec![0]), None, false);
    assert_eq!(result.unwrap_err(), ValidationError::Rows(WeightError::Zero));
}

#[test]
fn absent_axis_is_left_whole() {
    let request = validate_args("img.png", true, Some(vec![4]), None, None, false).unwrap();
    assert_eq!(request.row_spec.weights(), &vec![4]);
    assert_eq!(request.col_spec.weights(), &vec![1]);
    let request = validate_args("img.png", true, None, Some(vec![2, 3]), None, false).unwrap();
    assert_eq!(request.row_spec.weights(), &vec![1]);
    assert_eq!(request.col_spec.weights(), &vec![2, 3]);
}

#[test]
fn request_carries_what_was_given() {
    let request =
        validate_args("pics", true, Some(vec![2]), Some(vec![3]), Some("tiles"), true).unwrap();
    assert_eq!(request.source, "pics");
    assert_eq!(request.output_dir, "tiles");
    assert!(request.recursive);
    assert_eq!(request.max_depth(), usize::MAX);
}

#[test]
fn output_directory_has_a_default() {
    let request = validate_args("pics", true, Some(vec![2]), None, None, false).unwrap();
    assert_eq!(request.output_dir, "splixed-images");
    assert!(!request.recursive);
    assert_eq!(request.max_depth(), 1);
}

#[test]
fn messages_name_the_fault() {
    assert_eq!(
        ValidationError::SourceMissing.message("no/such/file.png"),
        "splix: image: The provided path 'no/such/file.png' does not exist"
    );
    assert_eq!(
        ValidationError::NoAxis.message("x"),
        "splix: At least one of '--rows', '--cols' needs to be specified"
    );
    assert_eq!(
        ValidationError::Rows(WeightError::Zero).message("x"),
        "splix: rows: All row sizes must be greater than zero"
    );
    assert_eq!(
        ValidationError::Cols(WeightError::Zero).message("x"),
        "splix: cols: All column sizes must be greater than zero"
    );
    assert_eq!(
        ValidationError::Rows(WeightError::Empty).message("x"),
        "splix: rows: At least one row size must be given"
    );
    assert_eq!(
        ValidationError::Cols(WeightError::Empty).message("x"),
        "splix: cols: At least one column size must be given"
    );
}
