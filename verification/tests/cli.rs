use memhog::cli::{requested_bytes, usage, Failure, EXIT_FAILURE, EXIT_SUCCESS};
use memhog::controller::AllocationFailure;
use memhog::size::ParseError;

fn args(words: &[&str]) -> Vec<String> {
    words.iter().map(|w| w.to_string()).collect()
}

#[test]
fn exit_codes() {
    assert_eq!(EXIT_SUCCESS, 0);
    assert_eq!(EXIT_FAILURE, 1);
    assert_eq!(Failure::Usage.exit_code(), 1);
    assert_eq!(Failure::Parse(ParseError::InvalidNumber).exit_code(), 1);
    assert_eq!(Failure::Parse(ParseError::InvalidUnit).exit_code(), 1);
    assert_eq!(Failure::Allocation(AllocationFailure { chunk_size: 1 }).exit_code(), 1);
}

#[test]
fn one_argument_is_parsed() {
    assert_eq!(requested_bytes(&args(&["memhog", "25M"])), Ok(26214400));
    assert_eq!(requested_bytes(&args(&["memhog", "1G"])), Ok(1073741824));
    assert_eq!(requested_bytes(&args(&["memhog", "4096"])), Ok(4096));
    assert_eq!(requested_bytes(&args(&["memhog", "0"])), Ok(0));
}

#[test]
fn wrong_argument_count_is_a_usage_failure() {
    assert_eq!(requested_bytes(&args(&[])), Err(Failure::Usage));
    assert_eq!(requested_bytes(&args(&["memhog"])), Err(Failure::Usage));
    assert_eq!(requested_bytes(&args(&["memhog", "1G", "2G"])), Err(Failure::Usage));
    assert_eq!(requested_bytes(&args(&["memhog", "bad", "worse", "x"])), Err(Failure::Usage));
}

#[test]
fn unparseable_argument_is_a_parse_failure() {
    let failure: Failure = requested_bytes(&args(&["memhog", "10Z"])).unwrap_err();
    assert_eq!(failure, Failure::Parse(ParseError::InvalidUnit));
    assert_eq!(failure.message("memhog"), "Invalid unit. Use G, M, K or leave unit empty");
    assert_eq!(failure.exit_code(), 1);
    let failure: Failure = requested_bytes(&args(&["memhog", "abcM"])).unwrap_err();
    assert_eq!(failure, Failure::Parse(ParseError::InvalidNumber));
    assert_eq!(failure.message("memhog"), "Invalid number format");
    assert_eq!(failure.exit_code(), 1);
}

#[test]
fn usage_line_names_the_program() {
    assert_eq!(usage("memhog"), "Usage: memhog <size_with_unit>");
    assert_eq!(usage(""), "Usage:  <size_with_unit>");
    assert_eq!(Failure::Usage.message("./eat"), "Usage: ./eat <size_with_unit>");
}

#[test]
fn allocation_failure_line() {
    let failure: Failure = Failure::Allocation(AllocationFailure { chunk_size: 10485760 });
    assert_eq!(failure.message("memhog"), "Failed to allocate memory");
}
