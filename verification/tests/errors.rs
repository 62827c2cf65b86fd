use dewey::errors::CliError;

#[test]
fn exit_codes_map_to_spec_values() {
    assert_eq!(CliError::Usage("u".into()).exit_code(), 1);
    assert_eq!(CliError::Module("m".into()).exit_code(), 2);
    assert_eq!(CliError::Network("n".into()).exit_code(), 3);
    assert_eq!(CliError::Config("c".into()).exit_code(), 4);
}

#[test]
fn display_prints_message() {
    assert_eq!(CliError::Module("boom".into()).message(), "boom");
}

#[test]
fn protocol_error_is_module_error() {
    let e = CliError::protocol("fake", "expected value at line 1 column 1");
    assert_eq!(e.exit_code(), 2);
    assert_eq!(e.message(), "module fake: module protocol: expected value at line 1 column 1");
}
