use minigrep::Config;
use minigrep::ConfigError;
use minigrep::IOError;

fn args_of(tokens: &[&str]) -> Vec<String> {
    let mut args: Vec<String> = Vec::new();
    for token in tokens {
        args.push(String::from(*token));
    }
    args
}

#[test]
fn build_with_no_arguments_misses_query() {
    let args: Vec<String> = Vec::new();
    match Config::build(&args, false) {
        Err(e) => assert_eq!(e, ConfigError::MissingQuery),
        Ok(_) => panic!("expected a configuration error"),
    }
}

#[test]
fn build_with_only_program_name_misses_query() {
    let args = args_of(&["prog"]);
    match Config::build(&args, false) {
        Err(e) => assert_eq!(e, ConfigError::MissingQuery),
        Ok(_) => panic!("expected a configuration error"),
    }
}

#[test]
fn build_without_file_path_misses_file_path() {
    let args = args_of(&["prog", "needle"]);
    match Config::build(&args, false) {
        Err(e) => assert_eq!(e, ConfigError::MissingFilePath),
        Ok(_) => panic!("expected a configuration error"),
    }
}

#[test]
fn build_takes_query_and_file_path_in_order() {
    let args = args_of(&["prog", "needle", "haystack.txt"]);
    match Config::build(&args, false) {
        Ok(config) => {
            assert_eq!(config.query, "needle");
            assert_eq!(config.file_path, "haystack.txt");
            assert!(!config.ignore_case);
        },
        Err(_) => panic!("expected a configuration"),
    }
}

#[test]
fn build_takes_ignore_case_from_the_environment_toggle() {
    let args = args_of(&["prog", "needle", "haystack.txt"]);
    match Config::build(&args, true) {
        Ok(config) => assert!(config.ignore_case),
        Err(_) => panic!("expected a configuration"),
    }
}

#[test]
fn build_takes_ignore_case_from_an_extra_argument() {
    let args = args_of(&["prog", "needle", "haystack.txt", "force"]);
    match Config::build(&args, false) {
        Ok(config) => assert!(config.ignore_case),
        Err(_) => panic!("expected a configuration"),
    }
}

#[test]
fn config_error_messages_are_descriptive() {
    assert_eq!(ConfigError::MissingQuery.message(), "Didn't get a query string");
    assert_eq!(ConfigError::MissingFilePath.message(), "Didn't get a file path");
}

#[test]
fn io_error_messages_are_descriptive() {
    assert_eq!(IOError::NotFound.message(), "file not found");
    assert_eq!(IOError::NotReadable.message(), "file could not be read");
    assert_eq!(IOError::DecodeFailure.message(), "file is not valid text");
}
