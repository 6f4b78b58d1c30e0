use ripclip::config::{Config, LineError, ParseError, DEFAULT_CONFIG};
use ripclip::loader::{
    after_directory, after_open, after_write, begin, LoadStep, Opened, CONFIG_DIRECTORY,
    CONFIG_FILE,
};

#[test]
fn without_a_directory_the_defaults_are_used() {
    match after_directory(None) {
        LoadStep::Done(Ok(config)) => assert_eq!(config, Config::default()),
        other => panic!("unexpected: {:?}", other),
    }
}

#[test]
fn with_a_directory_the_file_is_opened() {
    let directory = std::path::PathBuf::from("/home/alice/.config");
    match after_directory(Some(directory.clone())) {
        LoadStep::Open(path) => assert_eq!(path, directory),
        other => panic!("unexpected: {:?}", other),
    }
}

#[test]
fn first_step_opens_or_ends_with_the_defaults() {
    match begin() {
        LoadStep::Open(_) => {}
        LoadStep::Done(Ok(config)) => assert_eq!(config, Config::default()),
        other => panic!("unexpected: {:?}", other),
    }
}

#[test]
fn a_file_that_was_read_is_parsed() {
    match after_open(Opened::Whole(b"max_stack_size = none\n".to_vec())) {
        LoadStep::Done(Ok(config)) => {
            assert_eq!(config, Config { max_stack_size: None, ..Config::default() })
        }
        other => panic!("unexpected: {:?}", other),
    }
    match after_open(Opened::Whole(DEFAULT_CONFIG.as_bytes().to_vec())) {
        LoadStep::Done(Ok(config)) => assert_eq!(config, Config::default()),
        other => panic!("unexpected: {:?}", other),
    }
}

#[test]
fn a_file_that_is_refused_ends_loading_with_the_error() {
    match after_open(Opened::Whole(b"\nfoo = bar\n".to_vec())) {
        LoadStep::Done(Err(ParseError::Line(LineError::UnknownOption(name), 1))) => {
            assert_eq!(name, "foo")
        }
        other => panic!("unexpected: {:?}", other),
    }
}

#[test]
fn a_file_that_cannot_be_opened_is_written() {
    assert!(matches!(after_open(Opened::Missing), LoadStep::WriteDefault));
}

#[test]
fn a_read_that_fails_is_an_io_error() {
    let failure = std::io::Error::new(std::io::ErrorKind::Other, "gone");
    match after_open(Opened::Interrupted(b"max_stack_size = 4\nshow".to_vec(), failure)) {
        LoadStep::Done(Err(ParseError::Io(e))) => assert_eq!(e.to_string(), "gone"),
        other => panic!("unexpected: {:?}", other),
    }
}

#[test]
fn after_writing_the_defaults_are_used() {
    for written in [true, false] {
        match after_write(written) {
            LoadStep::Done(Ok(config)) => assert_eq!(config, Config::default()),
            other => panic!("unexpected: {:?}", other),
        }
    }
}

#[test]
fn file_names() {
    assert_eq!(CONFIG_DIRECTORY, "ripclip");
    assert_eq!(CONFIG_FILE, "ripclip.conf");
}
