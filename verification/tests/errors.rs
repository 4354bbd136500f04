use humility_cmd::error::{AttachFailure, Error};

#[test]
fn every_failure_has_its_words() {
    assert_eq!(
        Error::DuplicateCommand { first: 3, second: 120 }.message(),
        "commands 3 and 120 share a name"
    );
    assert_eq!(Error::InvalidElementWidth.message(), "the element size must be 1, 2 or 4");
    assert_eq!(Error::InvalidRowWidth.message(), "the row width must not be zero");
    assert_eq!(Error::UnknownCommand("x".to_string()).message(), "command x not found");
    assert_eq!(Error::ArchiveLoad("a b".to_string()).message(), "failed to load archive \"a b\"");
    assert_eq!(Error::DumpLoad("d".to_string()).message(), "failed to load dump \"d\"");
    assert_eq!(Error::MissingArchive.message(), "must provide a Hubris archive or dump");
    assert_eq!(
        Error::Attachment(AttachFailure::MustBeLive).message(),
        "must be run against a live system"
    );
    assert_eq!(Error::Attachment(AttachFailure::MustBeDump).message(), "must be run against a dump");
    assert_eq!(
        Error::Attachment(AttachFailure::NoArchive).message(),
        "a dump cannot be read without an archive"
    );
    assert_eq!(Error::CommandExecution("it broke".to_string()).message(), "it broke");
}

#[test]
fn positions_are_written_in_decimal() {
    assert_eq!(
        Error::DuplicateCommand { first: 0, second: 10 }.message(),
        "commands 0 and 10 share a name"
    );
    assert_eq!(
        Error::DuplicateCommand { first: 99, second: 100 }.message(),
        "commands 99 and 100 share a name"
    );
}
