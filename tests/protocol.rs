use video_service::protocol::{Acknowledgment, Command, ParseError};

fn upload(name: &str) -> Command {
    Command::Upload { filename: name.to_string() }
}

#[test]
fn parses_upload_command() {
    assert_eq!(Command::parse("UPLOAD a.bin"), Ok(upload("a.bin")));
}

#[test]
fn parses_get_command() {
    assert_eq!(
        Command::parse("GET clip.mp4"),
        Ok(Command::Get { filename: "clip.mp4".to_string() })
    );
}

#[test]
fn filename_keeps_later_spaces() {
    assert_eq!(Command::parse("UPLOAD my holiday.mp4"), Ok(upload("my holiday.mp4")));
}

#[test]
fn filename_may_be_empty_after_the_space() {
    assert_eq!(Command::parse("UPLOAD "), Ok(upload("")));
}

#[test]
fn filename_is_not_sanitized() {
    assert_eq!(Command::parse("GET ../secret"), Ok(Command::Get { filename: "../secret".to_string() }));
}

#[test]
fn non_ascii_filename() {
    assert_eq!(Command::parse("UPLOAD vidéo €.mp4"), Ok(upload("vidéo €.mp4")));
}

#[test]
fn empty_input_is_rejected() {
    let e = Command::parse("").unwrap_err();
    assert_eq!(e, ParseError::EmptyInput);
    assert_eq!(e.message(), "empty input");
}

#[test]
fn verb_without_space_misses_filename() {
    let e = Command::parse("UPLOAD").unwrap_err();
    assert_eq!(e, ParseError::MissingFilename { verb: "UPLOAD".to_string() });
    assert_eq!(e.message(), "UPLOAD must be followed by a filename");
    let g = Command::parse("GET").unwrap_err();
    assert_eq!(g.message(), "GET must be followed by a filename");
}

#[test]
fn unknown_verb_is_rejected() {
    let e = Command::parse("DELETE a.bin").unwrap_err();
    assert_eq!(e, ParseError::UnknownVerb { verb: "DELETE".to_string() });
    assert_eq!(e.message(), "unknown command: DELETE");
}

#[test]
fn verbs_are_case_sensitive() {
    assert_eq!(
        Command::parse("upload a.bin"),
        Err(ParseError::UnknownVerb { verb: "upload".to_string() })
    );
}

#[test]
fn leading_space_gives_empty_verb() {
    let e = Command::parse(" UPLOAD a").unwrap_err();
    assert_eq!(e.message(), "unknown command: ");
}

#[test]
fn encodes_commands() {
    assert_eq!(upload("a.bin").encode(), b"UPLOAD a.bin".to_vec());
    assert_eq!(Command::Get { filename: "x y".to_string() }.encode(), b"GET x y".to_vec());
}

#[test]
fn command_round_trip() {
    let c = upload("some file.mp4");
    let frame = c.encode();
    assert_eq!(Command::parse(std::str::from_utf8(&frame).unwrap()), Ok(c));
}

#[test]
fn encodes_acknowledgments() {
    assert_eq!(Acknowledgment::Accepted.encode(), b"OK ".to_vec());
    assert_eq!(
        Acknowledgment::Rejected { message: "file does not exist".to_string() }.encode(),
        b"ERROR file does not exist".to_vec()
    );
}

#[test]
fn parses_acknowledgments() {
    assert_eq!(Acknowledgment::parse("OK "), Ok(Acknowledgment::Accepted));
    assert_eq!(Acknowledgment::parse("OK"), Ok(Acknowledgment::Accepted));
    assert_eq!(
        Acknowledgment::parse("ERROR file already exists"),
        Ok(Acknowledgment::Rejected { message: "file already exists".to_string() })
    );
}

#[test]
fn malformed_acknowledgments() {
    assert_eq!(Acknowledgment::parse(""), Err(ParseError::EmptyInput));
    let e = Acknowledgment::parse("ERROR").unwrap_err();
    assert_eq!(e, ParseError::MissingMessage);
    assert_eq!(e.message(), "ERROR must be followed by a message");
    assert_eq!(
        Acknowledgment::parse("MAYBE so"),
        Err(ParseError::UnknownVerb { verb: "MAYBE".to_string() })
    );
}
