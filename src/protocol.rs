//! Commands and acknowledgments: the two kinds of text frame on the wire.

use vstd::prelude::*;
use vstd::utf8::*;
use vstd::string::*;
use crate::text::{first_space, lemma_first_space_after_word, split_word, SPACE};

verus! {

broadcast use group_utf8_lib;

/// The verb of an upload command.
pub open spec fn upload_verb() -> Seq<u8> {
    seq![('U' as u8), ('P' as u8), ('L' as u8), ('O' as u8), ('A' as u8), ('D' as u8)]
}

/// The verb of a download command.
pub open spec fn get_verb() -> Seq<u8> {
    seq![('G' as u8), ('E' as u8), ('T' as u8)]
}

/// The verb of a positive acknowledgment.
pub open spec fn ok_verb() -> Seq<u8> {
    seq![('O' as u8), ('K' as u8)]
}

/// The verb of a negative acknowledgment.
pub open spec fn error_verb() -> Seq<u8> {
    seq![('E' as u8), ('R' as u8), ('R' as u8), ('O' as u8), ('R' as u8)]
}

fn is_upload_verb(b: &[u8]) -> (r: bool)
    ensures
        r == (b@ == upload_verb()),
{
    let r = b.len() == 6 && b[0] == ('U' as u8) && b[1] == ('P' as u8) && b[2] == ('L' as u8) && b[3] == ('O' as u8)
        && b[4] == ('A' as u8) && b[5] == ('D' as u8);
    if r {
        assert(b@ =~= upload_verb());
    }
    r
}

fn is_get_verb(b: &[u8]) -> (r: bool)
    ensures
        r == (b@ == get_verb()),
{
    let r = b.len() == 3 && b[0] == ('G' as u8) && b[1] == ('E' as u8) && b[2] == ('T' as u8);
    if r {
        assert(b@ =~= get_verb());
    }
    r
}

fn is_ok_verb(b: &[u8]) -> (r: bool)
    ensures
        r == (b@ == ok_verb()),
{
    let r = b.len() == 2 && b[0] == ('O' as u8) && b[1] == ('K' as u8);
    if r {
        assert(b@ =~= ok_verb());
    }
    r
}

fn is_error_verb(b: &[u8]) -> (r: bool)
    ensures
        r == (b@ == error_verb()),
{
    let r = b.len() == 5 && b[0] == ('E' as u8) && b[1] == ('R' as u8) && b[2] == ('R' as u8) && b[3] == ('O' as u8)
        && b[4] == ('R' as u8);
    if r {
        assert(b@ =~= error_verb());
    }
    r
}

/// What a caller asks of the service: the first frame of a connection.
#[derive(Debug, PartialEq, Eq)]
pub enum Command {
    Upload { filename: String },
    Get { filename: String },
}

/// Why a text frame is not a command or an acknowledgment.
#[derive(Debug, PartialEq, Eq)]
pub enum ParseError {
    /// The frame holds no text at all.
    EmptyInput,
    /// A command verb with no space after it, so no filename.
    MissingFilename { verb: String },
    /// `ERROR` with no space after it, so no message.
    MissingMessage,
    /// The first word is no verb of the protocol.
    UnknownVerb { verb: String },
}

/// The service's one reply to a command, sent before any payload.
#[derive(Debug, PartialEq, Eq)]
pub enum Acknowledgment {
    /// `OK`: the command goes ahead.
    Accepted,
    /// `ERROR <message>`: the command is refused, for the reason given.
    Rejected { message: String },
}

/// A command, with its filename as text.
pub enum CommandModel {
    Upload(Seq<char>),
    Get(Seq<char>),
}

/// A parse error, with the verb as text.
pub enum ParseErrorModel {
    EmptyInput,
    MissingFilename(Seq<char>),
    MissingMessage,
    UnknownVerb(Seq<char>),
}

/// An acknowledgment, with its message as text.
pub enum AckModel {
    Accepted,
    Rejected(Seq<char>),
}

impl View for Command {
    type V = CommandModel;

    open spec fn view(&self) -> CommandModel {
        match self {
            Command::Upload { filename } => CommandModel::Upload(filename@),
            Command::Get { filename } => CommandModel::Get(filename@),
        }
    }
}

impl View for ParseError {
    type V = ParseErrorModel;

    open spec fn view(&self) -> ParseErrorModel {
        match self {
            ParseError::EmptyInput => ParseErrorModel::EmptyInput,
            ParseError::MissingFilename { verb } => ParseErrorModel::MissingFilename(verb@),
            ParseError::MissingMessage => ParseErrorModel::MissingMessage,
            ParseError::UnknownVerb { verb } => ParseErrorModel::UnknownVerb(verb@),
        }
    }
}

impl View for Acknowledgment {
    type V = AckModel;

    open spec fn view(&self) -> AckModel {
        match self {
            Acknowledgment::Accepted => AckModel::Accepted,
            Acknowledgment::Rejected { message } => AckModel::Rejected(message@),
        }
    }
}

/// The bytes of `b` before its first space.
pub open spec fn verb_of(b: Seq<u8>) -> Seq<u8> {
    b.subrange(0, first_space(b))
}

/// The bytes of `b` after its first space.
pub open spec fn argument_of(b: Seq<u8>) -> Seq<u8> {
    b.subrange(first_space(b) + 1, b.len() as int)
}

/// `b` holds a space.
pub open spec fn has_space(b: Seq<u8>) -> bool {
    first_space(b) < b.len()
}

/// The command that a well-formed UTF-8 frame `b` states: the verb is the
/// text before the first space, the filename all the text after it.
pub open spec fn parse_command(b: Seq<u8>) -> Result<CommandModel, ParseErrorModel> {
    let verb = verb_of(b);
    if b.len() == 0 {
        Err(ParseErrorModel::EmptyInput)
    } else if verb != upload_verb() && verb != get_verb() {
        Err(ParseErrorModel::UnknownVerb(decode_utf8(verb)))
    } else if !has_space(b) {
        Err(ParseErrorModel::MissingFilename(decode_utf8(verb)))
    } else if verb == upload_verb() {
        Ok(CommandModel::Upload(decode_utf8(argument_of(b))))
    } else {
        Ok(CommandModel::Get(decode_utf8(argument_of(b))))
    }
}

/// The acknowledgment that a well-formed UTF-8 frame `b` states: `OK` as the
/// first word, or `ERROR` followed by a space and the message.
pub open spec fn parse_ack(b: Seq<u8>) -> Result<AckModel, ParseErrorModel> {
    let verb = verb_of(b);
    if b.len() == 0 {
        Err(ParseErrorModel::EmptyInput)
    } else if verb == ok_verb() {
        Ok(AckModel::Accepted)
    } else if verb != error_verb() {
        Err(ParseErrorModel::UnknownVerb(decode_utf8(verb)))
    } else if !has_space(b) {
        Err(ParseErrorModel::MissingMessage)
    } else {
        Ok(AckModel::Rejected(decode_utf8(argument_of(b))))
    }
}

pub open spec fn parsed_command(r: Result<Command, ParseError>) -> Result<
    CommandModel,
    ParseErrorModel,
> {
    match r {
        Ok(c) => Ok(c@),
        Err(e) => Err(e@),
    }
}

pub open spec fn parsed_ack(r: Result<Acknowledgment, ParseError>) -> Result<
    AckModel,
    ParseErrorModel,
> {
    match r {
        Ok(a) => Ok(a@),
        Err(e) => Err(e@),
    }
}

/// The frame that states command `c`: its verb, a space, and the filename.
pub open spec fn command_bytes(c: CommandModel) -> Seq<u8> {
    match c {
        CommandModel::Upload(f) => upload_verb().push(SPACE) + encode_utf8(f),
        CommandModel::Get(f) => get_verb().push(SPACE) + encode_utf8(f),
    }
}

/// The frame that states acknowledgment `a`: `OK ` or `ERROR <message>`.
pub open spec fn ack_bytes(a: AckModel) -> Seq<u8> {
    match a {
        AckModel::Accepted => ok_verb().push(SPACE),
        AckModel::Rejected(m) => error_verb().push(SPACE) + encode_utf8(m),
    }
}

/// The text that tells a peer why its frame was not understood.
pub open spec fn error_text(e: ParseErrorModel) -> Seq<char> {
    match e {
        ParseErrorModel::EmptyInput => "empty input"@,
        ParseErrorModel::MissingFilename(verb) => verb + " must be followed by a filename"@,
        ParseErrorModel::MissingMessage => "ERROR must be followed by a message"@,
        ParseErrorModel::UnknownVerb(verb) => "unknown command: "@ + verb,
    }
}

proof fn lemma_ascii_valid(b: Seq<u8>)
    requires
        forall|i: int| 0 <= i < b.len() ==> b[i] < 0x80,
    ensures
        valid_utf8(b),
{
    assert(b.subrange(0, 0) =~= Seq::<u8>::empty());
    partial_valid_utf8_extend_ascii_block(b, 0, b.len() as int);
    assert(b.subrange(0, b.len() as int) =~= b);
}

/// A verb followed by a space and the UTF-8 text of `t`: well-formed UTF-8,
/// with the verb before the first space and the text after it.
proof fn lemma_word_frame(verb: Seq<u8>, t: Seq<char>)
    requires
        forall|i: int| 0 <= i < verb.len() ==> 0x20 < #[trigger] verb[i] < 0x80,
    ensures
        valid_utf8(verb.push(SPACE) + encode_utf8(t)),
        verb_of(verb.push(SPACE) + encode_utf8(t)) == verb,
        has_space(verb.push(SPACE) + encode_utf8(t)),
        decode_utf8(argument_of(verb.push(SPACE) + encode_utf8(t))) == t,
        verb.push(SPACE) + encode_utf8(t) != Seq::<u8>::empty(),
{
    let b = verb.push(SPACE) + encode_utf8(t);
    lemma_ascii_valid(verb.push(SPACE));
    lemma_first_space_after_word(verb, encode_utf8(t));
    assert(verb_of(b) =~= verb);
    assert(argument_of(b) =~= encode_utf8(t));
    assert(b.len() > 0);
}

/// Reading back the frame of a command gives that command.
pub proof fn lemma_command_round_trip(c: CommandModel)
    ensures
        valid_utf8(command_bytes(c)),
        parse_command(command_bytes(c)) == Ok::<CommandModel, ParseErrorModel>(c),
{
    match c {
        CommandModel::Upload(f) => {
            lemma_word_frame(upload_verb(), f);
            assert(upload_verb() != get_verb());
        },
        CommandModel::Get(f) => {
            lemma_word_frame(get_verb(), f);
            assert(upload_verb() != get_verb());
        },
    }
}

/// Reading back the frame of an acknowledgment gives that acknowledgment.
pub proof fn lemma_ack_round_trip(a: AckModel)
    ensures
        valid_utf8(ack_bytes(a)),
        parse_ack(ack_bytes(a)) == Ok::<AckModel, ParseErrorModel>(a),
{
    match a {
        AckModel::Accepted => {
            lemma_word_frame(ok_verb(), Seq::<char>::empty());
            assert(ok_verb().push(SPACE) + encode_utf8(Seq::<char>::empty()) =~= ok_verb().push(
                SPACE,
            ));
        },
        AckModel::Rejected(m) => {
            lemma_word_frame(error_verb(), m);
            assert(ok_verb() != error_verb());
        },
    }
}

/// Appends the bytes of `s` to `v`.
pub fn append_bytes(v: &mut Vec<u8>, s: &[u8])
    ensures
        final(v)@ == old(v)@ + s@,
{
    let mut i: usize = 0;
    while i < s.len()
        invariant
            0 <= i <= s@.len(),
            v@ == old(v)@ + s@.subrange(0, i as int),
        decreases s@.len() - i,
    {
        v.push(s[i]);
        i = i + 1;
        assert(v@ =~= old(v)@ + s@.subrange(0, i as int));
    }
    assert(s@.subrange(0, i as int) =~= s@);
}

/// The text of `s` as an owned string.
fn owned(s: &str) -> (r: String)
    ensures
        r@ == decode_utf8(s.spec_bytes()),
{
    s.to_owned()
}

impl Command {
    /// Reads a command from the text of a first frame.
    pub fn parse(input: &str) -> (r: Result<Command, ParseError>)
        ensures
            parsed_command(r) == parse_command(input.spec_bytes()),
    {
        let (verb, arg) = split_word(input);
        if input.as_bytes().len() == 0 {
            return Err(ParseError::EmptyInput);
        }
        let vb = verb.as_bytes();
        let upload = is_upload_verb(vb);
        if !upload && !is_get_verb(vb) {
            return Err(ParseError::UnknownVerb { verb: owned(verb) });
        }
        match arg {
            None => Err(ParseError::MissingFilename { verb: owned(verb) }),
            Some(a) => {
                let filename = owned(a);
                if upload {
                    Ok(Command::Upload { filename })
                } else {
                    Ok(Command::Get { filename })
                }
            },
        }
    }
}

impl Command {
    /// The frame that states this command.
    pub fn encode(&self) -> (r: Vec<u8>)
        ensures
            r@ == command_bytes(self@),
    {
        match self {
            Command::Upload { filename } => {
                let mut v: Vec<u8> = vec![('U' as u8), ('P' as u8), ('L' as u8), ('O' as u8), ('A' as u8), ('D' as u8), SPACE];
                assert(v@ =~= upload_verb().push(SPACE));
                append_bytes(&mut v, filename.as_str().as_bytes());
                v
            },
            Command::Get { filename } => {
                let mut v: Vec<u8> = vec![('G' as u8), ('E' as u8), ('T' as u8), SPACE];
                assert(v@ =~= get_verb().push(SPACE));
                append_bytes(&mut v, filename.as_str().as_bytes());
                v
            },
        }
    }
}

impl ParseError {
    /// The text that tells the peer what was wrong.
    pub fn message(&self) -> (r: String)
        ensures
            r@ == error_text(self@),
    {
        match self {
            ParseError::EmptyInput => String::from_str("empty input"),
            ParseError::MissingFilename { verb } => verb.clone().concat(" must be followed by a filename"),
            ParseError::MissingMessage => String::from_str("ERROR must be followed by a message"),
            ParseError::UnknownVerb { verb } => String::from_str("unknown command: ").concat(verb.as_str()),
        }
    }
}

impl Acknowledgment {
    /// The frame that states this acknowledgment.
    pub fn encode(&self) -> (r: Vec<u8>)
        ensures
            r@ == ack_bytes(self@),
    {
        match self {
            Acknowledgment::Accepted => {
                let v: Vec<u8> = vec![('O' as u8), ('K' as u8), SPACE];
                assert(v@ =~= ok_verb().push(SPACE));
                v
            },
            Acknowledgment::Rejected { message } => {
                let mut v: Vec<u8> = vec![('E' as u8), ('R' as u8), ('R' as u8), ('O' as u8), ('R' as u8), SPACE];
                assert(v@ =~= error_verb().push(SPACE));
                append_bytes(&mut v, message.as_str().as_bytes());
                v
            },
        }
    }

    /// Reads an acknowledgment from the text of a reply frame.
    pub fn parse(input: &str) -> (r: Result<Acknowledgment, ParseError>)
        ensures
            parsed_ack(r) == parse_ack(input.spec_bytes()),
    {
        let (verb, arg) = split_word(input);
        if input.as_bytes().len() == 0 {
            return Err(ParseError::EmptyInput);
        }
        let vb = verb.as_bytes();
        if is_ok_verb(vb) {
            return Ok(Acknowledgment::Accepted);
        }
        if !is_error_verb(vb) {
            return Err(ParseError::UnknownVerb { verb: owned(verb) });
        }
        match arg {
            None => Err(ParseError::MissingMessage),
            Some(a) => Ok(Acknowledgment::Rejected { message: owned(a) }),
        }
    }
}

} // verus!
