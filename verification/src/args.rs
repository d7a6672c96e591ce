//! What a command line asks for, and the rule for when it says enough.
use std::path::PathBuf;
use vstd::prelude::*;

verus! {

/// A path in the file system. Nothing here looks inside one: it is kept and
/// handed on.
#[verifier::external_type_specification]
#[verifier::external_body]
pub struct ExPathBuf(PathBuf);

/// What to do with a PNG file.
#[derive(Debug, Copy, Clone, PartialEq, Eq, Structural, PartialOrd, Ord)]
pub enum Action {
    /// Hide a message in a chunk of the file.
    Encode,
    /// Show the message that a chunk of the file holds.
    Decode,
    /// Take a chunk out of the file.
    Remove,
    /// Show the chunks of the file.
    Print,
}

/// What an action lacks.
#[derive(Debug, Copy, Clone, PartialEq, Eq, Structural)]
pub enum ArgsErr {
    /// The action works on one chunk, and no chunk type was given.
    MissingChunkType,
    /// Neither a chunk type nor a message was given to encode.
    MissingMessageAndChunkType,
}

/// The arguments of one run: the action, the file to work on, and what the
/// action may need besides.
#[derive(Debug)]
pub struct Arguments {
    action: Action,
    file_path: PathBuf,
    chunk_type: Option<String>,
    message: Option<String>,
    output_path: Option<PathBuf>,
}

/// What the arguments of a run are: the action, the file to work on, and
/// the chunk type, the message and the place for the output where they were
/// given.
#[verifier::ext_equal]
pub struct ArgumentsView {
    pub action: Action,
    pub file_path: PathBuf,
    pub chunk_type: Option<Seq<char>>,
    pub message: Option<Seq<char>>,
    pub output_path: Option<PathBuf>,
}

/// The text that was given, if one was.
pub open spec fn text_given(text: Option<String>) -> Option<Seq<char>> {
    match text {
        Some(t) => Some(t@),
        None => None,
    }
}

/// What the arguments lack for their action, if anything. To encode, it is
/// enough to give either a chunk type or a message; to decode or to remove,
/// a chunk type is needed; to print, nothing is.
pub open spec fn missing(arguments: ArgumentsView) -> Option<ArgsErr> {
    let no_chunk_type = arguments.chunk_type is None;
    let no_message = arguments.message is None;
    if arguments.action == Action::Encode && no_chunk_type && no_message {
        Some(ArgsErr::MissingMessageAndChunkType)
    } else if arguments.action == Action::Decode && no_chunk_type {
        Some(ArgsErr::MissingChunkType)
    } else if arguments.action == Action::Remove && no_chunk_type {
        Some(ArgsErr::MissingChunkType)
    } else {
        None
    }
}

impl View for Arguments {
    type V = ArgumentsView;

    closed spec fn view(&self) -> ArgumentsView {
        ArgumentsView {
            action: self.action,
            file_path: self.file_path,
            chunk_type: text_given(self.chunk_type),
            message: text_given(self.message),
            output_path: self.output_path,
        }
    }
}

impl Arguments {
    /// The arguments of one run, as they were given.
    pub fn new(
        action: Action,
        file_path: PathBuf,
        chunk_type: Option<String>,
        message: Option<String>,
        output_path: Option<PathBuf>,
    ) -> (arguments: Arguments)
        ensures
            arguments@ == (ArgumentsView {
                action,
                file_path,
                chunk_type: text_given(chunk_type),
                message: text_given(message),
                output_path,
            }),
    {
        Arguments { action, file_path, chunk_type, message, output_path }
    }

    /// Whether the arguments give the action all it needs.
    pub fn action_has_enough_data(arguments: &Arguments) -> (r: Result<(), ArgsErr>)
        ensures
            match r {
                Ok(()) => missing(arguments@) is None,
                Err(e) => missing(arguments@) == Some(e),
            },
    {
        if arguments.action == Action::Encode && arguments.chunk_type.is_none()
            && arguments.message.is_none() {
            return Err(ArgsErr::MissingMessageAndChunkType);
        }
        if arguments.action == Action::Decode && arguments.chunk_type.is_none() {
            return Err(ArgsErr::MissingChunkType);
        }
        if arguments.action == Action::Remove && arguments.chunk_type.is_none() {
            return Err(ArgsErr::MissingChunkType);
        }
        Ok(())
    }
}

} // verus!
