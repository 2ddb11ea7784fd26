//! One run of the program: decode the input, transform it under the password,
//! encode the output, and decide what happens around that.
//!
//! Reading, prompting, writing and removing happen outside; the decisions they
//! feed are taken here, from plain values.
use crate::cipher::{transform, transformation, CipherError};
use crate::codec::{
    decode, decoded, encode, encoded, lemma_codec_round_trip, result_view, CodecError, Format,
};
use crate::naming::{derive_output_path, derived_output_name, Direction};
use vstd::prelude::*;
use vstd::string::StrSliceExecFns;

verus! {

/// What the caller asked for.
#[derive(Debug)]
pub struct Cli {
    /// Where the input is read from.
    pub input: String,
    /// Where the output is written; derived from `input` when absent.
    pub output: Option<String>,
    /// Decrypt instead of encrypt.
    pub decrypt: bool,
    /// Remove the input once the output is written.
    pub remove: bool,
    /// How the input is stored.
    pub input_format: Format,
    /// How the output is to be stored.
    pub output_format: Format,
}

/// The kind of a failed file operation, as the platform reports it.
#[derive(Clone, Copy, Debug, PartialEq, Eq, Structural)]
pub enum IoErrorKind {
    NotFound,
    PermissionDenied,
    Other,
}

/// A failed file operation, as it is reported.
#[derive(Clone, Copy, Debug, PartialEq, Eq, Structural)]
pub enum IoError {
    FileNotFound,
    PermissionDenied,
    ReadWriteFailed,
}

/// The file operation that failed.
#[derive(Clone, Copy, Debug, PartialEq, Eq, Structural)]
pub enum IoOperation {
    Read,
    Write,
    Remove,
}

/// Why a run failed, by the stage it failed in.
#[derive(Clone, Copy, Debug, PartialEq, Eq, Structural)]
pub enum PipelineError {
    Io(IoOperation, IoError),
    Codec(CodecError),
    Cipher(CipherError),
    PasswordPrompt,
}

/// How a platform error kind is reported.
pub open spec fn io_error_of(kind: IoErrorKind) -> IoError {
    match kind {
        IoErrorKind::NotFound => IoError::FileNotFound,
        IoErrorKind::PermissionDenied => IoError::PermissionDenied,
        IoErrorKind::Other => IoError::ReadWriteFailed,
    }
}

/// The reported error for a file operation that failed with `kind`.
pub fn map_io_error(kind: IoErrorKind) -> (r: IoError)
    ensures
        r == io_error_of(kind),
{
    match kind {
        IoErrorKind::NotFound => IoError::FileNotFound,
        IoErrorKind::PermissionDenied => IoError::PermissionDenied,
        IoErrorKind::Other => IoError::ReadWriteFailed,
    }
}

impl IoError {
    /// A short description for the user.
    pub fn message(&self) -> (r: &'static str)
        ensures
            r@ == match self {
                IoError::FileNotFound => "File not found"@,
                IoError::PermissionDenied => "Permission denied"@,
                IoError::ReadWriteFailed => "Failed to read/write file"@,
            },
    {
        match self {
            IoError::FileNotFound => "File not found",
            IoError::PermissionDenied => "Permission denied",
            IoError::ReadWriteFailed => "Failed to read/write file",
        }
    }
}

impl IoOperation {
    /// A short description for the user of what failed.
    pub fn message(&self) -> (r: &'static str)
        ensures
            r@ == match self {
                IoOperation::Read => "Failed to read file"@,
                IoOperation::Write => "Failed to write file"@,
                IoOperation::Remove => "Failed to remove file"@,
            },
    {
        match self {
            IoOperation::Read => "Failed to read file",
            IoOperation::Write => "Failed to write file",
            IoOperation::Remove => "Failed to remove file",
        }
    }
}

/// True for the path `-`, which stands for standard input or output.
pub open spec fn is_stdio(path: Seq<char>) -> bool {
    path == seq!['-']
}

/// Whether `path` stands for standard input or output.
pub fn is_stdio_path(path: &str) -> (r: bool)
    ensures
        r == is_stdio(path@),
{
    if path.unicode_len() == 1 && path.get_char(0) == '-' {
        assert(path@ =~= seq!['-']);
        true
    } else {
        false
    }
}

impl Cli {
    /// Which way the run goes.
    pub open spec fn direction_spec(&self) -> Direction {
        if self.decrypt {
            Direction::Decrypt
        } else {
            Direction::Encrypt
        }
    }

    /// The direction of the run.
    #[verifier::when_used_as_spec(direction_spec)]
    pub fn direction(&self) -> (r: Direction)
        ensures
            r == self.direction_spec(),
    {
        if self.decrypt {
            Direction::Decrypt
        } else {
            Direction::Encrypt
        }
    }

    /// The text shown when asking for the password.
    pub fn password_prompt(&self) -> (r: &'static str)
        ensures
            r@ == if self.decrypt {
                "Enter the password: "@
            } else {
                "Set a password: "@
            },
    {
        if self.decrypt {
            "Enter the password: "
        } else {
            "Set a password: "
        }
    }

    /// Where the output goes: the path given; else standard output when the
    /// input is standard input; else the input's path with the direction's
    /// extension added.
    pub fn output_path(&self) -> (r: String)
        ensures
            r@ == match self.output {
                Some(o) => o@,
                None => if is_stdio(self.input@) {
                    seq!['-']
                } else {
                    derived_output_name(self.input@, self.direction_spec())
                },
            },
    {
        match &self.output {
            Some(o) => o.clone(),
            None => {
                if is_stdio_path(self.input.as_str()) {
                    let r = String::from_str("-");
                    proof {
                        reveal_strlit("-");
                    }
                    r
                } else {
                    derive_output_path(self.input.as_str(), self.direction())
                }
            },
        }
    }
}

/// The longest input a run takes: every intermediate buffer then fits in memory.
pub open spec fn within_size_limit(n: int) -> bool {
    n <= isize::MAX / 2
}

/// What a run makes of `input`: decode it from `input_format`, encrypt or
/// decrypt it under `password`, and encode the result in `output_format`.
pub open spec fn transformed(
    direction: Direction,
    input_format: Format,
    output_format: Format,
    input: Seq<u8>,
    password: Seq<char>,
) -> Result<Seq<u8>, PipelineError> {
    match decoded(input_format, input) {
        Err(e) => Err(PipelineError::Codec(e)),
        Ok(data) => match transformation(direction, password, data) {
            Ok(out) => Ok(encoded(output_format, out)),
            Err(e) => Err(PipelineError::Cipher(e)),
        },
    }
}

/// Transforms `input` as `transformed` says. When encrypting, a run in the
/// other direction on the output, under the same password, gives back the
/// decoded input.
pub fn run_transform(
    direction: Direction,
    input_format: Format,
    output_format: Format,
    input: Vec<u8>,
    password: String,
) -> (r: Result<Vec<u8>, PipelineError>)
    requires
        within_size_limit(input@.len() as int),
    ensures
        result_view(r) == transformed(direction, input_format, output_format, input@, password@),
        direction == Direction::Encrypt && r is Ok ==> transformed(
            Direction::Decrypt,
            output_format,
            Format::Bytes,
            r->Ok_0@,
            password@,
        ) == Ok::<Seq<u8>, PipelineError>(decoded(input_format, input@)->Ok_0),
{
    let data = match decode(input_format, input) {
        Ok(d) => d,
        Err(e) => {
            return Err(PipelineError::Codec(e));
        },
    };
    match transform(direction, data, password) {
        Ok(out) => {
            proof {
                lemma_codec_round_trip(output_format, out@);
            }
            Ok(encode(output_format, out))
        },
        Err(e) => Err(PipelineError::Cipher(e)),
    }
}

/// What is left to do once the output has been written.
#[derive(Clone, Copy, Debug, PartialEq, Eq, Structural)]
pub enum Completion {
    /// Remove the source, as the caller asked.
    RemoveSource,
    /// Nothing: the run is over.
    Done,
}

/// The step after an attempt to write the output: a failed write ends the run
/// with its error, and only a write that succeeded may lead to removing the
/// source.
pub open spec fn completion_after_write(remove: bool, written: Result<(), IoError>) -> Result<
    Completion,
    PipelineError,
> {
    match written {
        Err(e) => Err(PipelineError::Io(IoOperation::Write, e)),
        Ok(()) => Ok(
            if remove {
                Completion::RemoveSource
            } else {
                Completion::Done
            },
        ),
    }
}

/// The outcome of a run after the source was, or failed to be, removed. The
/// output stays written either way.
pub open spec fn completion_after_remove(removed: Result<(), IoError>) -> Result<(), PipelineError> {
    match removed {
        Err(e) => Err(PipelineError::Io(IoOperation::Remove, e)),
        Ok(()) => Ok(()),
    }
}

impl Cli {
    /// What to do after the attempt to write the output, given its outcome.
    /// Standard input is never removed.
    pub fn after_write(&self, written: Result<(), IoError>) -> (r: Result<Completion, PipelineError>)
        ensures
            r == completion_after_write(self.remove && !is_stdio(self.input@), written),
    {
        match written {
            Err(e) => Err(PipelineError::Io(IoOperation::Write, e)),
            Ok(()) => {
                if self.remove && !is_stdio_path(self.input.as_str()) {
                    Ok(Completion::RemoveSource)
                } else {
                    Ok(Completion::Done)
                }
            },
        }
    }
}

/// The outcome of a run whose last step was removing the source.
pub fn after_remove(removed: Result<(), IoError>) -> (r: Result<(), PipelineError>)
    ensures
        r == completion_after_remove(removed),
{
    match removed {
        Err(e) => Err(PipelineError::Io(IoOperation::Remove, e)),
        Ok(()) => Ok(()),
    }
}

/// A failed write never leads to removing the source, whether or not removal
/// was asked for: the run ends with the write's error and the source stays.
pub proof fn lemma_failed_write_keeps_source(remove: bool, e: IoError)
    ensures
        completion_after_write(remove, Err(e)) == Err::<Completion, PipelineError>(
            PipelineError::Io(IoOperation::Write, e),
        ),
        completion_after_write(remove, Err(e)) != Ok::<Completion, PipelineError>(
            Completion::RemoveSource,
        ),
{
}

} // verus!
