//! What can go wrong on the way from a path to a cached texture.

use vstd::prelude::*;
use vstd::string::StringExecFns;
use crate::text::decimal;
use crate::text::decimal_text;
use crate::text::signed_decimal;
use crate::text::signed_decimal_text;

verus! {

/// The step of reading a file at which storage failed.
#[derive(Clone, Copy, Debug, PartialEq, Eq, Structural)]
pub enum IoStage {
    /// The path cannot be handed to storage: it holds a NUL character.
    Path,
    /// The file was not found when asked for its size.
    Stat,
    /// The file could not be opened.
    Open,
    /// Reading failed, or gave fewer or more bytes than the file's size.
    Read,
    /// The file could not be closed.
    Close,
}

/// Storage failed while a file was read.
#[derive(Clone, Debug, PartialEq, Eq)]
pub struct IoError {
    /// The path that was asked for.
    pub path: String,
    /// The step that failed.
    pub stage: IoStage,
    /// The file's size, once storage has told it.
    pub size: Option<i64>,
}

/// Why a file was not accepted as an image.
#[derive(Clone, Copy, Debug, PartialEq, Eq, Structural)]
pub enum DecodeReason {
    /// The decoder found the header missing, corrupt or asking for more
    /// than the machine holds.
    BadHeader,
    /// The header is sound and the payload is not: the decoder refused it,
    /// or gave other pixels than the header's size asks for.
    BadData,
    /// The image cannot be cut into whole tiles: its height is not a
    /// multiple of the tile height.
    UnsupportedHeight,
}

/// The bytes are not an image that the pipeline takes.
#[derive(Clone, Copy, Debug, PartialEq, Eq, Structural)]
pub struct DecodeError {
    /// What was wrong.
    pub reason: DecodeReason,
}

/// Memory for a buffer could not be had.
#[derive(Clone, Copy, Debug, PartialEq, Eq, Structural)]
pub struct AllocationError {
    /// The size that was asked for, in bytes; `usize::MAX` where the true
    /// size is larger than that.
    pub requested_size: usize,
}

/// The error of a texture load: that of the stage that failed.
#[derive(Clone, Debug, PartialEq, Eq)]
pub enum PipelineError {
    /// The file could not be read.
    Io(IoError),
    /// The file's bytes could not be decoded.
    Decode(DecodeError),
    /// A buffer could not be allocated.
    Allocation(AllocationError),
}

/// The text for a file's size in a message.
pub open spec fn size_text(size: Option<i64>) -> Seq<char> {
    match size {
        Some(n) => signed_decimal(n as int),
        None => "unknown"@,
    }
}

fn size_to_text(size: Option<i64>) -> (text: String)
    ensures
        text@ == size_text(size),
{
    match size {
        Some(n) => signed_decimal_text(n),
        None => String::from_str("unknown"),
    }
}

impl IoError {
    /// What the message says of the step that failed.
    pub open spec fn detail(&self) -> Seq<char> {
        match self.stage {
            IoStage::Path => "Error in converting filepath to CString"@,
            IoStage::Stat => "Could not find file: \""@ + self.path@ + "\""@,
            IoStage::Open => "Failed to open file: \""@ + self.path@ + "\"."@,
            IoStage::Read => "Could not read file \""@ + self.path@ + "\" of size: "@ + size_text(
                self.size,
            ),
            IoStage::Close => "Could not close file \""@ + self.path@ + "\" of size: "@
                + size_text(self.size),
        }
    }

    /// The text of the message.
    pub open spec fn message_text(&self) -> Seq<char> {
        "Io Error; could not load file: "@ + self.detail()
    }

    /// The error as a message for the user.
    pub fn message(&self) -> (text: String)
        ensures
            text@ == self.message_text(),
    {
        let mut text = String::from_str("Io Error; could not load file: ");
        match self.stage {
            IoStage::Path => {
                text.append("Error in converting filepath to CString");
            },
            IoStage::Stat => {
                text.append("Could not find file: \"");
                text.append(self.path.as_str());
                text.append("\"");
            },
            IoStage::Open => {
                text.append("Failed to open file: \"");
                text.append(self.path.as_str());
                text.append("\".");
            },
            IoStage::Read => {
                text.append("Could not read file \"");
                text.append(self.path.as_str());
                text.append("\" of size: ");
                text.append(size_to_text(self.size).as_str());
            },
            IoStage::Close => {
                text.append("Could not close file \"");
                text.append(self.path.as_str());
                text.append("\" of size: ");
                text.append(size_to_text(self.size).as_str());
            },
        }
        assert(text@ =~= self.message_text());
        text
    }
}

impl DecodeError {
    /// The text of the message.
    pub open spec fn message_text(&self) -> Seq<char> {
        "Could not load the png: "@ + match self.reason {
            DecodeReason::BadHeader => "bad header"@,
            DecodeReason::BadData => "decode"@,
            DecodeReason::UnsupportedHeight => "height is not a multiple of 8"@,
        }
    }

    /// The error as a message for the user.
    pub fn message(&self) -> (text: String)
        ensures
            text@ == self.message_text(),
    {
        let mut text = String::from_str("Could not load the png: ");
        match self.reason {
            DecodeReason::BadHeader => {
                text.append("bad header");
            },
            DecodeReason::BadData => {
                text.append("decode");
            },
            DecodeReason::UnsupportedHeight => {
                text.append("height is not a multiple of 8");
            },
        }
        text
    }
}

impl AllocationError {
    /// The text of the message.
    pub open spec fn message_text(&self) -> Seq<char> {
        "Could not allocate "@ + decimal(self.requested_size as nat) + " bytes"@
    }

    /// The error as a message for the user.
    pub fn message(&self) -> (text: String)
        ensures
            text@ == self.message_text(),
    {
        let mut text = String::from_str("Could not allocate ");
        text.append(decimal_text(self.requested_size as u64).as_str());
        text.append(" bytes");
        text
    }
}

impl PipelineError {
    /// The text of the message: that of the stage's error.
    pub open spec fn message_text(&self) -> Seq<char> {
        match self {
            PipelineError::Io(e) => e.message_text(),
            PipelineError::Decode(e) => e.message_text(),
            PipelineError::Allocation(e) => e.message_text(),
        }
    }

    /// The error as a message for the user.
    pub fn message(&self) -> (text: String)
        ensures
            text@ == self.message_text(),
    {
        match self {
            PipelineError::Io(e) => e.message(),
            PipelineError::Decode(e) => e.message(),
            PipelineError::Allocation(e) => e.message(),
        }
    }
}

} // verus!
