//! The file loader: the decisions of reading a whole file from storage.
//!
//! Storage is asked four things in turn: the file's size, to open the
//! file, to read as many bytes as the size says, and to close the file. The
//! caller does the asking. After each answer `FileLoader::step` says what to
//! ask next, or how the load has ended: with the file's bytes, or with the
//! step that failed.

use vstd::prelude::*;
use crate::error::IoError;
use crate::error::IoStage;

verus! {

/// An open file: what storage calls it, and its size in bytes.
#[derive(Clone, Copy, Debug, PartialEq, Eq, Structural)]
pub struct File {
    /// The descriptor that storage gave when it opened the file.
    pub fd: i32,
    /// The size that storage reported for the file.
    pub size: i64,
}

/// What to ask of storage.
#[derive(Clone, Copy, Debug, PartialEq, Eq, Structural)]
pub enum Request {
    /// The size of the file at the loader's path.
    Stat,
    /// To open the file at the loader's path for reading.
    Open,
    /// To read `len` bytes from the open file `fd`.
    Read { fd: i32, len: usize },
    /// To close the open file `fd`.
    Close { fd: i32 },
}

/// What storage answered. `None` and `false` stand for its failure.
#[derive(Debug)]
pub enum Reply {
    /// The file's size.
    Stat(Option<i64>),
    /// The descriptor of the opened file.
    Open(Option<i32>),
    /// The bytes that were read.
    Read(Option<Vec<u8>>),
    /// Whether the file was closed.
    Close(bool),
}

/// How far a load has come.
#[derive(Debug)]
pub enum LoadState {
    /// The size has been asked for.
    Statting,
    /// The size is known, and the file is being opened.
    Opening { size: i64 },
    /// The file is open, and its bytes have been asked for.
    Reading { file: File },
    /// The bytes are here, and the file is being closed.
    Closing { file: File, bytes: Vec<u8> },
}

/// A load in progress.
#[derive(Debug)]
pub struct FileLoader {
    /// The path of the file.
    pub path: String,
    /// How far the load has come.
    pub state: LoadState,
}

/// What comes next in a load.
#[derive(Debug)]
pub enum Step {
    /// The load goes on: storage is to be asked `request`, and its answer
    /// handed to `loader`.
    Ask { loader: FileLoader, request: Request },
    /// The load has ended.
    Done(Result<Vec<u8>, IoError>),
}

/// The end of a load at the failure of `stage`.
pub open spec fn failed(path: String, stage: IoStage, size: Option<i64>) -> Step {
    Step::Done(Err(IoError { path, stage, size }))
}

impl FileLoader {
    /// What storage is being asked while the load is in this state.
    pub open spec fn awaits(&self) -> Request {
        match self.state {
            LoadState::Statting => Request::Stat,
            LoadState::Opening { size } => Request::Open,
            LoadState::Reading { file } => Request::Read { fd: file.fd, len: file.size as usize },
            LoadState::Closing { file, bytes } => Request::Close { fd: file.fd },
        }
    }

    /// How a load begins: a path with a NUL character cannot be handed to
    /// storage; for any other the file's size is asked.
    pub open spec fn begun(path: String) -> Step {
        if path@.contains('\0') {
            failed(path, IoStage::Path, None)
        } else {
            Step::Ask {
                loader: FileLoader { path, state: LoadState::Statting },
                request: Request::Stat,
            }
        }
    }

    /// How a load goes on when storage gives `reply`.
    ///
    /// An answer that reports a failure, or that answers another question
    /// than the one asked, ends the load with the step that was being
    /// taken. So does a size that is negative or that no buffer can have,
    /// and a read that gives another number of bytes than the size. Once
    /// the size is known, the error carries it.
    pub open spec fn stepped(self, reply: Reply) -> Step {
        match (self.state, reply) {
            (LoadState::Statting, Reply::Stat(Some(size))) => Step::Ask {
                loader: FileLoader { path: self.path, state: LoadState::Opening { size } },
                request: Request::Open,
            },
            (LoadState::Statting, _) => failed(self.path, IoStage::Stat, None),
            (LoadState::Opening { size }, Reply::Open(Some(fd))) => if 0 <= size <= usize::MAX {
                Step::Ask {
                    loader: FileLoader {
                        path: self.path,
                        state: LoadState::Reading { file: File { fd, size } },
                    },
                    request: Request::Read { fd, len: size as usize },
                }
            } else {
                failed(self.path, IoStage::Read, Some(size))
            },
            (LoadState::Opening { size }, _) => failed(self.path, IoStage::Open, Some(size)),
            (LoadState::Reading { file }, Reply::Read(Some(bytes))) => if bytes@.len()
                == file.size {
                Step::Ask {
                    loader: FileLoader {
                        path: self.path,
                        state: LoadState::Closing { file, bytes },
                    },
                    request: Request::Close { fd: file.fd },
                }
            } else {
                failed(self.path, IoStage::Read, Some(file.size))
            },
            (LoadState::Reading { file }, _) => failed(self.path, IoStage::Read, Some(file.size)),
            (LoadState::Closing { file, bytes }, Reply::Close(true)) => Step::Done(Ok(bytes)),
            (LoadState::Closing { file, bytes }, _) => failed(
                self.path,
                IoStage::Close,
                Some(file.size),
            ),
        }
    }

    /// Begins the load of the file at `path`.
    pub fn start(path: String) -> (step: Step)
        ensures
            step == Self::begun(path),
    {
        if has_nul(path.as_str()) {
            Step::Done(Err(IoError { path, stage: IoStage::Path, size: None }))
        } else {
            Step::Ask {
                loader: FileLoader { path, state: LoadState::Statting },
                request: Request::Stat,
            }
        }
    }

    /// Takes the load one step on with the answer of storage.
    pub fn step(self, reply: Reply) -> (step: Step)
        ensures
            step == self.stepped(reply),
    {
        let path = self.path;
        match self.state {
            LoadState::Statting => match reply {
                Reply::Stat(Some(size)) => Step::Ask {
                    loader: FileLoader { path, state: LoadState::Opening { size } },
                    request: Request::Open,
                },
                _ => Step::Done(Err(IoError { path, stage: IoStage::Stat, size: None })),
            },
            LoadState::Opening { size } => match reply {
                Reply::Open(Some(fd)) => {
                    if 0 <= size && size as u64 <= usize::MAX as u64 {
                        Step::Ask {
                            loader: FileLoader {
                                path,
                                state: LoadState::Reading { file: File { fd, size } },
                            },
                            request: Request::Read { fd, len: size as usize },
                        }
                    } else {
                        Step::Done(Err(IoError { path, stage: IoStage::Read, size: Some(size) }))
                    }
                },
                _ => Step::Done(Err(IoError { path, stage: IoStage::Open, size: Some(size) })),
            },
            LoadState::Reading { file } => match reply {
                Reply::Read(Some(bytes)) => {
                    if file.size >= 0 && bytes.len() as u64 == file.size as u64 {
                        Step::Ask {
                            loader: FileLoader { path, state: LoadState::Closing { file, bytes } },
                            request: Request::Close { fd: file.fd },
                        }
                    } else {
                        Step::Done(
                            Err(IoError { path, stage: IoStage::Read, size: Some(file.size) }),
                        )
                    }
                },
                _ => Step::Done(Err(IoError { path, stage: IoStage::Read, size: Some(file.size) })),
            },
            LoadState::Closing { file, bytes } => match reply {
                Reply::Close(true) => Step::Done(Ok(bytes)),
                _ => Step::Done(Err(IoError { path, stage: IoStage::Close, size: Some(file.size) })),
            },
        }
    }
}

/// The step after `step` when storage gives `reply`: a load that has ended
/// stays as it is.
pub open spec fn then(step: Step, reply: Reply) -> Step {
    match step {
        Step::Ask { loader, request } => loader.stepped(reply),
        Step::Done(result) => Step::Done(result),
    }
}

/// What reading the file at `path` gives when storage answers `size` to
/// the question for the size, `fd` to the opening, `read` to the reading
/// and `closed` to the closing: the bytes that were read, if every step
/// succeeded and the bytes are as many as the size says; else the error of
/// the first step that failed.
pub open spec fn read_whole(
    path: String,
    size: Option<i64>,
    fd: Option<i32>,
    read: Option<Vec<u8>>,
    closed: bool,
) -> Result<Vec<u8>, IoError> {
    if path@.contains('\0') {
        Err(IoError { path, stage: IoStage::Path, size: None })
    } else if size is None {
        Err(IoError { path, stage: IoStage::Stat, size: None })
    } else if fd is None {
        Err(IoError { path, stage: IoStage::Open, size })
    } else if !(0 <= size->0 <= usize::MAX) || read is None || read->0@.len() != size->0 {
        Err(IoError { path, stage: IoStage::Read, size })
    } else if !closed {
        Err(IoError { path, stage: IoStage::Close, size })
    } else {
        Ok(read->0)
    }
}

/// A load that is taken through the four answers of storage ends with what
/// reading the whole file gives: all of the file's bytes or an error, never
/// a part of them.
pub proof fn lemma_load_reads_whole_file(
    path: String,
    size: Option<i64>,
    fd: Option<i32>,
    read: Option<Vec<u8>>,
    closed: bool,
)
    ensures
        then(
            then(
                then(then(FileLoader::begun(path), Reply::Stat(size)), Reply::Open(fd)),
                Reply::Read(read),
            ),
            Reply::Close(closed),
        ) == Step::Done(read_whole(path, size, fd, read, closed)),
{
}

/// While a load goes on, the request that a step returns is the one that
/// the new state awaits, and the path stays the same.
pub proof fn lemma_step_asks_what_it_awaits(loader: FileLoader, reply: Reply)
    ensures
        loader.stepped(reply) matches Step::Ask { loader: next, request } ==> request
            == next.awaits() && next.path == loader.path,
        FileLoader::begun(loader.path) matches Step::Ask { loader: next, request } ==> request
            == next.awaits() && next.path == loader.path,
{
}

/// Whether `path` holds a NUL character.
pub fn has_nul(path: &str) -> (found: bool)
    ensures
        found == path@.contains('\0'),
{
    let mut found = false;
    for c in chars: path.chars()
        invariant
            chars.seq() == path@,
            found <==> exists|k: int| 0 <= k < chars.index() && path@[k] == '\0',
    {
        if c == '\0' {
            found = true;
        }
    }
    found
}

} // verus!
