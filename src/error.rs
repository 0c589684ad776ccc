use vstd::prelude::*;

verus! {

/// A failure of the record stream, with the backend's message.
#[derive(Debug, Clone, PartialEq, Eq)]
pub enum RecordStreamError {
    /// Receiving the next record failed.
    Receive(String),
    /// A payload could not be read as text.
    Deserialize(String),
    /// Producing a record failed.
    Send(String),
    /// Committing the tracked offsets failed.
    Commit(String),
    /// A position could not be recorded in the offset tracker.
    OffsetStore(String),
}

/// A failure of the durable store, with its message.
#[derive(Debug, Clone, PartialEq, Eq)]
pub struct DataLakeError {
    pub message: String,
}

/// Why a sink stopped with an error.
#[derive(Debug, Clone, PartialEq, Eq)]
pub enum LakeSinkError {
    RecordStream(RecordStreamError),
    Lake(DataLakeError),
}

impl LakeSinkError {
    /// A human-readable description of the error.
    pub fn describe(&self) -> (r: String) {
        let mut s = String::from_str("Lake sink error: ");
        match self {
            LakeSinkError::RecordStream(e) => {
                let m = match e {
                    RecordStreamError::Receive(m) => m,
                    RecordStreamError::Deserialize(m) => m,
                    RecordStreamError::Send(m) => m,
                    RecordStreamError::Commit(m) => m,
                    RecordStreamError::OffsetStore(m) => m,
                };
                s.append(m.as_str());
            },
            LakeSinkError::Lake(e) => {
                s.append(e.message.as_str());
            },
        }
        s
    }
}

} // verus!
