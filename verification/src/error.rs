//! The failures that streaming operations report.

use vstd::prelude::*;

verus! {

/// Why a streaming operation stopped.
#[derive(Clone, Debug, PartialEq, Eq)]
pub enum StreamError {
    /// The codec reported a failure while compressing or decompressing. The
    /// text is the codec's own account of it.
    Codec(String),
    /// The codec accepted none of the bytes that it was offered.
    WriteZero,
    /// A caller's callback asked for the operation to stop.
    Aborted,
}

impl StreamError {
    /// A description of the failure: the codec's own where it has one.
    pub open spec fn text(self) -> Seq<char> {
        match self {
            StreamError::Codec(text) => text@,
            StreamError::WriteZero => "the codec accepted no bytes"@,
            StreamError::Aborted => "a callback stopped the stream"@,
        }
    }

    /// A description of the failure: the codec's own where it has one.
    pub fn message(&self) -> (s: String)
        ensures
            s@ == self.text(),
    {
        match self {
            StreamError::Codec(text) => text.clone(),
            StreamError::WriteZero => "the codec accepted no bytes".to_owned(),
            StreamError::Aborted => "a callback stopped the stream".to_owned(),
        }
    }
}

} // verus!
