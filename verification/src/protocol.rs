//! What the library asks of its caller, and what the caller hands back.
//!
//! The library never touches the target, the keyboard or a floating-point unit.
//! It returns a [`Request`]; the caller carries it out and answers with the
//! matching [`Reply`].

use crate::keys::Key;
use vstd::prelude::*;

verus! {

/// One thing for the caller to do.
#[derive(Debug, PartialEq, Eq)]
pub enum Request {
    /// Read a pointer at `address`, as many bytes as an address has, and answer with
    /// them.
    ReadPointer { address: usize },
    /// Read the four bytes of a scalar at `address` and answer with them.
    ReadValue { address: usize },
    /// Write `bytes` at `address` and answer that it was done.
    WriteValue { address: usize, bytes: [u8; 4] },
    /// Render the number with the bit pattern `value` to four decimal places.
    Format { value: u32 },
    /// Answer with the recognised keys that are held down now.
    Keys,
    /// Parse `text` as a number and answer with its bit pattern, if it is one.
    Parse { text: String },
    /// Add the numbers with the bit patterns `left` and `right`.
    Add { left: u32, right: u32 },
    /// Nothing: the work is done.
    Done,
}

/// A request over mathematical values.
pub enum RequestView {
    ReadPointer { address: usize },
    ReadValue { address: usize },
    WriteValue { address: usize, bytes: Seq<u8> },
    Format { value: u32 },
    Keys,
    Parse { text: Seq<char> },
    Add { left: u32, right: u32 },
    Done,
}

impl View for Request {
    type V = RequestView;

    open spec fn view(&self) -> RequestView {
        match *self {
            Request::ReadPointer { address } => RequestView::ReadPointer { address },
            Request::ReadValue { address } => RequestView::ReadValue { address },
            Request::WriteValue { address, bytes } => RequestView::WriteValue {
                address,
                bytes: bytes@,
            },
            Request::Format { value } => RequestView::Format { value },
            Request::Keys => RequestView::Keys,
            Request::Parse { text } => RequestView::Parse { text: text@ },
            Request::Add { left, right } => RequestView::Add { left, right },
            Request::Done => RequestView::Done,
        }
    }
}

/// The caller's answer to a request, or its signal that a tick begins.
#[derive(Debug, PartialEq, Eq)]
pub enum Reply {
    /// A tick begins.
    Begin,
    /// The bytes found by a read.
    Bytes(Vec<u8>),
    /// A write was carried out.
    Written,
    /// The read or the write failed. The library goes on as if a read had found zeros
    /// and a write had been carried out.
    Failed,
    /// The rendering of a number.
    Text(String),
    /// The recognised keys held down, in the order the keyboard reports them.
    Keys(Vec<Key>),
    /// The bit pattern of the number parsed, or `None` where the text is no number.
    Parsed(Option<u32>),
    /// The bit pattern of a sum.
    Sum(u32),
}

/// A reply over mathematical values.
pub enum ReplyView {
    Begin,
    Bytes(Seq<u8>),
    Written,
    Failed,
    Text(Seq<char>),
    Keys(Seq<Key>),
    Parsed(Option<u32>),
    Sum(u32),
}

impl View for Reply {
    type V = ReplyView;

    open spec fn view(&self) -> ReplyView {
        match *self {
            Reply::Begin => ReplyView::Begin,
            Reply::Bytes(bytes) => ReplyView::Bytes(bytes@),
            Reply::Written => ReplyView::Written,
            Reply::Failed => ReplyView::Failed,
            Reply::Text(text) => ReplyView::Text(text@),
            Reply::Keys(keys) => ReplyView::Keys(keys@),
            Reply::Parsed(bits) => ReplyView::Parsed(bits),
            Reply::Sum(bits) => ReplyView::Sum(bits),
        }
    }
}

} // verus!
