//! Plain data the application state is made of, apart from the transport:
//! who said a message, the indexing status, and the shapes the debug dump
//! is written in.

use vstd::prelude::*;

verus! {

/// The top-level screen of the application shell.
#[derive(Clone, Copy, PartialEq, Eq, Structural, Debug)]
pub enum Screen {
    Home,
    Chat,
}

/// Who authored a chat message.
#[derive(Clone, Copy, PartialEq, Eq, Structural, Debug)]
pub enum Role {
    User,
    Assistant,
    System,
}

/// Which panel of the chat screen has keyboard focus.
#[derive(Clone, Copy, PartialEq, Eq, Structural, Debug)]
pub enum Focus {
    Chat,
    Input,
    Visualization,
}

/// Whether the retrieval index is ready, and how many chunks it holds.
#[derive(Clone, Copy, PartialEq, Eq, Structural, Debug)]
pub struct RagStatus {
    pub initialized: bool,
    pub chunk_count: usize,
}

impl Default for RagStatus {
    fn default() -> (r: Self)
        ensures
            !r.initialized,
            r.chunk_count == 0,
    {
        RagStatus { initialized: false, chunk_count: 0 }
    }
}

/// One chat message as it appears in a debug dump.
#[derive(Debug, Clone, PartialEq)]
pub struct DebugMessage {
    pub role: String,
    pub content: String,
    pub timestamp: String,
}

/// The indexing status as it appears in a debug dump.
#[derive(Clone, Copy, PartialEq, Eq, Structural, Debug)]
pub struct DebugRag {
    pub initialized: bool,
    pub chunk_count: usize,
}

} // verus!
