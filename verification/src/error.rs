//! What can go wrong at the boundary.
use crate::events::{EventView, FuncIndex, RREvent, RRModuleInstanceId};
use crate::text::{decimal, push_decimal};
use vstd::prelude::*;

verus! {

/// An item of a module instance.
#[derive(Clone, Copy, Debug, PartialEq, Eq, Structural)]
pub enum EntityIndex {
    Function(FuncIndex),
    Table(u32),
    Memory(u32),
    Global(u32),
    Tag(u32),
}

/// A replay that does not go the way of its trace.
#[derive(Clone, Copy, Debug, PartialEq, Eq, Structural)]
pub enum ReplayError {
    /// The trace is at its end.
    EmptyBuffer,
    /// The next event of the trace differs from what the replay did.
    FailedValidation,
    /// The next event of the trace is of another kind than was asked for.
    IncorrectEventVariant,
    /// The trace names a module instance that the replay does not have.
    MissingModuleInstance(RRModuleInstanceId),
    /// The trace names something that is no function of its instance.
    InvalidCoreFuncIndex(EntityIndex),
}

/// The errors of the hooks, and of the calls that they make.
#[derive(Debug)]
pub enum Error {
    Replay(ReplayError),
    /// The writer behind a recording has failed.
    RecordFailed(String),
    /// A host function's replay came upon an event that cannot stand there.
    UnexpectedEvent(RREvent),
    /// A module that is to be recorded exports a memory.
    ExportedMemory,
    /// A function was called with too many or too few arguments.
    ArgumentCount { expected: usize, given: usize },
    /// A trap, or an error of a host function.
    Wasm(String),
}

/// The mathematical form of an [`Error`].
pub enum ErrorView {
    Replay(ReplayError),
    RecordFailed(Seq<char>),
    UnexpectedEvent(EventView),
    ExportedMemory,
    ArgumentCount { expected: nat, given: nat },
    Wasm(Seq<char>),
}

impl View for Error {
    type V = ErrorView;

    open spec fn view(&self) -> ErrorView {
        match *self {
            Error::Replay(e) => ErrorView::Replay(e),
            Error::RecordFailed(reason) => ErrorView::RecordFailed(reason@),
            Error::UnexpectedEvent(event) => ErrorView::UnexpectedEvent(event@),
            Error::ExportedMemory => ErrorView::ExportedMemory,
            Error::ArgumentCount { expected, given } => ErrorView::ArgumentCount {
                expected: expected as nat,
                given: given as nat,
            },
            Error::Wasm(reason) => ErrorView::Wasm(reason@),
        }
    }
}

/// An outcome with its error in mathematical form.
pub open spec fn outcome<V>(result: Result<V, Error>) -> Result<V, ErrorView> {
    match result {
        Ok(value) => Ok(value),
        Err(error) => Err(error@),
    }
}

impl EntityIndex {
    pub open spec fn text(self) -> Seq<char> {
        match self {
            EntityIndex::Function(index) => "Function("@ + decimal(index.0 as nat) + ")"@,
            EntityIndex::Table(index) => "Table("@ + decimal(index as nat) + ")"@,
            EntityIndex::Memory(index) => "Memory("@ + decimal(index as nat) + ")"@,
            EntityIndex::Global(index) => "Global("@ + decimal(index as nat) + ")"@,
            EntityIndex::Tag(index) => "Tag("@ + decimal(index as nat) + ")"@,
        }
    }

    fn push_text(self, out: &mut String)
        ensures
            final(out)@ == old(out)@ + self.text(),
    {
        let index = match self {
            EntityIndex::Function(index) => {
                out.append("Function(");
                index.0
            },
            EntityIndex::Table(index) => {
                out.append("Table(");
                index
            },
            EntityIndex::Memory(index) => {
                out.append("Memory(");
                index
            },
            EntityIndex::Global(index) => {
                out.append("Global(");
                index
            },
            EntityIndex::Tag(index) => {
                out.append("Tag(");
                index
            },
        };
        push_decimal(out, index as u64);
        out.append(")");
        assert(out@ =~= old(out)@ + self.text());
    }
}

impl ReplayError {
    pub open spec fn text(self) -> Seq<char> {
        match self {
            ReplayError::EmptyBuffer => "replay buffer is empty"@,
            ReplayError::FailedValidation => "replay event validation failed"@,
            ReplayError::IncorrectEventVariant => "event type mismatch during replay"@,
            ReplayError::MissingModuleInstance(id) => "missing module instance "@ + decimal(
                id.0 as nat,
            ),
            ReplayError::InvalidCoreFuncIndex(entity) => "invalid core function index "@
                + entity.text(),
        }
    }

    fn push_text(self, out: &mut String)
        ensures
            final(out)@ == old(out)@ + self.text(),
    {
        match self {
            ReplayError::EmptyBuffer => {
                out.append("replay buffer is empty");
            },
            ReplayError::FailedValidation => {
                out.append("replay event validation failed");
            },
            ReplayError::IncorrectEventVariant => {
                out.append("event type mismatch during replay");
            },
            ReplayError::MissingModuleInstance(id) => {
                out.append("missing module instance ");
                push_decimal(out, id.0 as u64);
            },
            ReplayError::InvalidCoreFuncIndex(entity) => {
                out.append("invalid core function index ");
                entity.push_text(out);
            },
        }
        assert(out@ =~= old(out)@ + self.text());
    }
}

impl ErrorView {
    /// The message that a user reads.
    pub open spec fn text(self) -> Seq<char> {
        match self {
            ErrorView::Replay(e) => e.text(),
            ErrorView::RecordFailed(reason) => reason,
            ErrorView::UnexpectedEvent(event) =>
                "Unexpected event during core wasm host function replay: expected HostFuncReturn or CoreWasmFuncEntry, got "@
                + event.debug_text(),
            ErrorView::ExportedMemory =>
                "Cannot support recording for core wasm modules when a memory is exported"@,
            ErrorView::ArgumentCount { expected, given } => "expected "@ + decimal(expected)
                + " arguments, got "@ + decimal(given),
            ErrorView::Wasm(reason) => reason,
        }
    }
}

impl Error {
    /// The message that a user reads.
    pub fn to_text(&self) -> (text: String)
        ensures
            text@ == self@.text(),
    {
        let mut out = String::new();
        match self {
            Error::Replay(e) => {
                e.push_text(&mut out);
            },
            Error::RecordFailed(reason) => {
                out.append(reason.as_str());
            },
            Error::UnexpectedEvent(event) => {
                out.append(
                    "Unexpected event during core wasm host function replay: expected HostFuncReturn or CoreWasmFuncEntry, got ",
                );
                event.push_debug_text(&mut out);
            },
            Error::ExportedMemory => {
                out.append("Cannot support recording for core wasm modules when a memory is exported");
            },
            Error::ArgumentCount { expected, given } => {
                out.append("expected ");
                push_decimal(&mut out, *expected as u64);
                out.append(" arguments, got ");
                push_decimal(&mut out, *given as u64);
            },
            Error::Wasm(reason) => {
                out.append(reason.as_str());
            },
        }
        assert(out@ =~= self@.text());
        out
    }
}

} // verus!
