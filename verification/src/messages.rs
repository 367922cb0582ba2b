//! The messages between the reloader and the Python processes.
use vstd::prelude::*;

pub mod io;

verus! {

/// Represents the different types of messages that can be sent between parent and child processes
#[derive(Debug, Clone, Copy, PartialEq, Eq, Structural)]
pub enum MessageType {
    ForkRequest,
    ForkResponse,
    ChildComplete,
    ChildError,
    UnknownCommand,
    UnknownError,
    ImportError,
    ImportComplete,
    ExitRequest,
}

/// Base trait for all messages
pub trait MessageBase {
    /// The type of the message.
    spec fn message_type(&self) -> MessageType;

    fn name(&self) -> (name: MessageType)
        ensures
            name == self.message_type(),
    ;
}

/// Request to fork a process and execute code
#[derive(Debug, Clone)]
pub struct ForkRequest {
    pub name: MessageType,
    /// The code that the process executes.
    pub code: String,
}

impl MessageBase for ForkRequest {
    open spec fn message_type(&self) -> MessageType {
        MessageType::ForkRequest
    }

    fn name(&self) -> MessageType {
        MessageType::ForkRequest
    }
}

impl ForkRequest {
    pub fn new(code: String) -> (message: Self)
        ensures
            message.name == MessageType::ForkRequest,
            message.code == code,
    {
        ForkRequest { name: MessageType::ForkRequest, code }
    }
}

/// Request to exit the process
#[derive(Debug, Clone)]
pub struct ExitRequest {
    pub name: MessageType,
}

impl MessageBase for ExitRequest {
    open spec fn message_type(&self) -> MessageType {
        MessageType::ExitRequest
    }

    fn name(&self) -> MessageType {
        MessageType::ExitRequest
    }
}

impl ExitRequest {
    pub fn new() -> (message: Self)
        ensures
            message.name == MessageType::ExitRequest,
    {
        ExitRequest { name: MessageType::ExitRequest }
    }
}

/// Response to a fork request
#[derive(Debug, Clone)]
pub struct ForkResponse {
    pub name: MessageType,
    pub child_pid: i32,
    /// The request that is answered, where the loader says so.
    pub request_id: Option<String>,
    /// The name under which the process was requested, where the loader says so.
    pub request_name: Option<String>,
}

impl MessageBase for ForkResponse {
    open spec fn message_type(&self) -> MessageType {
        MessageType::ForkResponse
    }

    fn name(&self) -> MessageType {
        MessageType::ForkResponse
    }
}

impl ForkResponse {
    pub fn new(child_pid: i32) -> (message: Self)
        ensures
            message.name == MessageType::ForkResponse,
            message.child_pid == child_pid,
            message.request_id is None,
            message.request_name is None,
    {
        ForkResponse { name: MessageType::ForkResponse, child_pid, request_id: None, request_name: None }
    }
}

/// Message indicating a child process has completed successfully
#[derive(Debug, Clone)]
pub struct ChildComplete {
    pub name: MessageType,
    pub result: Option<String>,
}

impl MessageBase for ChildComplete {
    open spec fn message_type(&self) -> MessageType {
        MessageType::ChildComplete
    }

    fn name(&self) -> MessageType {
        MessageType::ChildComplete
    }
}

impl ChildComplete {
    pub fn new(result: Option<String>) -> (message: Self)
        ensures
            message.name == MessageType::ChildComplete,
            message.result == result,
    {
        ChildComplete { name: MessageType::ChildComplete, result }
    }
}

/// Message indicating a child process has encountered an error
#[derive(Debug, Clone)]
pub struct ChildError {
    pub name: MessageType,
    pub error: String,
    /// Where the error came from, where the child says so.
    pub traceback: Option<String>,
}

impl MessageBase for ChildError {
    open spec fn message_type(&self) -> MessageType {
        MessageType::ChildError
    }

    fn name(&self) -> MessageType {
        MessageType::ChildError
    }
}

impl ChildError {
    pub fn new(error: String) -> (message: Self)
        ensures
            message.name == MessageType::ChildError,
            message.error == error,
            message.traceback is None,
    {
        ChildError { name: MessageType::ChildError, error, traceback: None }
    }
}

/// Message indicating an unknown command was received
#[derive(Debug, Clone)]
pub struct UnknownCommandError {
    pub name: MessageType,
    pub command: String,
}

impl MessageBase for UnknownCommandError {
    open spec fn message_type(&self) -> MessageType {
        MessageType::UnknownCommand
    }

    fn name(&self) -> MessageType {
        MessageType::UnknownCommand
    }
}

impl UnknownCommandError {
    pub fn new(command: String) -> (message: Self)
        ensures
            message.name == MessageType::UnknownCommand,
            message.command == command,
    {
        UnknownCommandError { name: MessageType::UnknownCommand, command }
    }
}

/// Message indicating an unknown error occurred
#[derive(Debug, Clone)]
pub struct UnknownError {
    pub name: MessageType,
    pub error: String,
    pub traceback: Option<String>,
}

impl MessageBase for UnknownError {
    open spec fn message_type(&self) -> MessageType {
        MessageType::UnknownError
    }

    fn name(&self) -> MessageType {
        MessageType::UnknownError
    }
}

impl UnknownError {
    pub fn new(error: String, traceback: Option<String>) -> (message: Self)
        ensures
            message.name == MessageType::UnknownError,
            message.error == error,
            message.traceback == traceback,
    {
        UnknownError { name: MessageType::UnknownError, error, traceback }
    }
}

/// Message indicating an import error occurred
#[derive(Debug, Clone)]
pub struct ImportError {
    pub name: MessageType,
    pub error: String,
    pub traceback: Option<String>,
}

impl MessageBase for ImportError {
    open spec fn message_type(&self) -> MessageType {
        MessageType::ImportError
    }

    fn name(&self) -> MessageType {
        MessageType::ImportError
    }
}

impl ImportError {
    pub fn new(error: String, traceback: Option<String>) -> (message: Self)
        ensures
            message.name == MessageType::ImportError,
            message.error == error,
            message.traceback == traceback,
    {
        ImportError { name: MessageType::ImportError, error, traceback }
    }
}

/// Message indicating an import was completed successfully
#[derive(Debug, Clone)]
pub struct ImportComplete {
    pub name: MessageType,
}

impl MessageBase for ImportComplete {
    open spec fn message_type(&self) -> MessageType {
        MessageType::ImportComplete
    }

    fn name(&self) -> MessageType {
        MessageType::ImportComplete
    }
}

impl ImportComplete {
    pub fn new() -> (message: Self)
        ensures
            message.name == MessageType::ImportComplete,
    {
        ImportComplete { name: MessageType::ImportComplete }
    }
}

/// Enum that can hold any message type
#[derive(Debug, Clone)]
pub enum Message {
    ForkRequest(ForkRequest),
    ForkResponse(ForkResponse),
    ChildComplete(ChildComplete),
    ChildError(ChildError),
    UnknownCommand(UnknownCommandError),
    UnknownError(UnknownError),
    ImportError(ImportError),
    ImportComplete(ImportComplete),
    ExitRequest(ExitRequest),
}

/// The type of a message.
pub open spec fn type_of(message: Message) -> MessageType {
    match message {
        Message::ForkRequest(_) => MessageType::ForkRequest,
        Message::ForkResponse(_) => MessageType::ForkResponse,
        Message::ChildComplete(_) => MessageType::ChildComplete,
        Message::ChildError(_) => MessageType::ChildError,
        Message::UnknownCommand(_) => MessageType::UnknownCommand,
        Message::UnknownError(_) => MessageType::UnknownError,
        Message::ImportError(_) => MessageType::ImportError,
        Message::ImportComplete(_) => MessageType::ImportComplete,
        Message::ExitRequest(_) => MessageType::ExitRequest,
    }
}

impl Message {
    pub fn name(&self) -> (name: MessageType)
        ensures
            name == type_of(*self),
    {
        match self {
            Message::ForkRequest(_) => MessageType::ForkRequest,
            Message::ForkResponse(_) => MessageType::ForkResponse,
            Message::ChildComplete(_) => MessageType::ChildComplete,
            Message::ChildError(_) => MessageType::ChildError,
            Message::UnknownCommand(_) => MessageType::UnknownCommand,
            Message::UnknownError(_) => MessageType::UnknownError,
            Message::ImportError(_) => MessageType::ImportError,
            Message::ImportComplete(_) => MessageType::ImportComplete,
            Message::ExitRequest(_) => MessageType::ExitRequest,
        }
    }
}

/// A message is of the type of what it holds.
pub proof fn law_type_is_that_of_the_content(message: Message)
    ensures
        match message {
            Message::ForkRequest(inner) => type_of(message) == inner.message_type(),
            Message::ForkResponse(inner) => type_of(message) == inner.message_type(),
            Message::ChildComplete(inner) => type_of(message) == inner.message_type(),
            Message::ChildError(inner) => type_of(message) == inner.message_type(),
            Message::UnknownCommand(inner) => type_of(message) == inner.message_type(),
            Message::UnknownError(inner) => type_of(message) == inner.message_type(),
            Message::ImportError(inner) => type_of(message) == inner.message_type(),
            Message::ImportComplete(inner) => type_of(message) == inner.message_type(),
            Message::ExitRequest(inner) => type_of(message) == inner.message_type(),
        },
{
}

} // verus!
