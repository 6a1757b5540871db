//! The tool that controls a running recorder.

use crate::command::{check_service, CommandError, CommandFailure};
use crate::text::{chars_of, first_place, is_blank, push_text, split_at_first, split_once};
use vstd::prelude::*;

verus! {

/// The options of a control request.
#[derive(Debug)]
pub struct LogControlOptions {
    /// Service that the recorder records.
    pub service: String,
    /// Node name of the control client.
    pub node_name: String,
    /// How long to wait for an answer, in milliseconds.
    pub timeout_ms: u64,
}

/// What the tool is asked to do.
#[derive(Debug)]
pub enum LogControlAction {
    /// Report the counters.
    Status(LogControlOptions),
    /// Flush durably.
    Flush(LogControlOptions),
    /// Stop.
    Stop(LogControlOptions),
    /// Drop what comes in.
    Pause(LogControlOptions),
    /// Record again.
    Resume(LogControlOptions),
}

/// A command to a running recorder.
#[derive(Debug, Clone, Copy, PartialEq, Eq, Structural)]
pub enum ControlCommand {
    /// Report the counters.
    Status,
    /// Flush durably.
    Flush,
    /// Stop.
    Stop,
    /// Drop what comes in.
    Pause,
    /// Record again.
    Resume,
}

/// The name of a command.
pub open spec fn operation_name(command: ControlCommand) -> Seq<char> {
    match command {
        ControlCommand::Status => "status"@,
        ControlCommand::Flush => "flush"@,
        ControlCommand::Stop => "stop"@,
        ControlCommand::Pause => "pause"@,
        ControlCommand::Resume => "resume"@,
    }
}

impl ControlCommand {
    /// The name of the command.
    pub fn operation(self) -> (name: &'static str)
        ensures
            name@ == operation_name(self),
    {
        match self {
            ControlCommand::Status => "status",
            ControlCommand::Flush => "flush",
            ControlCommand::Stop => "stop",
            ControlCommand::Pause => "pause",
            ControlCommand::Resume => "resume",
        }
    }
}

impl LogControlAction {
    /// The command and the options of an action.
    pub open spec fn parts(self) -> (ControlCommand, LogControlOptions) {
        match self {
            LogControlAction::Status(options) => (ControlCommand::Status, options),
            LogControlAction::Flush(options) => (ControlCommand::Flush, options),
            LogControlAction::Stop(options) => (ControlCommand::Stop, options),
            LogControlAction::Pause(options) => (ControlCommand::Pause, options),
            LogControlAction::Resume(options) => (ControlCommand::Resume, options),
        }
    }

    /// Takes an action apart into its command and its options.
    pub fn into_parts(self) -> (parts: (ControlCommand, LogControlOptions))
        ensures
            parts == self.parts(),
    {
        match self {
            LogControlAction::Status(options) => (ControlCommand::Status, options),
            LogControlAction::Flush(options) => (ControlCommand::Flush, options),
            LogControlAction::Stop(options) => (ControlCommand::Stop, options),
            LogControlAction::Pause(options) => (ControlCommand::Pause, options),
            LogControlAction::Resume(options) => (ControlCommand::Resume, options),
        }
    }
}

/// What is wrong with the options, if anything is.
pub open spec fn control_problem(options: LogControlOptions) -> Option<Seq<char>> {
    if is_blank(options.service@) {
        Some("--service must not be empty"@)
    } else if options.timeout_ms == 0 {
        Some("--timeout-ms must be greater than 0"@)
    } else {
        None
    }
}

/// Checks the options.
pub fn validate_options(options: &LogControlOptions) -> (result: Result<(), CommandError>)
    ensures
        match result {
            Ok(_) => control_problem(*options) is None,
            Err(error) => control_problem(*options) matches Some(message) && error@
                == CommandFailure::InvalidInput(message),
        },
{
    check_service(options.service.as_str())?;
    if options.timeout_ms == 0 {
        return Err(CommandError::invalid_input("--timeout-ms must be greater than 0"));
    }
    Ok(())
}

/// Why a control request failed.
#[derive(Debug)]
pub enum LogRecorderControlError {
    /// The request is not valid.
    InvalidInput(String),
    /// The recorder is not there, or failed.
    NotAvailable(String),
    /// The transport failed.
    Iceoryx2(String),
}

/// The text holds another text.
pub open spec fn holds(s: Seq<char>, part: Seq<char>) -> bool {
    first_place(s, part, 0) is Some
}

/// Tells whether a text holds another text.
pub fn holds_text(s: &str, part: &str) -> (is: bool)
    ensures
        is == holds(s@, part@),
{
    let chars = chars_of(s);
    let wanted = chars_of(part);
    let found = split_at_first(&chars, &wanted);
    assert(split_once(s@, part@) is Some <==> first_place(s@, part@, 0) is Some);
    found.is_some()
}

/// What a failed control request means for the tool.
pub open spec fn control_failure(
    error: LogRecorderControlError,
    operation: Seq<char>,
) -> CommandFailure {
    match error {
        LogRecorderControlError::InvalidInput(message) => CommandFailure::InvalidInput(
            if holds(message@, "daemon rejected"@) {
                "daemon rejected "@ + operation + " command as invalid"@
            } else {
                message@
            },
        ),
        LogRecorderControlError::NotAvailable(message) => CommandFailure::NotAvailable(
            if holds(message@, "daemon failed"@) {
                "daemon failed to execute "@ + operation + " command"@
            } else {
                message@
            },
        ),
        LogRecorderControlError::Iceoryx2(message) => CommandFailure::Internal(message@),
    }
}

/// Tells what a failed control request means for the tool.
pub fn map_control_error(error: LogRecorderControlError, operation: &'static str) -> (result:
    CommandError)
    ensures
        result@ == control_failure(error, operation@),
{
    match error {
        LogRecorderControlError::InvalidInput(message) => if holds_text(
            message.as_str(),
            "daemon rejected",
        ) {
            let mut text = "daemon rejected ".to_owned();
            push_text(&mut text, operation);
            push_text(&mut text, " command as invalid");
            CommandError::InvalidInput(text)
        } else {
            CommandError::InvalidInput(message)
        },
        LogRecorderControlError::NotAvailable(message) => if holds_text(
            message.as_str(),
            "daemon failed",
        ) {
            let mut text = "daemon failed to execute ".to_owned();
            push_text(&mut text, operation);
            push_text(&mut text, " command");
            CommandError::NotAvailable(text)
        } else {
            CommandError::NotAvailable(message)
        },
        LogRecorderControlError::Iceoryx2(message) => CommandError::Internal(message),
    }
}

} // verus!
