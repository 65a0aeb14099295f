//! Why an agent run fails, and the ceilings it runs under.

use crate::gateway::{decimal, render_decimal};
use crate::text::{concat, text_option};
use vstd::prelude::*;

verus! {

/// The reason one agent run failed. Causes are carried as their texts.
#[derive(Debug, PartialEq, Eq)]
#[non_exhaustive]
pub enum AgentError {
    /// The host fired the run's cancel handle.
    Interrupted,
    /// The agent program failed: a compile or runtime error, an exhausted
    /// quota, a failed host contract, or a dispatch failure that the program
    /// did not catch.
    Program {
        /// The failure rendered as its location-tagged diagnostic.
        message: String,
        /// The originating error, when one exists.
        source: Option<String>,
    },
    /// A model call failed in transport or protocol terms.
    Model {
        /// The completion failure's rendered message.
        message: String,
        /// The client's completion error.
        source: String,
    },
    /// An internal runtime invariant was violated.
    Internal(&'static str),
}

/// [`AgentError`] over plain values.
pub enum ErrorModel {
    Interrupted,
    Program { message: Seq<char>, source: Option<Seq<char>> },
    Model { message: Seq<char>, source: Seq<char> },
    Internal(Seq<char>),
}

impl View for AgentError {
    type V = ErrorModel;

    open spec fn view(&self) -> ErrorModel {
        match *self {
            AgentError::Interrupted => ErrorModel::Interrupted,
            AgentError::Program { message, source } => ErrorModel::Program {
                message: message@,
                source: text_option(source),
            },
            AgentError::Model { message, source } => ErrorModel::Model {
                message: message@,
                source: source@,
            },
            AgentError::Internal(what) => ErrorModel::Internal(what@),
        }
    }
}

/// A program failure without a cause.
pub open spec fn program_failure(message: Seq<char>) -> ErrorModel {
    ErrorModel::Program { message, source: None }
}

/// A program failure without a cause.
pub fn program_error(message: String) -> (error: AgentError)
    ensures
        error@ == program_failure(message@),
{
    AgentError::Program { message, source: None }
}

impl AgentError {
    /// What the error says.
    pub open spec fn text(&self) -> Seq<char> {
        match self@ {
            ErrorModel::Interrupted => "interrupted"@,
            ErrorModel::Program { message, .. } => message,
            ErrorModel::Model { message, .. } => message,
            ErrorModel::Internal(what) => "internal invariant violated: "@ + what,
        }
    }

    /// What the error says.
    pub fn to_string(&self) -> (text: String)
        ensures
            text@ == self.text(),
    {
        match self {
            AgentError::Interrupted => "interrupted".to_owned(),
            AgentError::Program { message, .. } => message.clone(),
            AgentError::Model { message, .. } => message.clone(),
            AgentError::Internal(what) => concat("internal invariant violated: ", what),
        }
    }
}

/// A failure of the Lua substrate.
#[derive(Debug)]
pub enum LuaFault {
    /// The run was cancelled.
    Interrupted,
    /// Running Lua failed.
    LuaRuntime {
        /// The diagnostic.
        message: String,
        /// The cause.
        source: String,
    },
    /// A tool failed.
    Tool {
        /// The diagnostic.
        message: String,
        /// The cause.
        source: String,
    },
    /// The source did not compile.
    LuaCompile {
        /// Where.
        location: String,
        /// On which source line.
        source_line: u32,
        /// The diagnostic.
        message: String,
        /// The cause.
        source: String,
    },
    /// Any other failure, rendered.
    Other(String),
}

/// The agent error of a failure of the Lua substrate. Cancellation stays
/// typed, the source-bearing failures keep their causes, and everything else
/// degrades to its rendering.
pub open spec fn fault_model(fault: LuaFault) -> ErrorModel {
    match fault {
        LuaFault::Interrupted => ErrorModel::Interrupted,
        LuaFault::LuaRuntime { message, source } => ErrorModel::Program {
            message: message@,
            source: Some(source@),
        },
        LuaFault::Tool { message, source } => ErrorModel::Program {
            message: message@,
            source: Some(source@),
        },
        LuaFault::LuaCompile { location, source_line, message, source } => ErrorModel::Program {
            message: "lua compilation error at "@ + location@ + " (line "@ + decimal(
                source_line as int,
            ) + "): "@ + message@,
            source: Some(source@),
        },
        LuaFault::Other(rendered) => program_failure(rendered@),
    }
}

/// Maps a failure of the Lua substrate onto the agent's error.
pub fn from_lua(fault: LuaFault) -> (error: AgentError)
    ensures
        error@ == fault_model(fault),
{
    match fault {
        LuaFault::Interrupted => AgentError::Interrupted,
        LuaFault::LuaRuntime { message, source } => AgentError::Program {
            message,
            source: Some(source),
        },
        LuaFault::Tool { message, source } => AgentError::Program {
            message,
            source: Some(source),
        },
        LuaFault::LuaCompile { location, source_line, message, source } => {
            let mut text = concat("lua compilation error at ", location.as_str());
            let digits = render_decimal(source_line as u128);
            text.push_str(" (line ");
            text.push_str(digits.as_str());
            text.push_str("): ");
            text.push_str(message.as_str());
            AgentError::Program { message: text, source: Some(source) }
        },
        LuaFault::Other(rendered) => program_error(rendered),
    }
}

/// Lua resource ceilings for one agent run.
#[derive(Debug, Clone, Copy, PartialEq, Eq, Structural)]
pub struct AgentLimits {
    /// The agent VM's Lua heap ceiling in bytes.
    pub lua_memory_bytes: usize,
    /// The agent VM's `log()` event budget.
    pub lua_log_events: u32,
}

impl Default for AgentLimits {
    /// A 64 MiB Lua heap and 1024 `log()` events.
    fn default() -> (limits: AgentLimits)
        ensures
            limits.lua_memory_bytes == 64 * 1024 * 1024,
            limits.lua_log_events == 1024,
    {
        AgentLimits { lua_memory_bytes: 64 * 1024 * 1024, lua_log_events: 1024 }
    }
}

/// Cancellation stays typed and nothing else becomes it; a failure that names
/// its cause keeps it, and one that does not has none; and no diagnostic is
/// lost: the failure's message ends with it.
pub proof fn law_faults_keep_their_causes(fault: LuaFault)
    ensures
        fault_model(fault) is Interrupted <==> fault is Interrupted,
        !(fault is Interrupted) ==> fault_model(fault) is Program,
        fault matches LuaFault::LuaRuntime { message, source } ==> fault_model(fault)
            == (ErrorModel::Program { message: message@, source: Some(source@) }),
        fault matches LuaFault::Tool { message, source } ==> fault_model(fault)
            == (ErrorModel::Program { message: message@, source: Some(source@) }),
        fault matches LuaFault::Other(rendered) ==> fault_model(fault) == (ErrorModel::Program {
            message: rendered@,
            source: None,
        }),
        fault matches LuaFault::LuaCompile { location, source_line, message, source } ==> {
            let said = fault_model(fault)->Program_message;
            &&& fault_model(fault)->Program_source == Some(source@)
            &&& said == "lua compilation error at "@ + location@ + " (line "@ + decimal(
                source_line as int,
            ) + "): "@ + message@
            &&& said.skip(said.len() - message@.len()) == message@
        },
{
    if let LuaFault::LuaCompile { location, source_line, message, source } = fault {
        let said = fault_model(fault)->Program_message;
        assert(said.skip(said.len() - message@.len()) =~= message@);
    }
}

/// What an error says: a program or model failure its own message, the others
/// what they are.
pub proof fn law_an_error_says_its_message(error: AgentError)
    ensures
        error matches AgentError::Program { message, .. } ==> error.text() == message@,
        error matches AgentError::Model { message, .. } ==> error.text() == message@,
        error is Interrupted ==> error.text() == "interrupted"@,
        error matches AgentError::Internal(what) ==> error.text() == "internal invariant violated: "@
            + what@,
{
}

} // verus!
