//! Fixed observations emitted by the currently shipped runtime.
//!
//! Emit sites name a lifecycle boundary by these constants; each is exactly
//! the matching [`Observation`] variant.

use crate::observe::Observation;
use vstd::prelude::*;

verus! {

pub const PARSE_STARTED: Observation = Observation::ParseStarted;

pub const PARSE_SUCCEEDED: Observation = Observation::ParseSucceeded;

pub const PARSE_FAILED: Observation = Observation::ParseFailed;

pub const RUN_STARTED: Observation = Observation::RunStarted;

pub const RUN_SUCCEEDED: Observation = Observation::RunSucceeded;

pub const RUN_FAILED: Observation = Observation::RunFailed;

pub const SECTION_STARTED: Observation = Observation::SectionStarted;

pub const SECTION_FINISHED: Observation = Observation::SectionFinished;

pub const MODEL_TURN_COMPLETED: Observation = Observation::ModelTurnCompleted;

pub const MODEL_TURN_FAILED: Observation = Observation::ModelTurnFailed;

pub const MODEL_TURN_TRUNCATED: Observation = Observation::ModelTurnTruncated;

pub const TOOL_CALL_SUCCEEDED: Observation = Observation::ToolCallSucceeded;

pub const TOOL_CALL_FAILED: Observation = Observation::ToolCallFailed;

pub const LUA_COMPILATION_STARTED: Observation = Observation::LuaCompilationStarted;

pub const LUA_COMPILATION_SUCCEEDED: Observation = Observation::LuaCompilationSucceeded;

pub const LUA_COMPILATION_FAILED: Observation = Observation::LuaCompilationFailed;

pub const LUA_SHARED_LOAD_STARTED: Observation = Observation::LuaSharedLoadStarted;

pub const LUA_SHARED_LOAD_SUCCEEDED: Observation = Observation::LuaSharedLoadSucceeded;

pub const LUA_SHARED_LOAD_FAILED: Observation = Observation::LuaSharedLoadFailed;

pub const LUA_CHUNK_STARTED: Observation = Observation::LuaChunkStarted;

pub const LUA_CHUNK_SUCCEEDED: Observation = Observation::LuaChunkSucceeded;

pub const LUA_CHUNK_FAILED: Observation = Observation::LuaChunkFailed;

pub const LUA_REPLY_BINDING_STARTED: Observation = Observation::LuaReplyBindingStarted;

pub const LUA_REPLY_BINDING_SUCCEEDED: Observation = Observation::LuaReplyBindingSucceeded;

pub const LUA_REPLY_BINDING_FAILED: Observation = Observation::LuaReplyBindingFailed;

pub const LUA_TEARDOWN_STARTED: Observation = Observation::LuaTeardownStarted;

pub const LUA_TEARDOWN_SUCCEEDED: Observation = Observation::LuaTeardownSucceeded;

pub const TOOL_SCOPE_VALIDATION_STARTED: Observation = Observation::ToolScopeValidationStarted;

pub const TOOL_SCOPE_VALIDATION_SUCCEEDED: Observation = Observation::ToolScopeValidationSucceeded;

pub const TOOL_SCOPE_VALIDATION_FAILED: Observation = Observation::ToolScopeValidationFailed;

pub const MODEL_CATALOG_VALIDATION_STARTED: Observation = Observation::ModelCatalogValidationStarted;

pub const MODEL_CATALOG_VALIDATION_SUCCEEDED: Observation = Observation::ModelCatalogValidationSucceeded;

pub const MODEL_CATALOG_VALIDATION_FAILED: Observation = Observation::ModelCatalogValidationFailed;

pub const STORE_WRITE_SUCCEEDED: Observation = Observation::StoreWriteSucceeded;

pub const STORE_WRITE_FAILED: Observation = Observation::StoreWriteFailed;

pub const STORE_APPEND_SUCCEEDED: Observation = Observation::StoreAppendSucceeded;

pub const STORE_APPEND_FAILED: Observation = Observation::StoreAppendFailed;

pub const STORE_READ_SUCCEEDED: Observation = Observation::StoreReadSucceeded;

pub const STORE_READ_FAILED: Observation = Observation::StoreReadFailed;

pub const STORE_READ_NUMBERED_SUCCEEDED: Observation = Observation::StoreReadNumberedSucceeded;

pub const STORE_READ_NUMBERED_FAILED: Observation = Observation::StoreReadNumberedFailed;

pub const STORE_REPLACE_SUCCEEDED: Observation = Observation::StoreReplaceSucceeded;

pub const STORE_REPLACE_FAILED: Observation = Observation::StoreReplaceFailed;

pub const STORE_DELETE_SUCCEEDED: Observation = Observation::StoreDeleteSucceeded;

pub const STORE_DELETE_FAILED: Observation = Observation::StoreDeleteFailed;

pub const STORE_GLOB_SUCCEEDED: Observation = Observation::StoreGlobSucceeded;

pub const STORE_GLOB_FAILED: Observation = Observation::StoreGlobFailed;

pub const FANOUT_ARM_STARTED: Observation = Observation::FanoutArmStarted;

pub const FANOUT_ARM_SUCCEEDED: Observation = Observation::FanoutArmSucceeded;

pub const FANOUT_ARM_EXHAUSTED: Observation = Observation::FanoutArmExhausted;

pub const FANOUT_ARM_FAILED: Observation = Observation::FanoutArmFailed;

pub const FANOUT_ARM_CANCELLED: Observation = Observation::FanoutArmCancelled;

pub const USER_INPUT_WAIT_STARTED: Observation = Observation::UserInputWaitStarted;

} // verus!
