//! Responses API <-> Chat Completions API conversion (non-streaming parts).

pub mod fresh;
pub mod laws;
pub mod messages;
pub mod request;
pub mod response;
pub mod tools;

pub use fresh::{new_id, now_secs};
pub use response::{
    chat_to_response, convert_usage, map_finish_reason, message_item, reasoning_item,
    reasoning_text, response_object, tool_call_item,
};
pub use request::{to_chat_request, ChatRequest};
pub use vstd::hash_set::StringHashSet;
