pub mod agent_credentials;
pub mod agent_session_host;
pub mod codex_model;
pub mod event_buffer;
pub mod folder;
pub mod json;
pub mod limits;
pub mod openai_subscribed;
pub mod profile_selector;
pub mod quick_task;
pub mod remote_agent_connection;
pub mod response_log;
pub mod response_stream;
pub mod responses;
pub mod session_event;
pub mod sign_in;
pub mod table;
pub mod text;
pub mod thread_id;
pub mod thread_landing;
pub mod thread_metadata;
pub mod thread_registry;
pub mod timestamp;
pub mod tool_authorization;
