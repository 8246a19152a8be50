pub mod json;
pub mod text;
pub mod types;
pub mod tool;
pub mod todo;
pub mod anthropic;
pub mod openai;
pub mod json_validate;
pub mod skill;
pub mod subagent;
pub mod spawn;
pub mod schema;
pub mod prompts;
pub mod context;
pub mod event;
pub mod agent_loop;
