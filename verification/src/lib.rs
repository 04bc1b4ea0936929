pub mod agent;
pub mod attempt;
pub mod chat;
pub mod clock;
pub mod compaction;
pub mod completion;
pub mod config;
pub mod conversation;
pub mod dispatch;
pub mod double;
pub mod effects;
pub mod effort;
pub mod event;
pub mod format;
pub mod frontend;
pub mod fuzzy;
pub mod gui_commands;
pub mod history;
pub mod json;
pub mod model_switch;
pub mod notices;
pub mod outgoing;
pub mod paste;
pub mod prompt_commands;
pub mod ranking;
pub mod registry;
pub mod repair;
pub mod repeat;
pub mod reports;
pub mod request;
pub mod run;
pub mod store_lock;
pub mod subagent_live;
pub mod subagent_transcript;
pub mod test_support;
pub mod text;
pub mod tool_batch;
pub mod tool_display;
pub mod transcript;
pub mod transcript_log;
pub mod trust;
pub mod turn;
pub mod turn_loop;
pub mod usage;
pub mod validate;
