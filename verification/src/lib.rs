//! The logic of a terminal chat client for a coding agent: the input box,
//! paste detection, slash commands, forms and dialogs, the transcript and
//! how it is grouped into history cells, tool summaries, and restoring a
//! saved session, with its contracts proved by Verus.

pub mod text;
pub mod width;
pub mod input;
pub mod input_laws;
pub mod command;
pub mod command_laws;
pub mod timing;
pub mod paste;
pub mod picker;
pub mod list_nav;
pub mod session_picker;
pub mod session_laws;
pub mod keys;
pub mod chat_keys;
pub mod chat_input;
pub mod line_edit;
pub mod model_picker;
pub mod setup;
pub mod form_laws;
pub mod permission;
pub mod clipboard;
pub mod tool;
pub mod tool_summary;
pub mod json_args;
pub mod call_summary;
pub mod todo;
pub mod transcript;
pub mod task_log;
pub mod session_restore;
pub mod history;
pub mod ask_user;
pub mod ask_user_laws;
pub mod mcp_view;
pub mod turn;
pub mod ask_user_view;
pub mod render_cache;
pub mod model_list_view;
pub mod add_model_view;
pub mod session_list_view;
