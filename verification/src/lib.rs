//! Anchored surfaces of a terminal agent client: their text inputs, lists,
//! scroll views, forms, key handling, layout and hit testing.

pub mod agent_drafts;
pub mod agent_log;
pub mod agent_log_layout;
pub mod agent_log_rows;
pub mod agents;
pub mod app;
pub mod choices;
pub mod code_lines;
pub mod completion;
pub mod composer;
pub mod control;
pub mod copies;
pub mod dialog_laws;
pub mod dialogs;
pub mod expanded;
pub mod expanded_content;
pub mod expanded_laws;
pub mod file_laws;
pub mod file_rows;
pub mod file_views;
pub mod follow;
pub mod follow_laws;
pub mod follow_mcp;
pub mod input_laws;
pub mod input_syntax;
pub mod interaction;
pub mod json;
pub mod key;
pub mod layout;
pub mod lines;
pub mod list;
pub mod masked;
pub mod mcp;
pub mod mcp_control;
pub mod mcp_laws;
pub mod mcp_package;
pub mod menu;
pub mod menu_laws;
pub mod moving_laws;
pub mod multiline_input;
pub mod number;
pub mod paging;
pub mod paste_laws;
pub mod permission;
pub mod permission_laws;
pub mod picker_laws;
pub mod pickers;
pub mod providers;
pub mod render;
pub mod search;
pub mod render_mcp;
pub mod render_menus;
pub mod render_pickers;
pub mod render_settings;
pub mod render_setup;
pub mod report_laws;
pub mod reports;
pub mod reports_mcp;
pub mod reports_pickers;
pub mod reports_setup;
pub mod routing;
pub mod row_laws;
pub mod scroll;
pub mod setting_laws;
pub mod settings;
pub mod shown;
pub mod single_line_input;
pub mod status_line;
pub mod style;
pub mod supervised_work;
pub mod surface;
pub mod surface_hits;
pub mod surface_key;
pub mod surface_laws;
pub mod surface_layout;
pub mod surface_paste;
pub mod surface_status;
pub mod surface_text_laws;
pub mod text;
pub mod unicode;
pub mod work_laws;
