//! Interactive command building from usage specs: the spec model, flag and
//! argument state, command assembly, fuzzy filtering and panel state machines.

pub mod text;
pub mod spec_model;
pub mod values;
pub mod flag_store;
pub mod command_builder;
pub mod matching;
pub mod completion;
pub mod list_state;
pub mod events;
pub mod geometry;
pub mod choice_select;
pub mod select_list;
pub mod command_tree;
pub mod command_panel;
pub mod list_panel;
pub mod component;
pub mod flag_panel;
pub mod arg_panel;
pub mod theme_picker;
pub mod keyed;
pub mod execution;
pub mod highlight;
pub mod preview;
pub mod help_bar;
pub mod row_text;
pub mod app;
pub mod spec_text;
