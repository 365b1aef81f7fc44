use vstd::prelude::*;

pub mod assets;
pub mod buffer;
pub mod chars;
pub mod clipboard;
pub mod commands;
pub mod completion;
pub mod dialog;
pub mod display;
pub mod edits;
pub mod events;
pub mod extensions;
pub mod filetree;
pub mod find_bar;
pub mod focus;
pub mod format;
pub mod git;
pub mod git_actions;
pub mod git_hit;
pub mod git_panel;
pub mod highlight;
pub mod hlworker;
pub mod json;
pub mod keybindings;
pub mod keys;
pub mod layout;
pub mod listing;
pub mod linter;
pub mod lsp;
pub mod lsp_session;
pub mod model;
pub mod names;
pub mod num;
pub mod paths;
pub mod quickbar;
pub mod routing;
pub mod screen;
pub mod search;
pub mod shell;
pub mod split;
pub mod tab_bar;
pub mod tab_set;
pub mod terminal;
pub mod text;
pub mod text_input;
pub mod tree_actions;
pub mod ui;
pub mod uri;

verus! {
} // verus!
