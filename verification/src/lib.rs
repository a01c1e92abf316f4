//! Editor and workbench logic of the llnzy user interface.
use vstd::prelude::*;

pub mod command_palette;
pub mod comments;
pub mod editor;
pub mod editor_command;
pub mod editor_file_events;
pub mod editor_folding;
pub mod editor_paint;
pub mod editor_viewport;
pub mod editor_status;
pub mod editor_wrap;
pub mod git;
pub mod git_state;
pub mod lsp_results;
pub mod markdown_inline;
pub mod markdown_parse;
pub mod markdown_preview;
pub mod paths;
pub mod settings_appearance;
pub mod settings_background;
pub mod settings_hotkeys;
pub mod text;
pub mod workbench;

verus! {

} // verus!
