//! The client as a state machine: what keys, mouse events and messages do to it, and what it asks
//! to be done.

pub mod actions;
pub mod close_laws;
pub mod commands_run;
pub mod dialogs;
pub mod drawing;
pub mod drawing_laws;
pub mod help_laws;
pub mod errands;
pub mod input;
pub mod keyboard;
pub mod launch;
pub mod laws;
pub mod lines;
pub mod mode;
pub mod mode_laws;
pub mod mouse;
pub mod mouse_laws;
pub mod name_laws;
pub mod painting;
pub mod place_laws;
pub mod places;
pub mod pointing;
pub mod prompts;
pub mod remote_laws;
pub mod remotes;
pub mod replies;
pub mod reply_laws;
pub mod shortcut_laws;
pub mod state;
pub mod tick_laws;
pub mod ticks;
pub mod tree;

use vstd::prelude::*;

verus! {

} // verus!
