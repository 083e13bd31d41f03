use vstd::prelude::*;

pub mod text;
pub mod types;
pub mod order;
pub mod sorting;
pub mod dates;
pub mod filters;
pub mod editor;
pub mod mode;
pub mod detail;
pub mod pr;
pub mod picker;
pub mod harness;
pub mod form;
pub mod help;
pub mod ranks;
pub mod search;
pub mod events;
pub mod app;
pub mod keys;
pub mod threads;
pub mod normal;
pub mod filter_keys;
pub mod input_keys;
pub mod popup_keys;
pub mod pick_keys;
pub mod editor_keys;
pub mod form_keys;
pub mod move_keys;
pub mod dispatch;
pub mod key_laws;
pub mod clipboard;
pub mod session_keys;
pub mod priority_keys;
pub mod readiness;

verus! {

} // verus!
