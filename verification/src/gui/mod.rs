//! What the window shows: the stream of probe results, the list of nodes and the
//! status lines.
pub mod dispatcher;
pub mod status;
pub mod view_state;
pub mod virtual_model;
