//! Verified core of a local-network track-library browser: the shared view
//! state, the query and rendering pipeline, the request handlers, the event
//! broadcaster and the decisions of a live connection.

pub mod assets;
pub mod broadcast;
pub mod handlers;
pub mod live;
pub mod query;
pub mod text;
pub mod track;
pub mod view_state;
