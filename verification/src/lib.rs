//! The logic of a companion for the League client: it reports the games of
//! ARAM: Mayhem that the player has played, with a snapshot of the player's
//! build, to a backend.
//!
//! [`capture`] watches a game, [`outbox`] queues what it leaves behind, and
//! [`sync`] decides how the queue is drained; [`background`] decides when.
//! [`lcu`], [`liveclient`] and [`adg`] build the questions to the client and to
//! the backend and read the answers; [`payload`] makes the report of a game. The
//! modules whose names end in `laws` state what holds of all of this together.
pub mod adg;
pub mod background;
pub mod capture;
pub mod capture_laws;
pub mod drain_laws;
pub mod first;
pub mod game;
pub mod http;
pub mod json;
pub mod json_laws;
pub mod lcu;
pub mod lcu_laws;
pub mod liveclient;
pub mod outbox;
pub mod outbox_laws;
pub mod payload;
pub mod payload_laws;
pub mod queue_laws;
pub mod reply_laws;
pub mod run_laws;
pub mod state;
pub mod state_laws;
pub mod store;
pub mod sync;
pub mod sync_laws;
pub mod text;
pub mod text_laws;
