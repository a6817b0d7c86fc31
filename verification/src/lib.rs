//! Game-state, wire-protocol and lobby logic of a peer-to-peer drawing and
//! guessing game, with its contracts.

pub mod text;
pub mod wire;
pub mod lobby;
pub mod socket_agent;
pub mod structures;
pub mod gameroom;
pub mod room;
pub mod home;
pub mod notification;
pub mod app;
pub mod draw_widget;
pub mod chat_history;
pub mod peer;
pub mod avatar;
pub mod room_mediator;
pub mod peer_handler;
