//! Chess move model, origin analysis and a compact URL-safe move codec.

pub mod a_move;
pub mod base;
pub mod board;
pub mod codec;
pub mod codec_laws;
pub mod direction;
pub mod errors;
pub mod fen;
pub mod figure;
pub mod game;
pub mod geometry;
pub mod knight;
pub mod notation;
pub mod position;
pub mod reachable;
pub mod record;
pub mod rules;
pub mod text;
