//! What the API asks of the services behind it, and what it makes of their
//! answers.

pub mod control_plane;
pub mod fish_audio;
pub mod ops;
