//! Geographic geometry: positions with an optional altitude, their compact
//! array codec, and the seven geometry shapes built from them.

pub mod error;
pub mod position;
pub mod coordinates;
pub mod shapes;
pub mod codec;
