//! What holds of the library as a whole.

pub mod calls;
pub mod encryption;
pub mod hexadecimal;
pub mod live;
pub mod live_chunk;
pub mod live_playlist;
pub mod media_range;
pub mod non_live;
pub mod range;
pub mod remote_data;
pub mod resource_url;
pub mod status;
pub mod text;
pub mod views;
