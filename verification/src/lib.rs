//! Recording live streams: the downloader that follows a playlist and cuts the recording into
//! parts, and the state that the window and the recording manager share.

pub mod downloader;
pub mod links;
pub mod model_laws;
pub mod models;
pub mod order_laws;
pub mod output_laws;
pub mod parts;
pub mod playlist;
pub mod playlist_laws;
pub mod recording;
pub mod recording_laws;
pub mod recording_step_laws;
pub mod round_laws;
pub mod segment;
pub mod segment_laws;
pub mod shared_state;
pub mod shared_state_laws;
pub mod step_laws;
pub mod text;
pub mod text_laws;

pub use downloader::HlsDownloader;
pub use models::{LogEntry, LogLevel, ModelCommand, ModelStatus, ModelStreamStatus};
pub use shared_state::SharedGuiState;
