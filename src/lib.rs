//! Incremental mirroring of a song-chart catalog: the decisions of the
//! catalog walk, archive entry name recovery, and path safety for extraction.

pub mod path;
pub mod name;
pub mod archive;
pub mod walk;
pub mod downloader;
