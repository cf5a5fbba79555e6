//! Frame caching and proxy generation for a video editor.
//!
//! The library holds what an editor decides: which cached frame answers a
//! lookup and which frames leave the cache, which proxy a request stands
//! for, in what order proxies are made, how far a running transcode has
//! come and what its outcome means, and what becomes of the timeline when
//! clips are dragged, dropped or deleted. It starts no process and touches
//! no file: the application around it hands in lines of text, file sizes and
//! what is on disk, and carries out what the library answers. The one thing
//! that the library reads from the machine is a monotonic clock, and every
//! function that reads it has a form beside it that is handed the reading
//! instead.
//!
//! All numbers are integers. Times are in milliseconds; frame rates, speeds,
//! zoom factors and shares of work are in thousandths.

pub mod clock;
pub mod editor;
pub mod extract;
pub mod fingerprint;
pub mod frame;
pub mod frame_cache;
pub mod media;
pub mod numeral;
pub mod picture;
pub mod playback;
pub mod progress;
pub mod proxy_generator;
pub mod proxy_queue;
pub mod proxy_registry;
pub mod proxy_settings;
pub mod scan;
pub mod settings;
pub mod timeline;
pub mod transcode;
pub mod video_decoder;
