//! Verified core of the Oxide browser host: URL handling, navigation
//! history, parsers for subtitles, audio containers, MIDI streams and SSE
//! events, and the record encodings of the persistent stores.

pub mod clock;
pub mod navigation;
pub mod text;
pub mod audio_format;
pub mod subtitle;
pub mod url;
pub mod forge;
pub mod bookmarks;
pub mod history;
pub mod midi;
pub mod fetch;
pub mod handles;
pub mod file_picker;
pub mod events;
pub mod video;
pub mod download;
pub mod url_bar;
pub mod loader;
pub mod shell;
pub mod timers;
pub mod sandbox;
pub mod guest_api;
pub mod gpu_resources;
pub mod playback;
pub mod codecs;
pub mod rtc_queues;
pub mod widgets;
pub mod storage;
pub mod json;
pub mod forge_registry;
