//! Verified core of the Wiremann music player's user interface: the pure
//! decisions, formatters and bookkeeping that the rendering layer relies on.

pub mod ids;
pub mod fingerprint;
pub mod order;
pub mod rows;
pub mod timefmt;
pub mod pages;
pub mod routes;
pub mod toasts;
pub mod lyrics;
pub mod image_cache;
pub mod icons;
pub mod worker_config;
pub mod layout;
pub mod scanning;
pub mod models;
pub mod follow;
pub mod popout;
pub mod keys;
pub mod dashboard;
pub mod sidebar;
pub mod tracklist;
pub mod covers;
pub mod playlist_page;
pub mod assets;
