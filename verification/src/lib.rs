//! RAIL core: the decision logic of an RTL-SDR receiver back end, with
//! contracts proved by Verus. Hardware access, file I/O, floating-point
//! signal processing and the desktop shell live outside this crate.

pub mod bookmarks;
pub mod calendar;
pub mod capture;
pub mod classifier;
pub mod clock;
pub mod error;
pub mod events;
pub mod frames;
pub mod hardware;
pub mod perf;
pub mod replay;
pub mod scanner;
pub mod session;
pub mod text;
