//! Verified core of a desktop audio/video conversion front end for FFmpeg:
//! the text formatting of probe results, the planning of the FFmpeg
//! command line, and the decisions taken while a conversion runs or while
//! the network clock is consulted.

pub mod clock;
pub mod conversion;
pub mod media;
pub mod text;
pub mod timetext;
