//! Finding out what media files are: from their names, from files next to them, and from what
//! metadata providers know.

pub mod assets;
pub mod daemon;
pub mod episodes;
pub mod lookup;
pub mod matcher;
pub mod movie;
pub mod names;
pub mod nfo;
pub mod opening;
pub mod parse;
pub mod records;
pub mod scan;
pub mod scan_run;
pub mod similarity;
pub mod smart_scan;
pub mod tv_show;
pub mod walk;
