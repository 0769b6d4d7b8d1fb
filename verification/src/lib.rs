pub mod format;
pub mod util;
