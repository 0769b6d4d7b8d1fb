pub mod astc;
pub mod bptc;
pub mod bcdec;
pub mod compression;
pub mod dds;
pub mod lzss;
pub mod read;
pub mod write;
