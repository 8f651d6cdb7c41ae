pub mod encodings;
pub mod ofile;
pub mod opf;
pub mod regex_ops;
pub mod rmc;
pub mod text_util;
pub mod transfer;
