pub mod common;
pub mod ps;
pub mod py;
pub mod xlsm;
