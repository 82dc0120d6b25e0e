pub mod format_decode;
pub mod chunk;
pub mod calc;
pub mod component;
pub mod file;
pub mod script;
pub mod sector;
pub mod segments;
pub mod dispatch;
pub mod decompiler;
