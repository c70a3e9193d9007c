pub mod meta;
pub mod unpack;
pub mod webify;
