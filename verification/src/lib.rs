//! Verified core of the Micro App platform.
pub mod os;
pub mod esp;
pub mod text;
pub mod describe;
pub mod system;
pub mod ir;
pub mod codec;
pub mod activation;
pub mod board;
pub mod store;
pub mod font_manifest;
pub mod web_style;
pub mod render;
pub mod subset;
