//! The decisions of a PDF viewer for a device with little memory.
pub mod document;
pub mod images;
pub mod inspection;
pub mod laws;
pub mod listing;
pub mod paths;
pub mod reading;
pub mod session;
pub mod size;
pub mod storage;
pub mod text;
