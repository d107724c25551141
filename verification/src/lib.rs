//! Clipboard and file sharing between devices on one local network:
//! the verified core (text and path rules, encoding, framing of encrypted
//! chunks, clipboard history records and the state of the user interface).

pub mod text;
pub mod path;
pub mod clipboard;
pub mod codec;
pub mod security;
pub mod gui;
pub mod storage;
pub mod network;
