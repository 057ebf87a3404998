//! Byte-level views of frames and their sub-packets.

pub mod bytes;
pub mod getset;
pub mod parameter;
pub mod parameter_id_list;
pub mod parameter_list;
