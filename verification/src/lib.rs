//! Verified core of a remote-desktop host and client.

pub mod bridges;
pub mod convert;
pub mod crypto;
pub mod dmabuf_export;
pub mod enigo_backend;
pub mod evdev_keys;
pub mod formats;
pub mod frame_dump;
pub mod held;
pub mod inject;
pub mod iosurface;
pub mod ipc;
pub mod key_set;
pub mod keymap;
pub mod memory;
pub mod modifier_query;
pub mod modifiers;
pub mod pairing;
pub mod pake;
pub mod paths;
pub mod plan;
pub mod protocol;
pub mod single;
pub mod sorted_map;
pub mod store;
pub mod surfaces;
pub mod text;
pub mod translator;
pub mod uinput;
