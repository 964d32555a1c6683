//! Runtime self-protection checks for Android applications: the decision
//! logic behind root, emulator, debugger, hook, proxy and repackaging
//! detection, over plain values gathered by the host application.

pub mod text;
pub mod hexcodec;
pub mod cipher;
pub mod integrity;
pub mod scan;
pub mod root;
pub mod emulator;
pub mod debug;
pub mod pattern;
pub mod hook;
pub mod network;
pub mod general;
pub mod ml;
pub mod props;
pub mod security;
