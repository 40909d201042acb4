//! Verified building blocks for overlapped I/O over completion ports: raw
//! socket-address structures, the buffers the OS fills with them, the meaning
//! of an overlapped call's result, the extension entry-point cache, and the
//! outcome of a wait on a port.
pub mod addr;
pub mod buffers;
pub mod bytes;
pub mod extension;
pub mod port;
pub mod status;
