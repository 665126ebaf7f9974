//! A projected file system that presents the Windows registry as a read-only
//! directory tree.
//!
//! The verified core of the provider lives here: directory entries and their
//! order, the paginated enumeration cursor, registry path resolution, the
//! backend's bookkeeping of listing sessions and its answers to requests and
//! notifications, and the lifecycle of a virtualization session.
pub mod entry;
pub mod dir_enum;
pub mod reg_ops;
pub mod projfs;
pub mod regfs;
pub mod simple_fs;
