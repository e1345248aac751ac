//! Platform-specific metadata formatting: the permission string and the
//! owner text, one submodule per operating-system family. The rest of the
//! engine never branches on the platform; callers pick the submodule that
//! matches the build target.

pub mod unix;
pub mod windows;
