//! One handler per platform, and the one that this build uses.

pub mod linux;
pub mod macos;
pub mod store;
pub mod unsupported;
pub mod windows;

use crate::platforms::linux::LinuxHandler;
use crate::traits::PlatformHandler;
use vstd::prelude::*;

verus! {

/// The handler of the platform that this crate is built for.
pub type CurrentPlatform = LinuxHandler;

/// The handler of the platform that this crate is built for.
pub fn current_platform() -> (p: CurrentPlatform)
    ensures
        p == LinuxHandler,
{
    LinuxHandler
}

/// The current platform's name, and whether it can mark paths.
pub fn get_platform_info() -> (info: (&'static str, bool))
    ensures
        info.0@ == LinuxHandler.name(),
        info.1 == LinuxHandler.supported(),
{
    let p = current_platform();
    (p.platform_name(), p.is_supported())
}

} // verus!
