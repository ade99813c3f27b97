//! Names of the previous product's task, single-instance mutex and hidden
//! window, which migration looks for and retires.

use vstd::prelude::*;

verus! {

pub const LEGACY_TASK_NAME: &'static str = "WinTick";

pub const LEGACY_MUTEX: &'static str = "Global\\WinTickSingleInstanceMutex";

pub const LEGACY_WINDOW_CLASS: &'static str = "WinTickDaemonHiddenWindow";

pub const LEGACY_WINDOW_TITLE: &'static str = "WinTickDaemon";

} // verus!
