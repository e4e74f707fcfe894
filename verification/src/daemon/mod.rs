//! The broker as a platform service: the launchd plist and the systemd
//! user unit, the status report, and the restart protocol.

pub mod install;
pub mod linux;
pub mod status;
pub mod restart;
