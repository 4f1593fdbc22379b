//! Core logic of a status-bar auto-hide daemon: cursor edge detection with
//! hysteresis, monitor localization, event reconciliation, and a resilient
//! toggle protocol for a peer whose visibility can only be flipped, not set.

pub mod detector;
pub mod driver;
pub mod geometry;
pub mod hypr;
pub mod notify;
pub mod peer_scan;
pub mod reconciler;
