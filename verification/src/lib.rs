//! Verified core of a pair of desktop tray utilities that control two
//! background services (the Docker daemon and the Tailscale mesh daemon)
//! through their command-line tools.
//!
//! The crate contains the logic with real correctness content:
//! line-oriented parsing of the CLI status output, the decision rules of the
//! service controllers, the FIFO event bridge that carries user-interaction
//! events into the single consumer loop, and the pure projection of service
//! state into a displayable menu model.  Process spawning and the tray
//! rendering layer are external collaborators and live outside this crate.

pub mod bridge;
pub mod command;
pub mod docker;
pub mod menu;
pub mod tailscale;
pub mod text;
