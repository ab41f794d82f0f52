//! The core of a desktop control panel for a game-streaming host.
//!
//! Its centre is a local reverse proxy between the panel's user interface
//! and the host: `router` decides which lane a request takes, `forward`
//! drives the main lane with its circuit breaker (`breaker`) and its
//! response transformer (`inject`, with `marks` on what a rewritten page
//! holds), `relay` serves the bypass lane
//! (`bypass`) and the third-party lane (`third_party`), `target` holds the
//! host's address and `binder` finds the proxy's own port. Around it stand
//! the panel's other decisions: updates, the virtual display driver, the
//! host's configuration, logs, and the desktop shell.
//!
//! Nothing here touches the network, the disk or the clock. What calls into
//! other crates is gathered in `outside`.

pub mod binder;
pub mod breaker;
pub mod bypass;
pub mod commands;
pub mod config;
pub mod errors;
pub mod forward;
pub mod headers;
pub mod inject;
pub mod logs;
pub mod marks;
pub mod messages;
pub mod outside;
pub mod relay;
pub mod router;
pub mod scan;
pub mod shell;
pub mod sunshine;
pub mod system;
pub mod target;
pub mod text;
pub mod third_party;
pub mod tray;
pub mod update;
pub mod vdd;
