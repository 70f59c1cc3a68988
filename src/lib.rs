//! Bring up a compose environment for a test, wait until every service is ready,
//! drive single services, and tear the environment down again.
//!
//! The library decides; its caller performs. Each runtime call is handed out as
//! a list of arguments for the runtime binary, and the readiness wait is a
//! state machine (`Waiter`) that the caller feeds with the output of each call.
pub mod compose;
pub mod manifest;
pub mod pattern;
pub mod text;
pub mod waiter;

pub use compose::{clean_up, DockerCompose, Image, Service, SetupError};
pub use manifest::{service_images, ManifestError, Yaml};
pub use pattern::{InvalidPattern, Pattern};
pub use waiter::{Action, ContainerStatus, Event, Phase, Request, Waiter};
