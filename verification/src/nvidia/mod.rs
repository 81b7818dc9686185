//! The backend that serves OPEN, CLOSE and IOCTL requests of a guest driver.
//!
//! The backend itself does not touch the host.  [`NvidiaBackend::dispatch`] either writes the
//! response at once or says which call the host has to make; the outcome of that call goes to
//! one of the `complete_` functions, which write the response.

pub mod backend;
pub mod call;
pub mod decide;
pub mod laws;
pub mod meaning;
pub mod reply;

pub use self::backend::{Completion, NvidiaBackend};
pub use self::call::{IoctlCall, IoctlPlan, MapCall, OpenCall};
pub use self::decide::{device_path, Dispatch};
pub use self::reply::Placement;
