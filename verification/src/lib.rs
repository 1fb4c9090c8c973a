//! A project lifecycle engine: crowdfunding escrow that, once funded, pays a
//! fixed reward per submitted data annotation until the escrow is used up.
//!
//! A project is `Funding` until its contributions reach the target, or until
//! its deadline passes, after which the contributors withdraw what they
//! deposited. A funded project is `Annotating`: every annotation submitted
//! for one of its data items is rewarded with one unit from custody, and the
//! project has reached `Success` when custody is used up.
//!
//! The engine decides and keeps the books; it moves no tokens and knows no
//! clock. Every operation is told the time and whether its caller was
//! authorized, and answers with what has to be moved into or out of custody.
//!
//! - [`state`]: the four states and the rule that derives the effective state.
//! - [`ledger`], [`tasks`]: the contribution ledger and the annotation task set.
//! - [`model`]: the project as a mathematical value and the operations on it.
//! - [`lifecycle`]: what holds of every run of calls.
//! - [`project`]: the executable project.
//! - [`registry`], [`crowdfund`]: many projects by id, and a single project.
//! - [`codec`]: the stored form of a state.

pub mod codec;
pub mod crowdfund;
pub mod error;
pub mod ledger;
pub mod lifecycle;
pub mod model;
pub mod project;
pub mod registry;
pub mod state;
pub mod tasks;

pub use error::{Error, ErrorKind};
pub use ledger::{Entry, Ledger};
pub use project::{Deposit, Payout, Project};
pub use registry::DataAnnotate;
pub use state::State;
pub use tasks::{Annotation, DataPoint, TaskSet};
