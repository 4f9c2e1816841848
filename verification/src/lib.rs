//! A registry of timed work and break sessions.
//!
//! Every session belongs to a conversation and is identified by the message that
//! announces it. The registry pairs each session with one pending deadline, and
//! the periodic step moves a session through its phases as deadlines pass.
//! Time is a count of milliseconds on a clock that the caller supplies.

pub mod notice;
pub mod periodic;
pub mod roster;
pub mod session;
pub mod session_state;
pub mod state;
pub mod state_view;
pub mod time;

pub use notice::{Keyboard, Notice};
pub use periodic::{Expired, Step};
pub use roster::Edit;
pub use session::{ChatKind, Message, Session, User};
pub use session_state::SessionState;
pub use state::{CacheKey, Expiration, LeaveOutcome, State, StoreError};
pub use state_view::StateView;
