//! An input abstraction layer for real-time applications.
//!
//! Logical actions are bound to alternative chords of physical receivers: keys, buttons
//! and axes of keyboard, mouse and gamepad. A per-entity view holds the bindings and the
//! live state of every receiver that has reported, and resolves an action to the states
//! of the first of its chords whose receivers are all active. Device stages write raw
//! events into a view, and a tick stage stamps fresh presses so that hold durations can
//! be told.
//!
//! Every operation has a contract over a plain model of the data: `binding::BindingModel`
//! for bindings and `view::InputViewModel` for views. The modules `laws`, `frame` and
//! `wellformed` prove what follows from the contracts for every view.
//!
//! Magnitudes are carried as bit patterns (`value`), instants as nanosecond counts
//! (`state::Timestamp`), and the keys, buttons and axes of the devices as values of the
//! library's own.

use vstd::prelude::*;

pub mod binding;
pub mod bundle;
pub mod clock;
pub mod frame;
pub mod gamepad;
pub mod id;
pub mod keyboard;
pub mod labels;
pub mod laws;
pub mod lookup;
pub mod mouse;
pub mod plugin;
pub mod prelude;
pub mod receiver;
pub mod state;
pub mod value;
pub mod view;
pub mod wellformed;
