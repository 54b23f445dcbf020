//! A log of chat messages for a terminal: how its messages are ordered and
//! addressed, and how one of them is rendered into lines of styled text.
//!
//! - [`timestamp`] and [`key`] order the messages: by the time that the
//!   server confirmed, pending messages last, and by event identifier where
//!   the times are equal.
//! - [`room`] keeps the messages in that order; [`cursor`] maps a key to a
//!   cursor on a grid and finds the message under such a cursor again.
//! - [`event`] and [`message`] hold what a message is and derive its text.
//! - [`render`] lays a message out in columns with [`format`], wraps its
//!   text with [`wrap`] and [`printer`], quotes the message it replies to,
//!   and shows its reactions with [`reaction`].
//! - [`clock`] asks the local calendar for days, dates and times;
//!   [`width`] measures text in terminal columns.

pub mod chars;
pub mod clock;
pub mod cursor;
pub mod event;
pub mod format;
pub mod html;
pub mod key;
pub mod lookup;
pub mod message;
pub mod printer;
pub mod reaction;
pub mod render;
pub mod room;
pub mod settings;
pub mod style;
pub mod timestamp;
pub mod width;
pub mod wrap;
