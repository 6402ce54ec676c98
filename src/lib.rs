//! Picks the hours of an hourly forecast that are good for a bike ride,
//! merges back-to-back good hours into reporting windows and renders them as
//! a notification message.
//!
//! - `wind`: reading the wind speed out of its free-text field.
//! - `period`: a forecast hour and the policy that says whether it is good.
//! - `window`: merging adjacent periods into windows, with its laws.
//! - `message`: rendering windows as text.
//! - `retry`: when a failed forecast download is tried again.
pub mod message;
pub mod period;
pub mod retry;
pub mod wind;
pub mod window;
