//! Live leaderboard of a multi-day hike-and-fly race.
//!
//! The crate joins the race roster with the latest status of every athlete,
//! ranks the athletes by their distance to the goal, marks what changed since
//! the leaderboard was last shown, and decides for each refresh whether there
//! is anything new to draw. Fetching the feeds, reading the clock and drawing
//! are left to the caller.
//!
//! - [`overview`], [`race_status`], [`track_response`]: what the feeds hold.
//! - [`measure`]: the numbers of the feeds, as integers that compare exactly.
//! - [`ranking`]: the stable order by distance.
//! - [`leaderboard`]: building the rows, with [`standings`] for what holds
//!   of every board.
//! - [`delta`]: the marks of change between two boards.
//! - [`refresh`]: one step of the refresh cycle.
//! - [`endpoints`]: where the feeds are found.
pub mod crawler;
pub mod delta;
pub mod endpoints;
pub mod leaderboard;
pub mod lookup;
pub mod measure;
pub mod overview;
pub mod race_status;
pub mod ranking;
pub mod refresh;
pub mod standings;
pub mod summary;
pub mod text;
pub mod track_response;

pub use measure::Measure;
pub use overview::Overview;
pub use race_status::{AthleteStatus, RaceStatus, RaceStatusReplay};
pub use summary::AthleteSummary;
pub use track_response::ApiTrackResponse;
