//! Non-visual core of a desktop application launcher: discovery of
//! applications from desktop entries, the order in which icons are looked
//! for, persisted selection counters and count-based ranking.

pub mod entries;
pub mod icon;
pub mod rank;
pub mod usage;
