//! Verified core of a QQ bot that answers osu! queries: command filters,
//! score selection, the match-listener cursor machine, configuration rules
//! and the small parsers that sit between the chat protocol and the logic.

pub mod text;
mod clock;
pub mod match_listener;
pub mod sort;
pub mod config;
pub mod last_beatmap_cache;
pub mod score_filter;
pub mod score_query;
pub mod onebot;
pub mod rate_limit;
pub mod upstream;
pub mod scheduler;
pub mod reload;
pub mod preview;
pub mod reply;
pub mod flows;
pub mod dispatch;
