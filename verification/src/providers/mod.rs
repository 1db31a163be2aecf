//! The providers: what each asks of its site, and what it makes of the answer.

pub mod animetosho;
pub mod common;
pub mod jackett;
pub mod kitsunekko;
pub mod listing;
pub mod nyaa;
pub mod oauth;
pub mod opensubtitles;
pub mod prowlarr;
pub mod qobuz;
pub mod rating_weights;
pub mod roon;
pub mod rutracker;
pub mod rym;
pub mod soundcloud;
pub mod spotify;
pub mod subscene;
pub mod tidal;
pub mod torapi;
pub mod torrentio;
pub mod yify_subs;
