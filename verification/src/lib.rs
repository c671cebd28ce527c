//! Job listings, cluster capacity and job logs of a PBS cluster.

pub mod answer_laws;
pub mod calendar;
pub mod capacity;
pub mod card;
pub mod cluster;
pub mod cluster_laws;
pub mod colour_laws;
pub mod date_laws;
pub mod digits;
pub mod find;
pub mod fmt;
pub mod follow;
pub mod footer;
pub mod groups;
pub mod job_laws;
pub mod json;
pub mod laws;
pub mod layout_laws;
pub mod listing_laws;
pub mod log_laws;
pub mod logopts;
pub mod logs;
pub mod logtext;
pub mod option_laws;
pub mod notation_laws;
pub mod opts;
pub mod order;
pub mod order_laws;
pub mod page_laws;
pub mod pager;
pub mod paint;
pub mod pbs;
pub mod plain;
pub mod reals;
pub mod render;
pub mod screen_laws;
pub mod search;
pub mod select;
pub mod shown_laws;
pub mod table;
pub mod text;
pub mod text_laws;
pub mod view;
pub mod wrap;
