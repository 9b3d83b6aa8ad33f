//! Inspection and risk-scoring logic for servers monitored by Zabbix.
pub mod text;
pub mod errors;
pub mod types;
pub mod problems;
pub mod scoring;
pub mod rules;
pub mod discovery;
pub mod timerange;
pub mod env;
pub mod lang;
pub mod bilingual;
pub mod patrol_config;
pub mod report;
pub mod items;
pub mod render;
pub mod args;
pub mod ordering;
pub mod stability;
pub mod menu;
pub mod series;
