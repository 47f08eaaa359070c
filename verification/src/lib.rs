//! Diagnostics for Apache Kafka clusters: the parsers, detectors, rules and
//! report arithmetic that turn collected cluster data into findings.
pub mod text;
pub mod strmap;
pub mod numbers;
pub mod json;
pub mod snapshot;
pub mod cluster_detection;
pub mod scan;
pub mod discovery;
pub mod broker_search;
pub mod log_discovery;
pub mod log_sources;
pub mod process_info;
pub mod log_chain;
pub mod report;
pub mod collectors;
pub mod rules;
pub mod config_validator;
pub mod llm;
pub mod llm_findings;
pub mod analysis;
pub mod collector;
pub mod bastion_collection;
pub mod broker_collection;
pub mod config_search;
pub mod cli;
pub mod report_assets;
pub mod html_page;
pub mod loading;
pub mod laws;
