//! A module-driven reconnaissance pipeline for a single target domain.
//!
//! The pipeline discovers candidate subdomains through pluggable
//! enumerator modules, deduplicates and filters them, confirms that they
//! resolve, probes the most common TCP ports, and runs pluggable HTTP
//! checks against every open port.  This crate holds the verified logic
//! of every stage; the network calls themselves (DNS lookups, TCP
//! connects, HTTP requests) are performed by the surrounding binary and
//! their outcomes are handed to the functions here as plain values.

pub mod common_ports;
pub mod crtsh;
pub mod directory_listing_disclosure;
pub mod error;
pub mod modules;
pub mod pipeline;
pub mod ports;
pub mod sequtil;
pub mod strutil;
pub mod web_archive;

pub use error::Error;
