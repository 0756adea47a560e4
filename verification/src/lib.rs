//! Email security assessment: SPF, DKIM and DMARC evaluation, spoofing analysis and reporting.

pub mod analyzer;
pub mod clock;
pub mod dns;
pub mod email_parser;
pub mod models;
pub mod page;
pub mod parser;
pub mod records;
pub mod remedies;
pub mod report;
pub mod scan;
pub mod smtp;
pub mod spoof;
pub mod tags;
pub mod text;
