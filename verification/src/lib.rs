//! Supervision of one local backend process: the decisions of its
//! lifecycle, the text handling around it, and the status it reports.

pub mod logtail;
pub mod ports;
pub mod runtime;
pub mod status;
pub mod supervisor;
pub mod text;
