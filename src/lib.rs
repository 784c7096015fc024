//! A concurrent TCP connect scanner's engine.
//!
//! A [`request::ScanRequest`] names a host and a half-open port range; its
//! `ports` are probed one task each, a probe hands the port of each accepted
//! connection to a [`collector::Collector`], and once every probe is done the
//! collector's `finish` gives the report: the open ports, ascending. The
//! laws that tie these together are proved in [`laws`].

pub mod collector;
pub mod laws;
pub mod probe;
pub mod report;
pub mod request;
