pub mod cgroup;
pub mod exportable;
pub mod metrics;
pub mod prom;
pub mod service;
pub mod stats;
pub mod text;
pub mod unit;
