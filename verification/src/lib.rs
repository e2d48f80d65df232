//! Metrics of an NTP server: packet counters and distinct remote addresses
//! in the `prometheus` model; packet event counters, time stamps and
//! distinct clients per period in the `prometheus_client` model; process
//! statistics read from `/proc`; and the routing of the metrics endpoint.
pub mod client_cache;
pub mod clock;
pub mod collector;
pub mod events;
pub mod packet_metrics;
pub mod process;
pub mod prom_client;
pub mod routes;
pub mod text;
