//! The services' settings.
use vstd::prelude::*;

verus! {

/// Settings of the service that takes transactions in.
#[derive(Debug, Clone)]
pub struct AppConfig {
    pub database_url: String,
    pub redis_url: String,
    pub listen_addr: String,
    pub log_level: String,
    pub db_max_connections: u32,
    pub rate_limit_per_minute: u64,
    pub otlp_endpoint: Option<String>,
    pub environment: String,
}

/// Settings of the workers that carry transactions out.
#[derive(Debug, Clone)]
pub struct WorkerConfig {
    pub database_url: String,
    pub kafka_brokers: String,
    pub kafka_group_id: String,
    pub kafka_topic_transactions: String,
    pub kafka_topic_dlq: String,
    pub db_max_connections: u32,
    pub worker_concurrency: usize,
    pub max_retries: u32,
    pub retry_backoff_ms: u64,
    pub log_level: String,
    pub worker_id_prefix: String,
}

/// Settings of the relay that publishes outbox events.
#[derive(Debug, Clone)]
pub struct RelayConfig {
    pub database_url: String,
    pub kafka_brokers: String,
    pub batch_size: i64,
    pub poll_interval_ms: u64,
    pub log_level: String,
}

/// Settings of the reporting service.
#[derive(Debug, Clone)]
pub struct ReportingConfig {
    pub database_url: String,
    pub listen_addr: String,
    pub db_max_connections: u32,
    pub log_level: String,
}

} // verus!
