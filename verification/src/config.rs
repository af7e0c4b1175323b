//! Run-time settings of the monitor.
use vstd::prelude::*;

verus! {

broadcast use vstd::string::group_string_axioms;

/// Run-time settings: where the inference server listens, how often to
/// poll, and where to write the log.
pub struct Config {
    /// LLM inference backend endpoint URL (llama.cpp, vLLM, Ollama).
    pub endpoint_url: String,
    /// Metrics update polling interval in milliseconds.
    pub interval_ms: u64,
    /// Log file path (kept off the terminal the interface draws on).
    pub log_path: String,
}

impl Default for Config {
    /// The settings used when none are given: a local llama.cpp server on
    /// port 8080, a one-second interval and `/tmp/tfl.log`.
    fn default() -> (c: Self)
        ensures
            c.endpoint_url@ == "http://127.0.0.1:8080"@,
            c.interval_ms == 1000,
            c.log_path@ == "/tmp/tfl.log"@,
    {
        Config {
            endpoint_url: String::from_str("http://127.0.0.1:8080"),
            interval_ms: 1000,
            log_path: String::from_str("/tmp/tfl.log"),
        }
    }
}

} // verus!
