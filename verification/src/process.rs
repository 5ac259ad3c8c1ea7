//! Settings of the gateway's listener and of the worker process it starts.

use vstd::prelude::*;

verus! {

/// Where the client-facing listener binds.
#[derive(Debug, Clone, PartialEq, Eq)]
pub struct Config {
    pub addr: String,
    pub port: u16,
}

/// What is needed to start one worker process.
#[derive(Debug, Clone, PartialEq, Eq)]
pub struct WorkerConfig {
    pub process_settings: ProcessSettings,
    pub worker_settings: WorkerSettings,
}

/// The executable of a worker.
#[derive(Debug, Clone, PartialEq, Eq)]
pub struct ProcessSettings {
    pub command: &'static str,
}

/// What a worker is told at its start.
#[derive(Debug, Clone, PartialEq, Eq)]
pub struct WorkerSettings {
    pub id: &'static str,
    pub port: &'static str,
    pub adapter: &'static str,
}

impl WorkerConfig {
    /// The arguments that a worker process is started with: the option `--port` and the
    /// worker port.
    pub fn arguments(&self) -> (arguments: Vec<&'static str>)
        ensures
            arguments@.len() == 2,
            arguments@[0]@ == "--port"@,
            arguments@[1]@ == self.worker_settings.port@,
    {
        let mut arguments: Vec<&'static str> = Vec::new();
        arguments.push("--port");
        arguments.push(self.worker_settings.port);
        arguments
    }
}

} // verus!
