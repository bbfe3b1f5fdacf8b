use log::LevelFilter;
use vstd::prelude::*;

verus! {

/// Command line of the echo server.
#[derive(Debug, PartialEq)]
pub struct CLIArgs {
    /// Log level.
    pub log_level: LevelFilter,
    /// IP address to listen on.
    pub ip: String,
    /// Port to listen on (0 lets the system pick one).
    pub port: u16,
    /// Number of worker tasks.
    pub num_workers: usize,
    /// Capacity of each worker's connection queue and of the load-report queue.
    pub channel_capacity: usize,
}

impl Clone for CLIArgs {
    fn clone(&self) -> (copy: Self)
        ensures
            copy == *self,
    {
        CLIArgs {
            log_level: self.log_level,
            ip: self.ip.clone(),
            port: self.port,
            num_workers: self.num_workers,
            channel_capacity: self.channel_capacity,
        }
    }
}

} // verus!
