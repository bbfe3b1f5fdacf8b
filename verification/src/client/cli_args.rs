use log::LevelFilter;
use vstd::prelude::*;

verus! {

/// Command line of the load-test client.
#[derive(Debug, PartialEq)]
pub struct CLIArgs {
    /// Log level.
    pub log_level: LevelFilter,
    /// Server IP to connect to.
    pub server_ip: String,
    /// Server port to connect to.
    pub server_port: u16,
    /// Number of parallel clients to spawn.
    pub num_clients: usize,
    /// Message payload to echo.
    pub message: String,
    /// Number of echoes each client waits for before it stops.
    pub max_count: u64,
}

impl Clone for CLIArgs {
    fn clone(&self) -> (copy: Self)
        ensures
            copy == *self,
    {
        CLIArgs {
            log_level: self.log_level,
            server_ip: self.server_ip.clone(),
            server_port: self.server_port,
            num_clients: self.num_clients,
            message: self.message.clone(),
            max_count: self.max_count,
        }
    }
}

} // verus!
