//! Configuration handed to the client at startup: the parsed command-line
//! arguments and their split into connection and logging settings.

use vstd::prelude::*;

verus! {

/// The command-line arguments, as plain values.
pub struct Args {
    pub server_address: String,
    pub username: String,
    pub log_file: Option<String>,
}

/// Where log lines go, if anywhere.
pub struct DspLogConfig {
    pub log_file: Option<String>,
}

/// What the connection needs: the server to dial and the name to join as.
pub struct DspClientConfig {
    pub server_address: String,
    pub username: String,
}

pub struct Config {
    pub client: DspClientConfig,
    pub log: DspLogConfig,
}

impl Config {
    /// Splits the arguments into the client and log halves, moving each field
    /// to its place unchanged.
    pub fn from_args(args: Args) -> (c: Config)
        ensures
            c.client.server_address == args.server_address,
            c.client.username == args.username,
            c.log.log_file == args.log_file,
    {
        let server_address = args.server_address;
        let username = args.username;
        let client = DspClientConfig { server_address, username };
        let log_file = args.log_file;
        let log = DspLogConfig { log_file };
        Config { client, log }
    }
}

} // verus!
