//! The command line: the commands of the service, and what the parsed
//! arguments decide before any command runs.

use vstd::prelude::*;
use vstd::string::*;
use crate::address::{split_address, split_bucket_key};
use crate::config::{setting_or, Config};

verus! {

/// A command of the service.
#[derive(Debug, PartialEq, Eq)]
pub enum Commands {
    /// Start the web server and dashboard.
    Serve { host: String, port: u16 },
    /// Create a new bucket.
    MakeBucket { name: String, region: String },
    /// Remove a bucket, which must be empty.
    RemoveBucket { name: String },
    /// List buckets, or the objects of a bucket.
    List { bucket: Option<String>, prefix: Option<String> },
    /// Upload a file to a bucket.
    Put { source: String, destination: String },
    /// Download an object from a bucket.
    Get { source: String, output: Option<String> },
    /// Delete an object from a bucket.
    Remove { path: String },
    /// Show storage statistics.
    Stats,
    /// Show information about a bucket.
    Info { bucket: String },
}

/// The parsed command line.
#[derive(Debug, PartialEq, Eq)]
pub struct Cli {
    /// The command, if one was given.
    pub command: Option<Commands>,
    /// The data directory, if one was given.
    pub data_dir: Option<String>,
}

/// Where an upload goes: the destination split at its first slash into
/// bucket and key, or, for a destination that names only a bucket, the
/// name of the uploaded file as the key, `upload` where it has none.
pub open spec fn upload_target(destination: Seq<char>, file_name: Option<Seq<char>>) -> (
    Seq<char>,
    Seq<char>,
) {
    match split_address(destination) {
        Some(parts) => parts,
        None => (
            destination,
            match file_name {
                Some(name) => name,
                None => "upload"@,
            },
        ),
    }
}

impl Cli {
    /// Whether the command line asks for the server: it names no command, or
    /// the command `serve`.
    pub open spec fn asks_for_server(&self) -> bool {
        match self.command {
            None => true,
            Some(Commands::Serve { .. }) => true,
            Some(_) => false,
        }
    }

    /// Whether the command line asks for the server.
    pub fn serves(&self) -> (yes: bool)
        ensures
            yes == self.asks_for_server(),
    {
        match &self.command {
            None => true,
            Some(Commands::Serve { .. }) => true,
            Some(_) => false,
        }
    }

    /// The settings of the server: those of `base`, with the host and port of
    /// the command `serve` and the data directory of the command line where
    /// they are given.
    pub fn configure(&self, base: Config) -> (config: Config)
        ensures
            config.host@ == (match self.command {
                Some(Commands::Serve { host, .. }) => host@,
                _ => base.host@,
            }),
            config.port == (match self.command {
                Some(Commands::Serve { port, .. }) => port,
                _ => base.port,
            }),
            config.data_dir@ == (match self.data_dir {
                Some(dir) => dir@,
                None => base.data_dir@,
            }),
            config.max_upload_size == base.max_upload_size,
    {
        let mut config = base;
        match &self.command {
            Some(Commands::Serve { host, port }) => {
                config.host = host.clone();
                config.port = *port;
            },
            _ => {},
        }
        match &self.data_dir {
            Some(dir) => {
                config.data_dir = dir.clone();
            },
            None => {},
        }
        config
    }

    /// The data directory of a command: the one of the command line, else
    /// the one set in the surroundings, else `./freebucket_data`.
    pub fn data_dir_or(&self, set: Option<String>) -> (dir: String)
        ensures
            dir@ == (match self.data_dir {
                Some(d) => d@,
                None => setting_or(set, "./freebucket_data"@),
            }),
    {
        match &self.data_dir {
            Some(d) => d.clone(),
            None => match set {
                Some(s) => s,
                None => "./freebucket_data".to_owned(),
            },
        }
    }
}

/// Where an upload to `destination` goes, for a file named `file_name`.
pub fn resolve_upload(destination: &str, file_name: Option<&str>) -> (target: (String, String))
    ensures
        (target.0@, target.1@) == upload_target(
            destination@,
            match file_name {
                Some(name) => Some(name@),
                None => None,
            },
        ),
{
    match split_bucket_key(destination) {
        Some(parts) => parts,
        None => {
            let key = match file_name {
                Some(name) => name.to_owned(),
                None => "upload".to_owned(),
            };
            (destination.to_owned(), key)
        },
    }
}

} // verus!
