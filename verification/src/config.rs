//! The settings of the service, and what they are when nothing is set.

use vstd::prelude::*;
use vstd::string::*;

verus! {

/// The port the service listens on when none is set.
pub const DEFAULT_PORT: u16 = 3210;

/// The largest upload the service takes, in bytes: 500 MiB.
pub const MAX_UPLOAD_SIZE: usize = 524_288_000;

/// The settings of the service.
#[derive(Debug, PartialEq, Eq)]
pub struct Config {
    pub host: String,
    pub port: u16,
    pub data_dir: String,
    pub max_upload_size: usize,
}

impl Clone for Config {
    fn clone(&self) -> (copy: Self)
        ensures
            copy == *self,
    {
        Config {
            host: self.host.clone(),
            port: self.port,
            data_dir: self.data_dir.clone(),
            max_upload_size: self.max_upload_size,
        }
    }
}

/// A setting, or what stands in for it when it is not set.
pub open spec fn setting_or(setting: Option<String>, fallback: Seq<char>) -> Seq<char> {
    match setting {
        Some(s) => s@,
        None => fallback,
    }
}

impl Config {
    /// The settings of the service, from what is set in its surroundings:
    /// the host, `127.0.0.1` if not set; the port, 3210 if not set; the data
    /// directory, `./freebucket_data` if not set. Uploads are taken up to
    /// 500 MiB.
    pub fn resolve(host: Option<String>, port: Option<u16>, data_dir: Option<String>) -> (config:
        Self)
        ensures
            config.host@ == setting_or(host, "127.0.0.1"@),
            config.port == (match port {
                Some(p) => p,
                None => DEFAULT_PORT,
            }),
            config.data_dir@ == setting_or(data_dir, "./freebucket_data"@),
            config.max_upload_size == MAX_UPLOAD_SIZE,
    {
        let host = match host {
            Some(h) => h,
            None => "127.0.0.1".to_owned(),
        };
        let port = match port {
            Some(p) => p,
            None => DEFAULT_PORT,
        };
        let data_dir = match data_dir {
            Some(d) => d,
            None => "./freebucket_data".to_owned(),
        };
        Config { host, port, data_dir, max_upload_size: MAX_UPLOAD_SIZE }
    }
}

} // verus!
