//! Memory: the JVM processes that the performance data directory of the
//! user lists, what they are and what they hold. The directory and the
//! process table are handed in as plain values.

pub mod jps;
pub mod resources;
pub mod wiping;

use crate::disk::locations::{join, joined};
use vstd::prelude::*;
use vstd::string::StringExecFns;

verus! {

/// One file of the performance data directory. `contents` is `None` where
/// the file could not be read.
#[derive(Debug)]
pub struct PerfDataEntry {
    pub file_name: String,
    pub contents: Option<Vec<u8>>,
}

/// What reading the performance data directory gave.
#[derive(Debug)]
pub enum PerfDataDir {
    /// There is no such directory: no JVM process is running.
    Missing,
    /// The directory is there and could not be read.
    Unreadable,
    /// The files of the directory, one per monitored process.
    Listed(Vec<PerfDataEntry>),
}

/// A monitored process with what the process table says of it.
/// `resident_memory` is `None` where the table no longer has the process.
#[derive(Debug)]
pub struct JvmProcess {
    pub pid: u32,
    pub launcher_class: String,
    pub resident_memory: Option<u64>,
}

/// The directory in which the JVMs of `username` publish their performance
/// data: `hsperfdata_` and the user's name, in the system's directory for
/// temporary files.
pub fn locate_hsperfdata_dir(system_tmp_dir: &str, username: &str) -> (path: String)
    ensures
        path@ == joined(system_tmp_dir@, "hsperfdata_"@ + username@),
{
    let mut jvm_perf_data_dir = String::from_str("hsperfdata_");
    jvm_perf_data_dir.append(username);
    join(system_tmp_dir, jvm_perf_data_dir.as_str())
}

} // verus!
