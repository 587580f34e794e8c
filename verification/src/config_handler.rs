//! Where the supervisor keeps its files: the names of its directory, of the
//! file of stored configurations in it, and of the directory of logs.
//!
//! Reading the environment, making the directories, and turning the stored
//! records into text and back is the host's part.

use vstd::prelude::*;
use vstd::string::StringExecFns;

verus! {

pub struct ConfigHandler;

impl ConfigHandler {
    /// The environment variable that names the directory under which the
    /// supervisor's own directory lies.
    pub open spec fn base_variable_text(windows: bool) -> Seq<char> {
        if windows {
            "APPDATA"@
        } else {
            "HOME"@
        }
    }

    /// The name of the supervisor's own directory.
    pub open spec fn config_dir_text(windows: bool) -> Seq<char> {
        if windows {
            "ProcessManager"@
        } else {
            ".process-manager"@
        }
    }

    pub fn base_variable(windows: bool) -> (name: String)
        ensures
            name@ == ConfigHandler::base_variable_text(windows),
    {
        if windows {
            String::from_str("APPDATA")
        } else {
            String::from_str("HOME")
        }
    }

    pub fn config_dir_name(windows: bool) -> (name: String)
        ensures
            name@ == ConfigHandler::config_dir_text(windows),
    {
        if windows {
            String::from_str("ProcessManager")
        } else {
            String::from_str(".process-manager")
        }
    }

    /// The name of the directory of logs within the supervisor's directory.
    pub fn logs_dir_name() -> (name: String)
        ensures
            name@ == "logs"@,
    {
        String::from_str("logs")
    }

    /// The name of the file of stored configurations.
    pub fn config_file_name() -> (name: String)
        ensures
            name@ == "processes.json"@,
    {
        String::from_str("processes.json")
    }
}

} // verus!
