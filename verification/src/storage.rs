//! Locations of the persisted documents inside the application data
//! directory. Reading and writing the files is the host's job; this module
//! only fixes where each document lives.

use vstd::prelude::*;
use vstd::string::StringExecFns;

verus! {

/// The storage layout, rooted at the application data directory.
pub struct StorageState {
    pub app_data_dir: String,
}

impl StorageState {
    /// A layout rooted at `app_data_dir`.
    pub fn new(app_data_dir: String) -> (s: Self)
        ensures
            s.app_data_dir == app_data_dir,
    {
        StorageState { app_data_dir }
    }

    /// Where the configuration document lives.
    pub fn config_path(&self) -> (r: String)
        ensures
            r@ == self.app_data_dir@ + "/slack-config.json"@,
    {
        self.app_data_dir.clone().concat("/slack-config.json")
    }

    /// Where the user snapshot document lives.
    pub fn users_path(&self) -> (r: String)
        ensures
            r@ == self.app_data_dir@ + "/users.json"@,
    {
        self.app_data_dir.clone().concat("/users.json")
    }

    /// Where the emoji snapshot document lives.
    pub fn emojis_path(&self) -> (r: String)
        ensures
            r@ == self.app_data_dir@ + "/emojis.json"@,
    {
        self.app_data_dir.clone().concat("/emojis.json")
    }
}

} // verus!
