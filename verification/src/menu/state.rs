use vstd::prelude::*;
use vstd::string::StringExecFns;

verus! {

/// The address that the service listens on.
pub const SERVER_ADDRESS: &'static str = "0.0.0.0:3000";

/// The name of the database file in the home directory.
pub const DB_NAME: &'static str = "dhe_menu.db";

/// What the service is started with.
#[derive(Debug)]
pub struct StateConfig {
    pub db_conn_str: String,
}

/// The text by which the database in the given directory is reached.
pub open spec fn connection_text(directory: Seq<char>) -> Seq<char> {
    "sqlite:"@ + directory + "/"@ + DB_NAME@
}

impl StateConfig {
    /// The configuration for the database in the home directory; without
    /// a home directory, for the one in the root directory.
    pub fn for_home(home: Option<&str>) -> (config: StateConfig)
        ensures
            config.db_conn_str@ == connection_text(
                match home {
                    Some(directory) => directory@,
                    None => Seq::empty(),
                },
            ),
    {
        let mut text = String::from_str("sqlite:");
        match home {
            Some(directory) => {
                text.append(directory);
            },
            None => {
                assert(text@ + Seq::<char>::empty() =~= text@);
            },
        }
        text.append("/");
        text.append(DB_NAME);
        StateConfig { db_conn_str: text }
    }
}

} // verus!
