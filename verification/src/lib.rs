pub mod calendar;
pub mod commands;
pub mod config;
pub mod database;
pub mod greeting_birthday_handler;
pub mod minecraft_server_handler;
pub mod storage;
pub mod text;
pub mod voice_clip_recorder;

use vstd::prelude::*;

verus! {

/// Command-line arguments.
#[derive(Debug, Clone)]
pub struct Args {
    /// Path to the config file
    pub config_path: String,
}

/// The message for a missing environment variable.
pub fn environment_variable_not_set_error(name: &str) -> (r: String)
    ensures
        r@ == name@ + " environment variable not set"@,
{
    String::from_str(name).concat(" environment variable not set")
}

} // verus!
