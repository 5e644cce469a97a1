//! The settings of the capture server, their defaults, where they are kept,
//! and the decisions taken when they are created or loaded.
use vstd::prelude::*;

verus! {

/// Settings of the capture server.
pub struct Settings {
    /// Where the settings file is.
    pub path: String,
    /// The directory that holds the databases.
    pub db_dir: String,
    /// The name of the main database.
    pub db_name: String,
    pub print_to_console: bool,
}

/// Why settings could not be created or loaded. The messages of I/O and
/// JSON failures are kept as text.
#[derive(Debug)]
pub enum StateError {
    SettingsNotLoaded,
    AlreadyExists,
    Io(String),
    JSON(String),
}

/// The directory of the settings file when none is configured.
pub fn default_settings_dir() -> (r: String)
    ensures
        r@ == "settings"@,
{
    String::from_str("settings")
}

/// The database directory when none is configured.
pub fn default_db_dir() -> (r: String)
    ensures
        r@ == "."@,
{
    String::from_str(".")
}

/// The database name when none is configured.
pub fn default_db_name() -> (r: String)
    ensures
        r@ == "main.db"@,
{
    String::from_str("main.db")
}

/// Whether to print captures when none is configured.
pub fn default_print_to_console() -> (r: bool)
    ensures
        r == false,
{
    false
}

/// Where the settings file is kept: `settings.json` in the default settings directory.
pub open spec fn spec_settings_file_path() -> Seq<char> {
    "settings"@ + "/settings.json"@
}

/// The path of the settings file.
pub fn settings_file_path() -> (r: String)
    ensures
        r@ == spec_settings_file_path(),
{
    default_settings_dir().concat("/settings.json")
}

/// How `Settings::get` obtains the settings, from what the existence probe
/// of the settings file answered.
#[derive(Clone, Copy, Debug, PartialEq, Eq, Structural)]
pub enum SettingsSource {
    /// The file is missing: create it with the defaults, then read it.
    CreateThenRead,
    /// The file exists: read it.
    Read,
}

impl Settings {
    /// The settings that a new settings file holds: the default directory
    /// and name, printing to the console switched on.
    pub fn new_file_settings() -> (s: Settings)
        ensures
            s.path@ == spec_settings_file_path(),
            s.db_dir@ == "."@,
            s.db_name@ == "main.db"@,
            s.print_to_console == true,
    {
        Settings {
            path: settings_file_path(),
            db_dir: default_db_dir(),
            db_name: default_db_name(),
            print_to_console: true,
        }
    }

    /// What `create_new` writes, given the answer of the existence probe of
    /// the settings file (`None` when the probe failed): the new settings, or `AlreadyExists`
    /// when the file is there.
    pub fn create_new_plan(probe: Option<bool>) -> (r: Result<Settings, StateError>)
        ensures
            probe == Some(true) <==> (r is Err),
            r matches Err(e) ==> (e is AlreadyExists),
            r matches Ok(s) ==> {
                &&& s.path@ == spec_settings_file_path()
                &&& s.db_dir@ == "."@
                &&& s.db_name@ == "main.db"@
                &&& s.print_to_console == true
            },
    {
        match probe {
            Some(true) => Err(StateError::AlreadyExists),
            _ => Ok(Settings::new_file_settings()),
        }
    }

    /// How `get` proceeds from the answer of the existence probe; a failed
    /// probe is an I/O error.
    pub fn get_plan(probe: Result<bool, String>) -> (r: Result<SettingsSource, StateError>)
        ensures
            match probe {
                Ok(false) => r == Ok::<SettingsSource, StateError>(SettingsSource::CreateThenRead),
                Ok(true) => r == Ok::<SettingsSource, StateError>(SettingsSource::Read),
                Err(msg) => (r matches Err(StateError::Io(m)) && m@ == msg@),
            },
    {
        match probe {
            Ok(false) => Ok(SettingsSource::CreateThenRead),
            Ok(true) => Ok(SettingsSource::Read),
            Err(msg) => Err(StateError::Io(msg)),
        }
    }
}

/// The state of the running server.
pub struct State {
    pub settings: Settings,
    pub capture_count: usize,
}

impl State {
    /// A state with the given settings and no captures counted.
    pub fn init(settings: Settings) -> (s: State)
        ensures
            s.settings == settings,
            s.capture_count == 0,
    {
        State { settings, capture_count: 0 }
    }
}

} // verus!
