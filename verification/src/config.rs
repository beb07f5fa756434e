//! The processor's settings: the profile metadata it announces.
//!
//! Reading the configuration file is the caller's business; this
//! module decides what a read's outcome means.

use vstd::prelude::*;

verus! {

/// The profile metadata the processor announces about itself.
#[derive(Clone, Debug, PartialEq)]
pub struct Metadata {
    pub name: Option<String>,
    pub display_name: Option<String>,
    pub picture: Option<String>,
    pub nip05: Option<String>,
}

/// Why the settings could not be loaded.
#[derive(Debug)]
pub enum SettingsError {
    /// The configuration file could not be read or decoded.
    Load(String),
}

impl SettingsError {
    /// What this failure says.
    pub open spec fn spec_message(self) -> Seq<char> {
        match self {
            SettingsError::Load(s) => ("Configuration loading failed: ")@ + s@,
        }
    }

    /// Writes this failure out.
    pub fn message(&self) -> (r: String)
        ensures
            r@ == self.spec_message(),
    {
        let mut out = String::new();
        match self {
            SettingsError::Load(s) => {
                out.append("Configuration loading failed: ");
                out.append(s.as_str());
            },
        }
        proof {
            assert(out@ =~= self.spec_message());
        }
        out
    }
}

/// The processor's settings.
#[derive(Clone, Debug, PartialEq)]
pub struct Settings {
    pub metadata: Metadata,
}

/// Whether these are the fallback settings: only the default name.
pub open spec fn is_default_settings(s: Settings) -> bool {
    &&& s.metadata.name matches Some(n) && n@ == ("rhi")@
    &&& s.metadata.display_name is None
    &&& s.metadata.picture is None
    &&& s.metadata.nip05 is None
}

impl Default for Settings {
    /// The fallback settings: only the default name is set.
    fn default() -> (r: Settings)
        ensures
            is_default_settings(r),
    {
        Settings {
            metadata: Metadata {
                name: Some("rhi".to_owned()),
                display_name: None,
                picture: None,
                nip05: None,
            },
        }
    }
}

impl Settings {
    /// Decides what a configuration read's outcome means: settings
    /// that were read stand; a failed read without a configured path
    /// falls back to the default; a failed read of a configured path
    /// fails.
    pub fn load(config_path: &Option<String>, loaded: Result<Settings, SettingsError>) -> (r:
        Result<Settings, SettingsError>)
        ensures
            loaded is Ok ==> r == loaded,
            loaded is Err && config_path is Some ==> r == loaded,
            loaded is Err && config_path is None ==> (r matches Ok(d) && is_default_settings(d)),
    {
        match loaded {
            Ok(s) => Ok(s),
            Err(e) => {
                if config_path.is_none() {
                    Ok(Settings::default())
                } else {
                    Err(e)
                }
            },
        }
    }
}

} // verus!
