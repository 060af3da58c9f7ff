//! Persisted user settings.  Reading and writing the settings file is I/O
//! and lives outside the engine; here are the settings themselves, their
//! defaults, and the derived filesystem locations.
use vstd::prelude::*;

use crate::{ErrV, SessionError};
use crate::strutil::is_suffix;

verus! {

/// Relies on `dirs::config_dir`: the platform's configuration directory,
/// if one is defined for this environment.
#[verifier::external_body]
pub fn config_dir_path() -> Option<String> {
    dirs::config_dir().map(|p| p.to_string_lossy().to_string())
}

/// Relies on `dirs::home_dir`: the user's home directory, if one is defined
/// for this environment.
#[verifier::external_body]
pub fn home_dir_path() -> Option<String> {
    dirs::home_dir().map(|p| p.to_string_lossy().to_string())
}

/// Presentation settings for the picker front-end.
#[derive(Debug, Clone, PartialEq)]
pub struct UiSettings {
    pub popup_width: String,
    pub popup_height: String,
    pub preview_position: String,
    pub show_plugin_names: bool,
}

impl Default for UiSettings {
    fn default() -> (r: UiSettings)
        ensures
            r.popup_width@ == "60%"@,
            r.popup_height@ == "40%"@,
            r.preview_position@ == "right:50%:wrap"@,
            !r.show_plugin_names,
    {
        UiSettings {
            popup_width: "60%".to_owned(),
            popup_height: "40%".to_owned(),
            preview_position: "right:50%:wrap".to_owned(),
            show_plugin_names: false,
        }
    }
}

/// The persisted settings blob: preview toggle, optional custom directory
/// for externally registered sources, optional multiplexer socket, and the
/// presentation settings.
#[derive(Debug, Clone, PartialEq)]
pub struct Config {
    pub preview_enabled: bool,
    pub plugin_dir: Option<String>,
    pub tmux_socket: Option<String>,
    pub ui_settings: UiSettings,
}

impl Default for Config {
    fn default() -> (r: Config)
        ensures
            r.preview_enabled,
            r.plugin_dir is None,
            r.tmux_socket is None,
            r.ui_settings.popup_width@ == "60%"@,
            r.ui_settings.popup_height@ == "40%"@,
            r.ui_settings.preview_position@ == "right:50%:wrap"@,
            !r.ui_settings.show_plugin_names,
    {
        Config {
            preview_enabled: true,
            plugin_dir: None,
            tmux_socket: None,
            ui_settings: UiSettings::default(),
        }
    }
}

impl Config {
    /// Where the settings file lives: the configuration directory, if the
    /// platform has one, else a failure naming the missing directory.
    pub fn get_config_path() -> (r: Result<String, SessionError>)
        ensures
            r matches Ok(p) ==> is_suffix(p@, "/tmux-session-manager/config.json"@),
            r matches Err(e) ==> e@ == ErrV::ExternalToolFailure(
                "Could not find config directory"@,
            ),
    {
        match config_dir_path() {
            Some(dir) => {
                let mut p = dir;
                p.append("/tmux-session-manager/config.json");
                proof {
                    assert(p@.subrange(
                        p@.len() - "/tmux-session-manager/config.json"@.len(),
                        p@.len() as int,
                    ) =~= "/tmux-session-manager/config.json"@);
                }
                Ok(p)
            },
            None => Err(
                SessionError::ExternalToolFailure(
                    "Could not find config directory".to_owned(),
                ),
            ),
        }
    }

    /// Where externally registered sources are looked for: the custom
    /// directory when set, otherwise a fixed spot under the configuration
    /// directory.
    pub fn get_plugin_dir(&self) -> (r: String)
        ensures
            match self.plugin_dir {
                Some(ref d) => r@ == d@,
                None => is_suffix(r@, "tmux-session-manager/plugins"@),
            },
    {
        match &self.plugin_dir {
            Some(custom) => custom.clone(),
            None => {
                let mut p = match config_dir_path() {
                    Some(dir) => {
                        let mut q = dir;
                        q.append("/");
                        q
                    },
                    None => String::new(),
                };
                p.append("tmux-session-manager/plugins");
                proof {
                    assert(p@.subrange(
                        p@.len() - "tmux-session-manager/plugins"@.len(),
                        p@.len() as int,
                    ) =~= "tmux-session-manager/plugins"@);
                }
                p
            },
        }
    }

    /// Flip the preview toggle; persisting the change is the caller's I/O.
    pub fn toggle_preview(&mut self)
        ensures
            final(self).preview_enabled == !old(self).preview_enabled,
            final(self).plugin_dir == old(self).plugin_dir,
            final(self).tmux_socket == old(self).tmux_socket,
            final(self).ui_settings == old(self).ui_settings,
    {
        self.preview_enabled = !self.preview_enabled;
    }
}

} // verus!
