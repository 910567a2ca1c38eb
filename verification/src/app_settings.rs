//! The user's settings: whether actions on system services are allowed,
//! whether localhost links use HTTPS, and which editor opens folders.
use vstd::prelude::*;

verus! {

/// The settings' values.
pub struct SettingsView {
    pub allow_system_process_actions: bool,
    pub use_https_for_localhost: bool,
    pub preferred_editor: Seq<char>,
}

/// The settings at start: system actions off, plain HTTP, the Cursor
/// editor.
pub open spec fn default_settings() -> SettingsView {
    SettingsView {
        allow_system_process_actions: false,
        use_https_for_localhost: false,
        preferred_editor: "cursor"@,
    }
}

/// The application's settings.
#[derive(Debug)]
pub struct AppSettings {
    allow_system_process_actions: bool,
    use_https_for_localhost: bool,
    preferred_editor: String,
}

impl View for AppSettings {
    type V = SettingsView;

    closed spec fn view(&self) -> SettingsView {
        SettingsView {
            allow_system_process_actions: self.allow_system_process_actions,
            use_https_for_localhost: self.use_https_for_localhost,
            preferred_editor: self.preferred_editor@,
        }
    }
}

impl Default for AppSettings {
    fn default() -> (r: Self)
        ensures
            r@ == default_settings(),
    {
        AppSettings::new()
    }
}

impl AppSettings {
    /// The settings at start.
    pub fn new() -> (r: Self)
        ensures
            r@ == default_settings(),
    {
        AppSettings {
            allow_system_process_actions: false,
            use_https_for_localhost: false,
            preferred_editor: crate::text::string_from("cursor"),
        }
    }

    /// Allows or forbids actions on system services.
    pub fn set_allow_system_process_actions(&mut self, allow: bool)
        ensures
            final(self)@ == (SettingsView { allow_system_process_actions: allow, ..old(self)@ }),
    {
        self.allow_system_process_actions = allow;
    }

    /// Whether actions on system services are allowed.
    pub fn allow_system_process_actions(&self) -> (r: bool)
        ensures
            r == self@.allow_system_process_actions,
    {
        self.allow_system_process_actions
    }

    /// Makes localhost links use HTTPS, or plain HTTP.
    pub fn set_use_https_for_localhost(&mut self, use_https: bool)
        ensures
            final(self)@ == (SettingsView { use_https_for_localhost: use_https, ..old(self)@ }),
    {
        self.use_https_for_localhost = use_https;
    }

    /// Whether localhost links use HTTPS.
    pub fn use_https_for_localhost(&self) -> (r: bool)
        ensures
            r == self@.use_https_for_localhost,
    {
        self.use_https_for_localhost
    }

    /// Chooses the editor that opens folders.
    pub fn set_preferred_editor(&mut self, editor: String)
        ensures
            final(self)@ == (SettingsView { preferred_editor: editor@, ..old(self)@ }),
    {
        self.preferred_editor = editor;
    }

    /// The editor that opens folders.
    pub fn preferred_editor(&self) -> (r: String)
        ensures
            r@ == self@.preferred_editor,
    {
        self.preferred_editor.clone()
    }
}

/// Each setting reads back what was last set, and setting one leaves the
/// others as they were.
pub proof fn law_settings_read_back(
    s: SettingsView,
    allow: bool,
    use_https: bool,
    editor: Seq<char>,
)
    ensures
        (SettingsView { allow_system_process_actions: allow, ..s }).allow_system_process_actions
            == allow,
        (SettingsView { allow_system_process_actions: allow, ..s }).use_https_for_localhost
            == s.use_https_for_localhost,
        (SettingsView { allow_system_process_actions: allow, ..s }).preferred_editor
            == s.preferred_editor,
        (SettingsView { use_https_for_localhost: use_https, ..s }).use_https_for_localhost
            == use_https,
        (SettingsView { use_https_for_localhost: use_https, ..s }).allow_system_process_actions
            == s.allow_system_process_actions,
        (SettingsView { preferred_editor: editor, ..s }).preferred_editor == editor,
        (SettingsView { preferred_editor: editor, ..s }).allow_system_process_actions
            == s.allow_system_process_actions,
{
}

} // verus!
