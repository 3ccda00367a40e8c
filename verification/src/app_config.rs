//! The application's configuration: where the session token and the mapping
//! templates live, and which server to talk to.

use vstd::prelude::*;

verus! {

/// The configuration values the application runs with.
#[derive(Debug)]
pub struct AppConfig {
    pub session_token_dir_path: String,
    pub templates_dir_path: String,
    pub hostname: String,
}

/// The templates directory under the platform's configuration directory.
pub open spec fn default_templates_path(dir: Seq<char>) -> Seq<char> {
    dir + "/invoice_shelf_cli/templates/"@
}

/// The session token path under the platform's configuration directory.
pub open spec fn default_session_path(dir: Seq<char>) -> Seq<char> {
    dir + "/invoice_shelf_cli/session"@
}

/// Whether `c` holds the default configuration rooted at `dir`.
pub open spec fn is_default_for(c: AppConfig, dir: Seq<char>) -> bool {
    c.templates_dir_path@ == default_templates_path(dir)
        && c.session_token_dir_path@ == default_session_path(dir) && c.hostname@
        == "https://your.server.com"@
}

/// Whether `c` is the default configuration rooted at some directory.
pub open spec fn is_default_config(c: AppConfig) -> bool {
    exists|dir: Seq<char>| is_default_for(c, dir)
}

/// Relies on dirs::config_dir for the platform's configuration directory;
/// yields nothing when the platform defines none or the path is not valid
/// UTF-8. The result depends on the environment, so nothing is promised
/// of it.
#[verifier::external_body]
fn config_dir_string() -> Option<String> {
    match dirs::config_dir() {
        Some(p) => match p.to_str() {
            Some(s) => Some(s.to_string()),
            None => None,
        },
        None => None,
    }
}

impl AppConfig {
    /// The default configuration rooted at the given configuration
    /// directory: templates and session token under an application
    /// subdirectory, and a placeholder server name.
    pub fn default_in_dir(config_dir: &str) -> (c: AppConfig)
        ensures
            is_default_for(c, config_dir@),
    {
        let mut templates: String = config_dir.to_owned();
        templates.append("/invoice_shelf_cli/templates/");
        let mut session: String = config_dir.to_owned();
        session.append("/invoice_shelf_cli/session");
        AppConfig {
            session_token_dir_path: session,
            templates_dir_path: templates,
            hostname: String::from_str("https://your.server.com"),
        }
    }

    /// The default configuration, rooted at the platform's configuration
    /// directory. Yields nothing when the platform offers no usable
    /// configuration directory; the caller decides whether that is fatal.
    pub fn default() -> (r: Option<AppConfig>)
        ensures
            match r {
                Some(c) => is_default_config(c),
                None => true,
            },
    {
        let found = config_dir_string();
        if let Some(dir) = found {
            let c = AppConfig::default_in_dir(dir.as_str());
            proof {
                assert(is_default_for(c, dir@));
                assert(is_default_config(c));
            }
            return Some(c);
        }
        None
    }
}

} // verus!
