//! The command line as plain values.
use crate::resolver::{root_candidates, root_config_candidates};
use crate::text::texts;
use vstd::prelude::*;

verus! {

/// A shell for which a completion script can be generated.
#[derive(Clone, Copy, Debug, PartialEq, Eq)]
pub enum Shell {
    /// Bourne Again SHell
    Bash,
    /// Elvish shell
    Elvish,
    /// Friendly Interactive SHell
    Fish,
    /// PowerShell
    PowerShell,
    /// Z SHell
    Zsh,
}

/// What the tool is asked to do.
#[derive(Clone, Debug, PartialEq, Eq)]
pub enum Commands {
    /// List all the servers and their proxies.
    List,
    /// Find a specific server and its proxies.
    Find {
        /// Name of the server to find; the local domain is tried too.
        server_name: String,
        /// Whether to open the server in the browser if it is found.
        open: bool,
    },
    /// Open a specific server in the browser.
    Open {
        /// Name of the server to find; the local domain is tried too.
        server_name: String,
    },
    /// Add a server.
    Add {
        /// Name of the server to configure; the local domain is added.
        server_name: String,
        /// The target of the root location.
        default_target: String,
        /// The websocket proxy, as `location:target`; empty for none.
        ws: String,
        /// Other proxies, each as `location=target` or `location:target`.
        proxy: Vec<String>,
        /// Whether to configure the server again if it exists.
        force: bool,
        /// Whether to open the server in the browser after adding it.
        open: bool,
    },
    /// Remove a server.
    Remove {
        /// Name of the server to remove.
        server_name: String,
    },
    /// Reload the proxy's configuration.
    Reload,
    /// Generate a completion script.
    Completion {
        /// The shell to generate it for.
        shell: Shell,
    },
}

/// The arguments of one run.
#[derive(Clone, Debug, PartialEq, Eq)]
pub struct Args {
    /// The root configuration file to use instead of the usual places.
    pub nginx_path: Option<String>,
    /// The command; none stands for listing.
    pub command: Option<Commands>,
    /// How often verbose output was asked for.
    pub verbose: usize,
}

/// The characters of an optional string.
pub open spec fn asked_path(path: Option<String>) -> Option<Seq<char>> {
    match path {
        Some(p) => Some(p@),
        None => None,
    }
}

impl Args {
    /// Whether verbose output was asked for.
    pub fn is_verbose(&self) -> (r: bool)
        ensures
            r == (self.verbose > 0),
    {
        self.verbose > 0
    }

    /// The root configuration files to look for, in the order in which
    /// they are tried.
    pub fn root_configs(&self) -> (r: Vec<String>)
        ensures
            texts(r@) == root_candidates(asked_path(self.nginx_path)),
    {
        match &self.nginx_path {
            Some(path) => root_config_candidates(Some(path.as_str())),
            None => root_config_candidates(None),
        }
    }
}

} // verus!
