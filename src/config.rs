use vstd::prelude::*;
use vstd::string::{StrSliceExecFns, StringExecFns};

verus! {

/// The XDG base directories the compositor uses.
#[derive(Clone, Copy, Debug, PartialEq, Eq, Structural)]
pub enum XdgBaseDir {
    /// `$XDG_DATA_HOME`: user-specific data files.
    Data,
    /// `$XDG_CONFIG_HOME`: user-specific configuration files.
    Config,
    /// `$XDG_STATE_HOME`: state that persists between restarts.
    State,
}

/// `base` joined with the relative path `rel`: a `/` goes between them
/// unless `base` is empty or already ends with one.
pub open spec fn joined(base: Seq<char>, rel: Seq<char>) -> Seq<char> {
    if base.len() == 0 {
        rel
    } else if base.last() == '/' {
        base + rel
    } else {
        base + seq!['/'] + rel
    }
}

/// Joins the relative path `rel` onto `base`.
pub fn join_path(base: &str, rel: &str) -> (r: String)
    ensures
        r@ == joined(base@, rel@),
{
    let n = base.unicode_len();
    let mut r = String::from_str(base);
    if n > 0 && base.get_char(n - 1) != '/' {
        proof {
            reveal_strlit("/");
            assert("/"@ =~= seq!['/']);
        }
        r.append("/");
    }
    r.append(rel);
    r
}

impl XdgBaseDir {
    /// The environment variable that names this directory.
    pub fn env_variable(&self) -> (r: &'static str)
        ensures
            r@ == (match *self {
                XdgBaseDir::Data => "XDG_DATA_HOME"@,
                XdgBaseDir::Config => "XDG_CONFIG_HOME"@,
                XdgBaseDir::State => "XDG_STATE_HOME"@,
            }),
    {
        match self {
            XdgBaseDir::Data => "XDG_DATA_HOME",
            XdgBaseDir::Config => "XDG_CONFIG_HOME",
            XdgBaseDir::State => "XDG_STATE_HOME",
        }
    }

    /// Where this directory lies under the home directory by default.
    pub fn home_relative(&self) -> (r: &'static str)
        ensures
            r@ == (match *self {
                XdgBaseDir::Data => ".local/share"@,
                XdgBaseDir::Config => ".config"@,
                XdgBaseDir::State => ".local/state"@,
            }),
    {
        match self {
            XdgBaseDir::Data => ".local/share",
            XdgBaseDir::Config => ".config",
            XdgBaseDir::State => ".local/state",
        }
    }

    /// The directory itself: the environment variable's value when it is
    /// set (`env_value`) and names an existing path (`env_path_exists`),
    /// otherwise the default under the home directory `home`.
    pub fn resolve(&self, env_value: Option<&str>, env_path_exists: bool, home: &str) -> (r: String)
        ensures
            r@ == (match env_value {
                Some(v) => if env_path_exists { v@ } else { joined(home@, self.home_relative_spec()) },
                None => joined(home@, self.home_relative_spec()),
            }),
    {
        if let Some(v) = env_value {
            if env_path_exists {
                return String::from_str(v);
            }
        }
        join_path(home, self.home_relative())
    }

    pub open spec fn home_relative_spec(&self) -> Seq<char> {
        match *self {
            XdgBaseDir::Data => ".local/share"@,
            XdgBaseDir::Config => ".config"@,
            XdgBaseDir::State => ".local/state"@,
        }
    }
}

/// State kept for each connected client.
#[derive(Clone, Copy, Debug, Default, PartialEq, Eq, Structural)]
pub struct ClientState {
    /// The client's identity.
    pub id: u64,
}

/// The configuration the compositor is handed: its key binding table,
/// name to binding, which the core carries without reading.
#[derive(Clone, Debug)]
pub struct Config {
    pub keybinds: Vec<(String, String)>,
}

impl Config {
    /// The configuration file's path: `Compositor.jsonc` in the folder
    /// `avdan` of the configuration base directory `config_home` (see
    /// `XdgBaseDir::Config`).
    pub fn path(config_home: &str) -> (r: String)
        ensures
            r@ == joined(joined(config_home@, "avdan"@), "Compositor.jsonc"@),
    {
        let folder = join_path(config_home, "avdan");
        join_path(folder.as_str(), "Compositor.jsonc")
    }
}

} // verus!
