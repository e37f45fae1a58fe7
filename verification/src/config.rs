//! Where the profiles file lives: `$XDG_CONFIG_HOME/satur8/` when that is set
//! and non-empty, else `$HOME/.config/satur8/`.
//!
//! The environment is read by the caller; paths are joined here with the
//! rules of `PathBuf::push` on Unix.

use vstd::prelude::*;

use crate::text::{concat, owned};

verus! {

/// `base` joined with `part` as `PathBuf::push` does on Unix: an absolute part
/// replaces the base, and one `/` separates the two unless the base is empty or
/// already ends with one.
pub open spec fn path_join(base: Seq<char>, part: Seq<char>) -> Seq<char> {
    if part.len() > 0 && part[0] == '/' {
        part
    } else if base.len() == 0 || base.last() == '/' {
        base + part
    } else {
        base + seq!['/'] + part
    }
}

/// Joins a path component onto a path.
pub fn join_path(base: &str, part: &str) -> (r: String)
    ensures
        r@ == path_join(base@, part@),
{
    let b = crate::text::chars_of(base);
    let p = crate::text::chars_of(part);
    if p.len() > 0 && p[0] == '/' {
        return owned(part);
    }
    if b.len() == 0 || b[b.len() - 1] == '/' {
        concat(base, part)
    } else {
        let mut r = owned(base);
        r.append("/");
        r.append(part);
        proof {
            reveal_strlit("/");
        }
        assert(r@ =~= base@ + seq!['/'] + part@);
        r
    }
}

/// Why no configuration directory could be found.
#[derive(Debug, Clone, PartialEq, Eq, Structural)]
pub enum ConfigError {
    /// Neither `XDG_CONFIG_HOME` nor `HOME` gives a directory.
    HomeNotSet,
}

impl ConfigError {
    /// The user-facing text of this error.
    pub fn to_string(&self) -> (r: String)
        ensures
            r@ == "HOME is not set"@,
    {
        owned("HOME is not set")
    }
}

/// The configuration directory of application `app`.
pub open spec fn config_dir_of(app: Seq<char>, xdg: Option<Seq<char>>, home: Option<Seq<char>>) -> Option<
    Seq<char>,
> {
    if xdg is Some && xdg->0.len() > 0 {
        Some(path_join(xdg->0, app))
    } else {
        match home {
            Some(h) => Some(path_join(path_join(h, ".config"@), app)),
            None => None,
        }
    }
}

/// The view of an optional string slice.
pub open spec fn opt_view(v: Option<&str>) -> Option<Seq<char>> {
    match v {
        Some(s) => Some(s@),
        None => None,
    }
}

/// The configuration directory of application `app`, from `XDG_CONFIG_HOME`
/// and `HOME` as read from the environment.
pub fn app_config_dir(app: &str, xdg_config_home: Option<&str>, home: Option<&str>) -> (r: Result<
    String,
    ConfigError,
>)
    ensures
        r matches Ok(d) ==> config_dir_of(app@, opt_view(xdg_config_home), opt_view(home)) == Some(d@),
        r is Err ==> config_dir_of(app@, opt_view(xdg_config_home), opt_view(home)) is None,
        r matches Err(e) ==> e == ConfigError::HomeNotSet,
{
    if let Some(xdg) = xdg_config_home {
        if xdg.unicode_len() > 0 {
            return Ok(join_path(xdg, app));
        }
    }
    match home {
        Some(h) => {
            let dot = join_path(h, ".config");
            Ok(join_path(dot.as_str(), app))
        },
        None => Err(ConfigError::HomeNotSet),
    }
}

/// `$XDG_CONFIG_HOME/satur8` (or `$HOME/.config/satur8`).
pub fn config_dir_from_env(xdg_config_home: Option<&str>, home: Option<&str>) -> (r: Result<
    String,
    ConfigError,
>)
    ensures
        r matches Ok(d) ==> config_dir_of("satur8"@, opt_view(xdg_config_home), opt_view(home)) == Some(
            d@,
        ),
        r is Err ==> config_dir_of("satur8"@, opt_view(xdg_config_home), opt_view(home)) is None,
        r matches Err(e) ==> e == ConfigError::HomeNotSet,
{
    app_config_dir("satur8", xdg_config_home, home)
}

/// The profiles file inside a configuration directory.
pub fn profiles_path(config_dir: &str) -> (r: String)
    ensures
        r@ == path_join(config_dir@, "profiles.toml"@),
{
    join_path(config_dir, "profiles.toml")
}

/// `$XDG_CONFIG_HOME/satur8/profiles.toml` (or under `$HOME/.config`).
pub fn profiles_path_from_env(xdg_config_home: Option<&str>, home: Option<&str>) -> (r: Result<
    String,
    ConfigError,
>)
    ensures
        r matches Ok(p) ==> config_dir_of("satur8"@, opt_view(xdg_config_home), opt_view(home)) matches Some(
            d,
        ) && p@ == path_join(d, "profiles.toml"@),
        r is Err ==> config_dir_of("satur8"@, opt_view(xdg_config_home), opt_view(home)) is None,
{
    match config_dir_from_env(xdg_config_home, home) {
        Ok(d) => Ok(profiles_path(d.as_str())),
        Err(e) => Err(e),
    }
}

/// The profiles file of the earlier `vibrance` tool:
/// `$XDG_CONFIG_HOME/vibrance/profiles.toml` (or under `$HOME/.config`).
pub fn vibrance_profiles_path_from_env(xdg_config_home: Option<&str>, home: Option<&str>) -> (r:
    Result<String, ConfigError>)
    ensures
        r matches Ok(p) ==> config_dir_of("vibrance"@, opt_view(xdg_config_home), opt_view(home))
            matches Some(d) && p@ == path_join(d, "profiles.toml"@),
        r is Err ==> config_dir_of("vibrance"@, opt_view(xdg_config_home), opt_view(home)) is None,
{
    match app_config_dir("vibrance", xdg_config_home, home) {
        Ok(d) => Ok(profiles_path(d.as_str())),
        Err(e) => Err(e),
    }
}

/// A non-empty `XDG_CONFIG_HOME` always decides the directory, whatever `HOME` is.
pub proof fn lemma_xdg_wins(app: Seq<char>, x: Seq<char>, h1: Option<Seq<char>>, h2: Option<Seq<char>>)
    requires
        x.len() > 0,
    ensures
        config_dir_of(app, Some(x), h1) == config_dir_of(app, Some(x), h2),
{
}

} // verus!
