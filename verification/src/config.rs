use vstd::prelude::*;
use crate::errors::CliError;
use crate::paths::{joined_path, path_join};
use crate::text::{blank, chars_of, is_blank, push_str, string_of};

verus! {

/// The user's configuration (`config.toml`).
#[derive(Debug)]
pub struct Config {
    pub default_module: Option<String>,
    pub download_dir: Option<String>,
}

impl Default for Config {
    fn default() -> (c: Config)
        ensures
            c.default_module is None,
            c.download_dir is None,
    {
        Config { default_module: None, download_dir: None }
    }
}

/// The view of an optional string.
pub open spec fn opt_text(o: Option<&str>) -> Option<Seq<char>> {
    match o {
        Some(s) => Some(s@),
        None => None,
    }
}

/// A path with a leading "~" expanded to the home directory, when it is
/// known: "~" alone becomes the home directory and "~/rest" becomes
/// "<home>/rest". Any other path is left as it is.
pub open spec fn expanded(s: Seq<char>, home: Option<Seq<char>>) -> Seq<char> {
    if s == seq!['~'] {
        match home {
            Some(h) => h,
            None => s,
        }
    } else if s.len() >= 2 && s[0] == '~' && s[1] == '/' {
        match home {
            Some(h) => h + seq!['/'] + s.skip(2),
            None => s,
        }
    } else {
        s
    }
}

/// Expands a leading "~" in `s` to `home`, the value of `HOME` (`None`
/// when it is not set).
pub fn expand_tilde(s: &str, home: Option<&str>) -> (r: String)
    ensures
        r@ == expanded(s@, opt_text(home)),
{
    let v = chars_of(s);
    if v.len() == 1 && v[0] == '~' {
        assert(s@ == seq!['~']);
        return match home {
            Some(h) => String::from_str(h),
            None => String::from_str(s),
        };
    }
    if v.len() >= 2 && v[0] == '~' && v[1] == '/' {
        if let Some(h) = home {
            let mut r = String::from_str(h);
            push_str(&mut r, "/");
            let rest_chars = vec_skip(&v, 2);
            let rest = string_of(&rest_chars);
            push_str(&mut r, rest.as_str());
            proof {
                reveal_strlit("/");
            }
            return r;
        }
    }
    String::from_str(s)
}

/// The characters of `v` from index `k` on.
fn vec_skip(v: &Vec<char>, k: usize) -> (r: Vec<char>)
    requires
        k <= v@.len(),
    ensures
        r@ == v@.skip(k as int),
{
    let mut r: Vec<char> = Vec::new();
    let n = v.len();
    for i in k..n
        invariant
            n == v@.len(),
            k <= i <= n,
            r@ == v@.subrange(k as int, i as int),
    {
        r.push(v[i]);
        assert(v@.subrange(k as int, i + 1) == v@.subrange(k as int, i as int).push(v@[i as int]));
    }
    r
}

impl Config {
    /// The download directory, with a leading "~" expanded to `home`.
    pub fn expanded_download_dir(&self, home: Option<&str>) -> (r: Option<String>)
        ensures
            match self.download_dir {
                Some(d) => r matches Some(e) && e@ == expanded(d@, opt_text(home)),
                None => r is None,
            },
    {
        match &self.download_dir {
            Some(d) => Some(expand_tilde(d.as_str(), home)),
            None => None,
        }
    }
}

/// Checks a parsed configuration: a `default_module` that is present must
/// not be blank.
pub fn check_config(cfg: Config) -> (r: Result<Config, CliError>)
    ensures
        match cfg.default_module {
            Some(m) if blank(m@) => r matches Err(CliError::Config(e))
                && e@ == "config.toml: default_module must not be empty"@,
            _ => r == Ok::<Config, CliError>(cfg),
        },
{
    let empty = match &cfg.default_module {
        Some(m) => is_blank(m.as_str()),
        None => false,
    };
    if empty {
        return Err(CliError::Config(String::from_str("config.toml: default_module must not be empty")));
    }
    Ok(cfg)
}

/// The configuration directory: "<home>/.config/dewey".
pub open spec fn config_dir_path(home: Seq<char>) -> Seq<char> {
    joined_path(joined_path(home, ".config"@), "dewey"@)
}

/// The configuration directory for the home directory `home` (the value of
/// `HOME`); an error when it is not set.
pub fn config_dir(home: Option<&str>) -> (r: Result<String, CliError>)
    ensures
        match home {
            Some(h) => r matches Ok(d) && d@ == config_dir_path(h@),
            None => r matches Err(CliError::Config(e))
                && e@ == "HOME not set; cannot locate config directory"@,
        },
{
    match home {
        Some(h) => {
            let c = path_join(h, ".config");
            Ok(path_join(c.as_str(), "dewey"))
        },
        None => Err(CliError::Config(String::from_str("HOME not set; cannot locate config directory"))),
    }
}

/// The directory scanned for modules: `DEWEY_MODULES` when it is set
/// (`modules_env`), which must then be non-empty, else "modules" inside the
/// configuration directory.
pub fn modules_dir(modules_env: Option<&str>, home: Option<&str>) -> (r: Result<String, CliError>)
    ensures
        match modules_env {
            Some(d) => if d@.len() == 0 {
                r matches Err(CliError::Config(e)) && e@ == "DEWEY_MODULES is empty"@
            } else {
                r matches Ok(p) && p@ == d@
            },
            None => match home {
                Some(h) => r matches Ok(p) && p@ == joined_path(config_dir_path(h@), "modules"@),
                None => r matches Err(CliError::Config(e))
                    && e@ == "HOME not set; cannot locate config directory"@,
            },
        },
{
    if let Some(d) = modules_env {
        if d.is_empty() {
            return Err(CliError::Config(String::from_str("DEWEY_MODULES is empty")));
        }
        return Ok(String::from_str(d));
    }
    let c = config_dir(home)?;
    Ok(path_join(c.as_str(), "modules"))
}

} // verus!
