//! Configuration of the knowledge-base root. The root is a single string,
//! possibly starting with `~/`, which expands to the user's home directory.
//! Reading and writing the configuration file is the application's business;
//! this module holds the value, its validation and the path arithmetic.

use vstd::prelude::*;

verus! {

/// Errors of configuration handling.
#[derive(Debug)]
pub enum ConfigError {
    IoError(String),
    YamlError(String),
    ValidationError(String),
}

/// The configuration: where the knowledge base lives.
#[derive(Debug, Clone, PartialEq)]
pub struct Config {
    pub knowledge_base_path: String,
}

/// Whether `char::is_whitespace` holds of a character.
pub uninterp spec fn is_unicode_whitespace(c: char) -> bool;

/// Relies on char::is_whitespace: whether the character has the Unicode
/// whitespace property.
#[verifier::external_body]
fn char_is_whitespace(c: char) -> (r: bool)
    ensures
        r == is_unicode_whitespace(c),
{
    c.is_whitespace()
}

/// Relies on dirs::home_dir: the user's home directory, if the platform
/// reports one and its path is UTF-8.
#[verifier::external_body]
pub(crate) fn home_dir_string() -> (r: Option<String>)
{
    match dirs::home_dir() {
        Some(p) => match p.to_str() {
            Some(s) => Some(s.to_owned()),
            None => None,
        },
        None => None,
    }
}

/// Relies on dirs::config_dir: the user's configuration directory, if the
/// platform reports one and its path is UTF-8.
#[verifier::external_body]
fn config_dir_string() -> (r: Option<String>)
{
    match dirs::config_dir() {
        Some(p) => match p.to_str() {
            Some(s) => Some(s.to_owned()),
            None => None,
        },
        None => None,
    }
}

/// Whether a path asks for home-directory expansion: it starts with `~/`.
pub open spec fn starts_with_tilde_slash(p: Seq<char>) -> bool {
    p.len() >= 2 && p[0] == '~' && p[1] == '/'
}

/// What a path expands to against a given home directory.
pub open spec fn expand_with_spec(p: Seq<char>, home: Seq<char>) -> Seq<char> {
    if starts_with_tilde_slash(p) {
        home + seq!['/'] + p.skip(2)
    } else {
        p
    }
}

/// Whether a string is empty or all whitespace, so that trimming it leaves
/// nothing.
pub open spec fn trims_to_empty(s: Seq<char>) -> bool {
    forall|i: int| 0 <= i < s.len() ==> is_unicode_whitespace(s[i])
}

impl Default for Config {
    /// The default root: a `Knowledge Base` directory under home.
    fn default() -> (c: Config)
        ensures
            c.knowledge_base_path@ == "~/Knowledge Base"@,
    {
        Config { knowledge_base_path: "~/Knowledge Base".to_owned() }
    }
}

impl Config {
    /// Expands a leading `~/` against the given home directory; any other
    /// path is returned unchanged.
    pub fn expand_path_with(path: &str, home: &str) -> (r: String)
        ensures
            r@ == expand_with_spec(path@, home@),
    {
        if path.unicode_len() >= 2 && path.get_char(0) == '~' && path.get_char(1) == '/' {
            let rest = path.substring_char(2, path.unicode_len());
            let joined = crate::paths::join_path(home, rest);
            proof {
                assert(joined@ == expand_with_spec(path@, home@));
            }
            joined
        } else {
            path.to_owned()
        }
    }

    /// Expands a leading `~/` against the home directory the platform
    /// reports. Without a home directory, or without a leading `~/`, the
    /// path is returned unchanged.
    pub fn expand_path(path: &str) -> (r: String)
        ensures
            !starts_with_tilde_slash(path@) ==> r@ == path@,
            r@ == path@ || exists|home: Seq<char>| r@ == expand_with_spec(path@, home),
    {
        match home_dir_string() {
            Some(home) => {
                let e = Self::expand_path_with(path, home.as_str());
                proof {
                    assert(e@ == expand_with_spec(path@, home@));
                }
                e
            },
            None => path.to_owned(),
        }
    }

    /// The configured knowledge-base root with `~/` expanded.
    pub fn get_knowledge_base_path(&self) -> (r: String)
        ensures
            !starts_with_tilde_slash(self.knowledge_base_path@) ==> r@
                == self.knowledge_base_path@,
            r@ == self.knowledge_base_path@ || exists|home: Seq<char>| r@ == expand_with_spec(
                self.knowledge_base_path@,
                home,
            ),
    {
        Self::expand_path(self.knowledge_base_path.as_str())
    }

    /// Rejects a root that is empty or all whitespace; any other value is
    /// accepted. Whether the directory can actually be created is left to
    /// the caller that touches the filesystem.
    pub fn validate(&self) -> (r: Result<(), ConfigError>)
        ensures
            r is Err <==> trims_to_empty(self.knowledge_base_path@),
            r is Err ==> r->Err_0 is ValidationError,
    {
        let s = self.knowledge_base_path.as_str();
        let len = s.unicode_len();
        let mut i: usize = 0;
        while i < len
            invariant
                s@ == self.knowledge_base_path@,
                len == s@.len(),
                i <= len,
                forall|j: int| 0 <= j < i ==> is_unicode_whitespace(s@[j]),
            decreases len - i,
        {
            if !char_is_whitespace(s.get_char(i)) {
                proof {
                    assert(!is_unicode_whitespace(s@[i as int]));
                    assert(!trims_to_empty(s@));
                }
                return Ok(());
            }
            i = i + 1;
        }
        Err(ConfigError::ValidationError("knowledge_base_path cannot be empty".to_owned()))
    }

    /// The configuration directory inside the given base directory.
    pub fn config_dir_in(base: &str) -> (r: String)
        ensures
            r@ == base@ + "/local_shelf"@,
    {
        let mut r = base.to_owned();
        r.append("/local_shelf");
        r
    }

    /// The configuration directory: `local_shelf` under the platform's
    /// configuration directory. Fails only where the platform reports none.
    pub fn config_dir() -> (r: Result<String, ConfigError>)
        ensures
            r is Ok ==> exists|base: Seq<char>| r->Ok_0@ == base + "/local_shelf"@,
            r is Err ==> r->Err_0 is ValidationError,
    {
        match config_dir_string() {
            Some(base) => Ok(Self::config_dir_in(base.as_str())),
            None => Err(
                ConfigError::ValidationError(
                    "Unable to determine config directory".to_owned(),
                ),
            ),
        }
    }

    /// The configuration directory an earlier release used, with a hyphen in
    /// its name.
    pub fn legacy_config_dir() -> (r: Result<String, ConfigError>)
        ensures
            r is Ok ==> exists|base: Seq<char>| r->Ok_0@ == base + "/local-shelf"@,
            r is Err ==> r->Err_0 is ValidationError,
    {
        match config_dir_string() {
            Some(base) => {
                let mut r = base.as_str().to_owned();
                r.append("/local-shelf");
                Ok(r)
            },
            None => Err(
                ConfigError::ValidationError(
                    "Unable to determine config directory".to_owned(),
                ),
            ),
        }
    }

    /// The configuration file: `config.yaml` inside the configuration
    /// directory.
    pub fn config_file_path() -> (r: Result<String, ConfigError>)
        ensures
            r is Ok ==> exists|base: Seq<char>| r->Ok_0@ == base + "/local_shelf/config.yaml"@,
            r is Err ==> r->Err_0 is ValidationError,
    {
        match Self::config_dir() {
            Ok(dir) => {
                let ghost base = choose|base: Seq<char>| dir@ == base + "/local_shelf"@;
                let mut r = dir;
                r.append("/config.yaml");
                proof {
                    reveal_strlit("/local_shelf");
                    reveal_strlit("/config.yaml");
                    reveal_strlit("/local_shelf/config.yaml");
                    assert(r@ =~= base + "/local_shelf/config.yaml"@);
                }
                Ok(r)
            },
            Err(e) => Err(e),
        }
    }
}

} // verus!
