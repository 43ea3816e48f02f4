//! Selection of markdown files among candidate paths, and home-directory
//! expansion for the directory that is scanned. Reading directories is the
//! application's business; it hands the paths it found to
//! [`FileDiscovery::filter_markdown_files`].

use vstd::prelude::*;

use crate::paths::{ext_spec, file_name_spec};

verus! {

/// Errors of file discovery.
#[derive(Debug)]
pub enum FileDiscoveryError {
    IoError(String),
    PathExpansionError(String),
}

/// Public interface for file discovery operations.
pub struct FileDiscovery;

/// What `str::to_lowercase` returns for a sequence of characters.
pub uninterp spec fn lower_of(s: Seq<char>) -> Seq<char>;

/// Relies on str::to_lowercase: the result depends on the characters alone,
/// and an empty string stays empty.
#[verifier::external_body]
fn lowercase(s: &str) -> (r: String)
    ensures
        r@ == lower_of(s@),
        s@.len() == 0 ==> r@.len() == 0,
{
    s.to_lowercase()
}

/// Whether a path names a markdown file: its file name has a non-empty
/// extension besides its stem, and that extension lowercases to `md`.
pub open spec fn is_markdown_path(p: Seq<char>) -> bool {
    let n = file_name_spec(p);
    let e = ext_spec(n);
    e.len() > 0 && e.len() < n.len() && lower_of(e.skip(1)) == "md"@
}

/// The markdown files among the given paths, in their given order.
pub open spec fn markdown_filter(s: Seq<String>) -> Seq<String> {
    s.filter(|f: String| is_markdown_path(f@))
}

/// The rest of a path after a leading `~`, with one following separator
/// dropped as well.
pub open spec fn tilde_rest(p: Seq<char>) -> Seq<char> {
    let r = p.skip(1);
    if r.len() >= 1 && r[0] == '/' {
        r.skip(1)
    } else {
        r
    }
}

impl FileDiscovery {
    /// Keeps the paths whose extension, lowercased, is `md`.
    pub fn filter_markdown_files(files: Vec<String>) -> (r: Vec<String>)
        ensures
            r@ == markdown_filter(files@),
    {
        let mut r: Vec<String> = Vec::new();
        let mut i: usize = 0;
        while i < files.len()
            invariant
                i <= files.len(),
                r@ == markdown_filter(files@.take(i as int)),
            decreases files.len() - i,
        {
            let f = &files[i];
            let name = crate::paths::file_name_of(f.as_str());
            let name_len = name.as_str().unicode_len();
            let (_stem, ext) = crate::paths::split_name(name.as_str());
            let ext_len = ext.as_str().unicode_len();
            let keep = if ext_len > 0 && ext_len < name_len {
                let bare = ext.as_str().substring_char(1, ext_len);
                let low = lowercase(bare);
                let md = "md".to_owned();
                low == md
            } else {
                false
            };
            proof {
                assert(keep == is_markdown_path(files@[i as int]@));
                assert(files@.take(i as int + 1).drop_last() =~= files@.take(i as int));
                assert(files@.take(i as int + 1).last() == files@[i as int]);
                reveal(Seq::filter);
            }
            if keep {
                r.push(f.clone());
            }
            proof {
                assert(r@ == markdown_filter(files@.take(i as int + 1)));
            }
            i = i + 1;
        }
        proof {
            assert(files@.take(files@.len() as int) =~= files@);
        }
        r
    }

    /// Expands a leading `~` against the given home directory; one separator
    /// after the tilde is absorbed. A path without a leading `~` is returned
    /// unchanged.
    pub fn expand_path_with(path: &str, home: &str) -> (r: String)
        ensures
            path@.len() >= 1 && path@[0] == '~' ==> r@ == home@ + seq!['/'] + tilde_rest(
                path@,
            ),
            !(path@.len() >= 1 && path@[0] == '~') ==> r@ == path@,
    {
        let len = path.unicode_len();
        if len >= 1 && path.get_char(0) == '~' {
            let from: usize = if len >= 2 && path.get_char(1) == '/' {
                2
            } else {
                1
            };
            let rest = path.substring_char(from, len);
            proof {
                assert(rest@ == tilde_rest(path@));
            }
            crate::paths::join_path(home, rest)
        } else {
            path.to_owned()
        }
    }

    /// Expands a leading `~` against the home directory the platform
    /// reports; fails where a `~` path is given and no home directory is
    /// known. A path without a leading `~` is returned unchanged.
    pub fn expand_path(path: &str) -> (r: Result<String, FileDiscoveryError>)
        ensures
            !(path@.len() >= 1 && path@[0] == '~') ==> r is Ok && r->Ok_0@ == path@,
            r is Ok ==> (r->Ok_0@ == path@ || exists|home: Seq<char>| r->Ok_0@ == home + seq![
                '/',
            ] + tilde_rest(path@)),
            r is Err ==> path@.len() >= 1 && path@[0] == '~' && r->Err_0
                is PathExpansionError,
    {
        let len = path.unicode_len();
        if len >= 1 && path.get_char(0) == '~' {
            match crate::config::home_dir_string() {
                Some(home) => {
                    let e = Self::expand_path_with(path, home.as_str());
                    proof {
                        assert(e@ == home@ + seq!['/'] + tilde_rest(path@));
                    }
                    Ok(e)
                },
                None => Err(
                    FileDiscoveryError::PathExpansionError(
                        "Could not determine home directory".to_owned(),
                    ),
                ),
            }
        } else {
            Ok(path.to_owned())
        }
    }
}

} // verus!
