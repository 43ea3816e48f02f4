//! The crate's model of file paths: plain UTF-8 strings with `/` as the
//! separator. A path's file name is the suffix after the last separator; a
//! name splits into stem and extension on its last `.`, the extension keeping
//! the dot. A name consisting only of an extension (such as `.md`) has itself
//! as its display stem, mirroring how leading-dot files are usually treated.

use vstd::prelude::*;

verus! {

/// The file-name part of a path: everything after the last `/`.
/// Empty when the path is empty or ends with a separator.
pub open spec fn file_name_spec(p: Seq<char>) -> Seq<char>
    decreases p.len(),
{
    if p.len() == 0 {
        p
    } else if p.last() == '/' {
        Seq::empty()
    } else {
        file_name_spec(p.drop_last()) + seq![p.last()]
    }
}

/// The extension of a file name, including its leading dot: the suffix from
/// the last `.` on. Empty when the name holds no dot.
pub open spec fn ext_spec(n: Seq<char>) -> Seq<char>
    decreases n.len(),
{
    if n.len() == 0 {
        Seq::empty()
    } else if n.last() == '.' {
        seq!['.']
    } else {
        let e = ext_spec(n.drop_last());
        if e.len() == 0 {
            Seq::empty()
        } else {
            e + seq![n.last()]
        }
    }
}

pub proof fn lemma_ext_len(n: Seq<char>)
    ensures
        ext_spec(n).len() <= n.len(),
    decreases n.len(),
{
    if n.len() > 0 && n.last() != '.' {
        lemma_ext_len(n.drop_last());
    }
}

/// The stem of a file name: what precedes the extension.
pub open spec fn stem_spec(n: Seq<char>) -> Seq<char> {
    n.take(n.len() - ext_spec(n).len())
}

/// The stem a journal entry shows for a name: the stem, except that a name
/// that is nothing but an extension (a leading-dot name such as `.md`)
/// stands as it is.
pub open spec fn display_stem_spec(n: Seq<char>) -> Seq<char> {
    if ext_spec(n).len() == n.len() {
        n
    } else {
        stem_spec(n)
    }
}

proof fn lemma_file_name_cut(p: Seq<char>, k: int)
    requires
        0 <= k <= p.len(),
        forall|i: int| k <= i < p.len() ==> p[i] != '/',
        k == 0 || p[k - 1] == '/',
    ensures
        file_name_spec(p) == p.skip(k),
    decreases p.len(),
{
    if p.len() == k {
        if k == 0 {
            assert(file_name_spec(p) =~= p.skip(k));
        } else {
            assert(p.last() == '/');
            assert(file_name_spec(p) =~= p.skip(k));
        }
    } else {
        assert(p.last() != '/');
        lemma_file_name_cut(p.drop_last(), k);
        assert(file_name_spec(p.drop_last()) + seq![p.last()] =~= p.skip(k));
    }
}

proof fn lemma_ext_none(n: Seq<char>)
    requires
        forall|i: int| 0 <= i < n.len() ==> n[i] != '.',
    ensures
        ext_spec(n).len() == 0,
    decreases n.len(),
{
    if n.len() > 0 {
        assert(n.last() != '.');
        lemma_ext_none(n.drop_last());
    }
}

proof fn lemma_ext_cut(n: Seq<char>, d: int)
    requires
        0 <= d < n.len(),
        n[d] == '.',
        forall|i: int| d < i < n.len() ==> n[i] != '.',
    ensures
        ext_spec(n) == n.skip(d),
    decreases n.len(),
{
    if d == n.len() - 1 {
        assert(n.last() == '.');
        assert(ext_spec(n) =~= n.skip(d));
    } else {
        assert(n.last() != '.');
        lemma_ext_cut(n.drop_last(), d);
        assert(n.drop_last().skip(d).len() > 0);
        assert(ext_spec(n.drop_last()) + seq![n.last()] =~= n.skip(d));
    }
}

/// Every character of a path's file name occurs in the path.
pub proof fn lemma_file_name_chars(p: Seq<char>)
    ensures
        forall|i: int|
            0 <= i < file_name_spec(p).len() ==> p.contains(#[trigger] file_name_spec(p)[i]),
    decreases p.len(),
{
    if p.len() > 0 && p.last() != '/' {
        lemma_file_name_chars(p.drop_last());
        let f = file_name_spec(p);
        assert forall|i: int| 0 <= i < f.len() implies p.contains(#[trigger] f[i]) by {
            if i < file_name_spec(p.drop_last()).len() {
                assert(f[i] == file_name_spec(p.drop_last())[i]);
                let j = choose|j: int|
                    0 <= j < p.drop_last().len() && p.drop_last()[j] == f[i];
                assert(p[j] == f[i]);
            } else {
                assert(f[i] == p.last());
                assert(p[p.len() - 1] == f[i]);
            }
        }
    }
}

/// Extracts the file name of a path.
pub fn file_name_of(path: &str) -> (r: String)
    ensures
        r@ == file_name_spec(path@),
{
    let len = path.unicode_len();
    let mut i: usize = 0;
    let mut k: usize = 0;
    while i < len
        invariant
            len == path@.len(),
            i <= len,
            k <= i,
            forall|j: int| k <= j < i ==> path@[j] != '/',
            k == 0 || path@[k - 1] == '/',
        decreases len - i,
    {
        if path.get_char(i) == '/' {
            k = i + 1;
        }
        i = i + 1;
    }
    proof {
        lemma_file_name_cut(path@, k as int);
    }
    let name = path.substring_char(k, len);
    proof {
        assert(name@ == path@.skip(k as int));
    }
    name.to_owned()
}

/// Splits a file name into stem and extension.
pub fn split_name(name: &str) -> (r: (String, String))
    ensures
        r.0@ == stem_spec(name@),
        r.1@ == ext_spec(name@),
        r.0@ + r.1@ == name@,
{
    let len = name.unicode_len();
    let mut i: usize = 0;
    let mut d: usize = 0;
    let mut found = false;
    while i < len
        invariant
            len == name@.len(),
            i <= len,
            found ==> d < i && name@[d as int] == '.' && forall|j: int|
                d < j < i ==> name@[j] != '.',
            !found ==> forall|j: int| 0 <= j < i ==> name@[j] != '.',
        decreases len - i,
    {
        if name.get_char(i) == '.' {
            d = i;
            found = true;
        }
        i = i + 1;
    }
    proof {
        if found {
            lemma_ext_cut(name@, d as int);
        } else {
            lemma_ext_none(name@);
        }
        lemma_ext_len(name@);
    }
    let cut = if found { d } else { len };
    let stem = name.substring_char(0, cut);
    let ext = name.substring_char(cut, len);
    proof {
        assert(stem@ == name@.take(cut as int));
        assert(ext@ == name@.skip(cut as int));
        assert(stem@ + ext@ =~= name@);
        assert(stem@ =~= name@.take(name@.len() - ext_spec(name@).len()));
    }
    (stem.to_owned(), ext.to_owned())
}

/// Joins a directory path and an entry name with a single separator.
pub fn join_path(dir: &str, name: &str) -> (r: String)
    ensures
        r@ == dir@ + seq!['/'] + name@,
{
    let mut r = dir.to_owned();
    r.append("/");
    r.append(name);
    proof {
        reveal_strlit("/");
        assert(r@ == dir@ + seq!['/'] + name@);
    }
    r
}

} // verus!
