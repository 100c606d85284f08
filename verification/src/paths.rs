//! Where a TryCP server keeps its files: the directory of each conductor,
//! the files inside it, and the cached DNA files.

use vstd::prelude::*;
use crate::text::{chars_of, push_char, string_of};

verus! {

/// The name of a conductor's configuration file.
pub const CONDUCTOR_CONFIG_FILENAME: &'static str = "conductor-config.yml";
/// The name of the file that receives a conductor's standard output.
pub const CONDUCTOR_STDOUT_LOG_FILENAME: &'static str = "stdout.txt";
/// The name of the file that receives a conductor's standard error.
pub const CONDUCTOR_STDERR_LOG_FILENAME: &'static str = "stderr.txt";
/// The directory under which each reset makes a fresh conductors directory.
pub const CONDUCTORS_DIR_PATH: &'static str = "/tmp/trycp/conductors";
/// The directory where downloaded DNA files are kept.
pub const DNA_DIR_PATH: &'static str = "/tmp/trycp/dnas";

/// `base` joined with `path` as `Path::join` does on Unix: an absolute
/// `path` replaces `base`; otherwise `path` is appended, after a `/` when
/// `base` is not empty and does not already end with one.
pub open spec fn joined(base: Seq<char>, path: Seq<char>) -> Seq<char> {
    if path.len() > 0 && path[0] == '/' {
        path
    } else if base.len() > 0 && base.last() != '/' {
        base + seq!['/'] + path
    } else {
        base + path
    }
}

/// Joins two paths, as `Path::new(base).join(path)` does on Unix.
pub fn join_path(base: &str, path: &str) -> (r: String)
    ensures
        r@ == joined(base@, path@),
{
    let b = chars_of(base);
    let p = chars_of(path);
    if p.len() > 0 && p[0] == '/' {
        return string_of(&p);
    }
    let mut out = string_of(&b);
    if b.len() > 0 && b[b.len() - 1] != '/' {
        push_char(&mut out, '/');
    }
    out.append(path);
    out
}

/// The file name under which a DNA is cached: the URL path with every `/`
/// left out and every `%` written `_`.
pub open spec fn dna_file_name(url_path: Seq<char>) -> Seq<char>
    decreases url_path.len(),
{
    if url_path.len() == 0 {
        Seq::empty()
    } else {
        let rest = dna_file_name(url_path.drop_last());
        let c = url_path.last();
        if c == '/' {
            rest
        } else if c == '%' {
            rest.push('_')
        } else {
            rest.push(c)
        }
    }
}

/// Where the DNA whose URL has the path `url_path` is cached.
pub fn get_dna_path(url_path: &str) -> (r: String)
    ensures
        r@ == joined(DNA_DIR_PATH@, dna_file_name(url_path@)),
{
    let v = chars_of(url_path);
    let mut name = String::new();
    let mut i: usize = 0;
    while i < v.len()
        invariant
            v@ == url_path@,
            i <= v.len(),
            name@ == dna_file_name(v@.take(i as int)),
        decreases v.len() - i,
    {
        let c = v[i];
        assert(v@.take(i + 1).drop_last() =~= v@.take(i as int));
        if c == '/' {
        } else if c == '%' {
            push_char(&mut name, '_');
        } else {
            push_char(&mut name, c);
        }
        i = i + 1;
    }
    assert(v@.take(v.len() as int) =~= v@);
    join_path(DNA_DIR_PATH, name.as_str())
}

/// The cache file of a DNA lies directly in the DNA directory: its name
/// holds neither `/` nor `%`, and the path is the directory, a `/`, and
/// the name.
pub proof fn law_dna_file_in_dna_dir(url_path: Seq<char>)
    ensures
        forall|i: int|
            0 <= i < dna_file_name(url_path).len() ==> #[trigger] dna_file_name(url_path)[i] != '/'
                && dna_file_name(url_path)[i] != '%',
        joined(DNA_DIR_PATH@, dna_file_name(url_path)) == DNA_DIR_PATH@ + seq!['/'] + dna_file_name(
            url_path,
        ),
    decreases url_path.len(),
{
    if url_path.len() > 0 {
        law_dna_file_in_dna_dir(url_path.drop_last());
    }
    reveal_strlit("/tmp/trycp/dnas");
    let name = dna_file_name(url_path);
    if name.len() > 0 {
        assert(name[0] != '/');
    }
}

/// The cache file name keeps every character of the URL path but `/`, in
/// order, with each `%` written `_`; a path holding neither `/` nor `%`
/// is its own name.
pub proof fn law_dna_file_name_keeps_path(url_path: Seq<char>)
    ensures
        dna_file_name(url_path) == url_path.filter(|c: char| c != '/').map_values(
            |c: char| if c == '%' { '_' } else { c },
        ),
        (forall|i: int| 0 <= i < url_path.len() ==> url_path[i] != '/' && url_path[i] != '%')
            ==> dna_file_name(url_path) == url_path,
    decreases url_path.len(),
{
    let keep = |c: char| c != '/';
    let write = |c: char| if c == '%' { '_' } else { c };
    if url_path.len() == 0 {
        reveal(Seq::filter);
        assert(url_path.filter(keep).map_values(write) =~= Seq::<char>::empty());
    } else {
        let d = url_path.drop_last();
        let c = url_path.last();
        law_dna_file_name_keeps_path(d);
        assert(url_path =~= d.push(c));
        d.lemma_filter_push(c, keep);
        if c != '/' {
            assert(d.filter(keep).push(c).map_values(write) =~= d.filter(keep).map_values(write).push(
                write(c),
            ));
        }
        if forall|i: int| 0 <= i < url_path.len() ==> url_path[i] != '/' && url_path[i] != '%' {
            assert(forall|i: int| 0 <= i < d.len() ==> d[i] == url_path[i]);
            assert(dna_file_name(d) == d);
        }
    }
}

} // verus!
