//! Rules for the managed configuration files: which directories exist,
//! which names are accepted, and whether a path stays inside its directory.
use vstd::prelude::*;
use crate::text::{
    split, starts_with, ends_with, seqs_of, chars_of, split_chars, ends_with_str, starts_with_str,
    eq_str,
};

verus! {

/// The managed directory a request names (`proxy-providers` and
/// `rule-providers` also spelled with underscores).
pub open spec fn managed_dir(dir: Seq<char>) -> Option<Seq<char>> {
    if dir == "configs"@ {
        Some("configs"@)
    } else if dir == "proxy-providers"@ || dir == "proxy_providers"@ {
        Some("proxy_providers"@)
    } else if dir == "rule-providers"@ || dir == "rule_providers"@ {
        Some("rule_providers"@)
    } else {
        None
    }
}

/// The managed directory a request names.
pub fn normalize_dir(dir: &str) -> (r: Option<&'static str>)
    ensures
        match r {
            Some(d) => managed_dir(dir@) == Some(d@),
            None => managed_dir(dir@) is None,
        },
{
    let d = chars_of(dir);
    if eq_str(&d, "configs") {
        Some("configs")
    } else if eq_str(&d, "proxy-providers") || eq_str(&d, "proxy_providers") {
        Some("proxy_providers")
    } else if eq_str(&d, "rule-providers") || eq_str(&d, "rule_providers") {
        Some("rule_providers")
    } else {
        None
    }
}

/// YAML file names end in `.yaml` or `.yml`.
pub open spec fn yaml_name(name: Seq<char>) -> bool {
    ends_with(name, ".yaml"@) || ends_with(name, ".yml"@)
}

/// Whether a file name is a YAML file name.
pub fn check_yaml_ext(filename: &str) -> (r: bool)
    ensures
        r == yaml_name(filename@),
{
    let f = chars_of(filename);
    ends_with_str(&f, ".yaml") || ends_with_str(&f, ".yml")
}

/// Whether a piece between separators names nothing: it is empty or `.`.
pub open spec fn blank_piece(piece: Seq<char>) -> bool {
    piece.len() == 0 || piece == "."@
}

/// The pieces that name something, in order.
pub open spec fn names(pieces: Seq<Seq<char>>) -> Seq<Seq<char>>
    decreases pieces.len(),
{
    if pieces.len() == 0 {
        seq![]
    } else if blank_piece(pieces.last()) {
        names(pieces.drop_last())
    } else {
        names(pieces.drop_last()).push(pieces.last())
    }
}

/// Components of a path (`Path::components`): `/` for the root of an
/// absolute path, or `.` when a relative path begins with a `.` piece,
/// then the names between separators; repeated separators and `.`
/// pieces elsewhere count for nothing.
pub open spec fn components(p: Seq<char>) -> Seq<Seq<char>> {
    let pieces = split(p, '/');
    if starts_with(p, "/"@) {
        seq!["/"@] + names(pieces)
    } else if pieces[0] == "."@ {
        seq!["."@] + names(pieces)
    } else {
        names(pieces)
    }
}

/// `p` lies under `base` (`Path::starts_with`): the components of `base`
/// begin those of `p`.
pub open spec fn path_under(p: Seq<char>, base: Seq<char>) -> bool {
    let a = components(p);
    let b = components(base);
    b.len() <= a.len() && a.take(b.len() as int) == b
}

fn components_of(p: &str) -> (r: Vec<Vec<char>>)
    ensures
        seqs_of(r@) == components(p@),
{
    let v = chars_of(p);
    let pieces = split_chars(&v, '/');
    let ghost ps = seqs_of(pieces@);
    proof {
        crate::text::lemma_split_nonempty(p@, '/');
        reveal_strlit(".");
    }
    assert(ps[0] == pieces@[0]@);
    let mut out: Vec<Vec<char>> = Vec::new();
    if starts_with_str(&v, "/") {
        out.push(chars_of("/"));
    } else if eq_str(&pieces[0], ".") {
        out.push(chars_of("."));
    }
    let ghost root = seqs_of(out@);
    assert(root =~= (if starts_with(p@, "/"@) {
        seq!["/"@]
    } else if ps[0] == "."@ {
        seq!["."@]
    } else {
        Seq::<Seq<char>>::empty()
    }));
    let mut i: usize = 0;
    assert(ps.take(0) =~= Seq::<Seq<char>>::empty());
    assert(seqs_of(out@) =~= root + names(ps.take(0)));
    while i < pieces.len()
        invariant
            i <= pieces@.len(),
            ps == seqs_of(pieces@),
            ps == split(p@, '/'),
            seqs_of(out@) == root + names(ps.take(i as int)),
        decreases pieces@.len() - i,
    {
        let ghost tk = ps.take(i + 1);
        assert(tk.drop_last() =~= ps.take(i as int));
        assert(tk.last() == pieces@[i as int]@);
        if pieces[i].len() > 0 && !eq_str(&pieces[i], ".") {
            let ghost before = seqs_of(out@);
            out.push(crate::text::copy_chars(&pieces[i]));
            assert(seqs_of(out@) =~= before.push(pieces@[i as int]@));
        }
        i = i + 1;
    }
    assert(ps.take(pieces@.len() as int) =~= ps);
    assert(seqs_of(out@) =~= components(p@));
    out
}

/// Whether the canonical path `p` lies under the canonical path `base`.
pub fn is_under(p: &str, base: &str) -> (r: bool)
    ensures
        r == path_under(p@, base@),
{
    let a = components_of(p);
    let b = components_of(base);
    if b.len() > a.len() {
        return false;
    }
    let mut i: usize = 0;
    while i < b.len()
        invariant
            i <= b@.len() <= a@.len(),
            seqs_of(a@) == components(p@),
            seqs_of(b@) == components(base@),
            forall|j: int| 0 <= j < i ==> seqs_of(a@)[j] == seqs_of(b@)[j],
        decreases b@.len() - i,
    {
        let same = crate::text::starts_with_chars(&a[i], &b[i]) && a[i].len() == b[i].len();
        proof {
            if same {
                assert(a@[i as int]@ =~= a@[i as int]@.take(b@[i as int]@.len() as int));
            }
            if a@[i as int]@ == b@[i as int]@ {
                assert(a@[i as int]@.take(b@[i as int]@.len() as int) =~= b@[i as int]@);
            }
        }
        if !same {
            assert(seqs_of(a@).take(b@.len() as int)[i as int] != seqs_of(b@)[i as int]);
            return false;
        }
        i = i + 1;
    }
    assert(seqs_of(a@).take(b@.len() as int) =~= seqs_of(b@));
    true
}

/// Two paths name the same place component by component (`Path` equality).
pub open spec fn same_path(a: Seq<char>, b: Seq<char>) -> bool {
    components(a) == components(b)
}

/// Whether two paths are equal as paths.
pub fn paths_equal(a: &str, b: &str) -> (r: bool)
    ensures
        r == same_path(a@, b@),
{
    let ab = is_under(a, b);
    let ba = is_under(b, a);
    proof {
        let ca = components(a@);
        let cb = components(b@);
        if ab && ba {
            assert(ca.take(cb.len() as int) =~= ca);
        }
        if ca == cb {
            assert(ca.take(cb.len() as int) =~= cb);
        }
    }
    ab && ba
}

/// A file of the `configs` directory that is the active configuration.
pub open spec fn is_active_file(dir_name: Seq<char>, file_path: Seq<char>, active_path: Seq<char>) -> bool {
    dir_name == "configs"@ && same_path(file_path, active_path)
}

/// Whether a managed file is the active configuration file.
pub fn is_active_config(dir_name: &str, file_path: &str, active_path: &str) -> (r: bool)
    ensures
        r == is_active_file(dir_name@, file_path@, active_path@),
{
    eq_str(&chars_of(dir_name), "configs") && paths_equal(file_path, active_path)
}

/// A file path is safe when it lies under the base directory: judged on
/// the canonical file path when it exists, else on its canonical parent
/// directory; unsafe when neither can be resolved or the base cannot.
pub open spec fn path_safe(
    canonical_path: Option<Seq<char>>,
    canonical_parent: Option<Seq<char>>,
    canonical_base: Option<Seq<char>>,
) -> bool {
    match (canonical_path, canonical_base) {
        (Some(p), Some(b)) => path_under(p, b),
        _ => match (canonical_parent, canonical_base) {
            (Some(q), Some(b)) => path_under(q, b),
            _ => false,
        },
    }
}

/// View of an optional string.
pub open spec fn opt_text(o: Option<String>) -> Option<Seq<char>> {
    match o {
        Some(s) => Some(s@),
        None => None,
    }
}

/// Whether a file path is safe, from the canonical forms of the path,
/// of its parent directory and of the base directory (`None` where the
/// path could not be resolved).
pub fn is_path_safe(
    canonical_path: Option<String>,
    canonical_parent: Option<String>,
    canonical_base: Option<String>,
) -> (r: bool)
    ensures
        r == path_safe(opt_text(canonical_path), opt_text(canonical_parent), opt_text(canonical_base)),
{
    match (&canonical_path, &canonical_base) {
        (Some(p), Some(b)) => is_under(p.as_str(), b.as_str()),
        _ => match (&canonical_parent, &canonical_base) {
            (Some(q), Some(b)) => is_under(q.as_str(), b.as_str()),
            _ => false,
        },
    }
}

/// Request to create a file.
pub struct CreateFileRequest {
    pub filename: String,
    pub content: String,
}

/// Request to overwrite a file.
pub struct UpdateFileRequest {
    pub content: String,
}

/// Request to rename a file.
pub struct RenameFileRequest {
    pub new_filename: String,
}

/// Request to choose the active configuration file.
pub struct SetActiveConfigRequest {
    pub filename: String,
}

} // verus!
