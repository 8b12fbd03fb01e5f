//! Path helpers shared by the configuration and the request router.

use vstd::prelude::*;
use crate::outside::{absolutize_from, absolutized, home_dir};
use crate::path::{join, skip_chars, spec_is_absolute, spec_join, spec_skip};
use crate::text::{as_opt_str, str_of, text_of};

verus! {

/// Whether `p` names the site root: the empty path or a lone `/`.
pub open spec fn spec_is_empty_root_url(p: Seq<char>) -> bool {
    p.len() == 0 || p == seq!['/']
}

/// Tells whether `p` is empty or exactly `/`.
pub fn is_empty_root_url(p: &str) -> (b: bool)
    ensures
        b == spec_is_empty_root_url(p@),
{
    let n = p.unicode_len();
    if n > 1 {
        return false;
    }
    if n == 0 {
        return true;
    }
    let c = p.get_char(0);
    assert(p@ =~= seq![p@[0]]);
    c == '/'
}

/// How a path is to be resolved, by its first character.
#[derive(Clone, Copy, Debug, PartialEq, Eq, Structural)]
pub enum PathKind {
    /// The path starts at the root and stands as it is.
    Absolute,
    /// The path starts with `~`: what follows is taken from the home
    /// directory.
    Home,
    /// Any other path is taken from the base path.
    Relative,
}

/// The kind of a path that is not empty.
pub open spec fn spec_path_kind(file_path: Seq<char>) -> PathKind {
    if file_path[0] == '/' {
        PathKind::Absolute
    } else if file_path[0] == '~' {
        PathKind::Home
    } else {
        PathKind::Relative
    }
}

/// Tells how `file_path` is to be resolved.
pub fn path_kind(file_path: &str) -> (kind: PathKind)
    requires
        file_path@.len() > 0,
    ensures
        kind == spec_path_kind(file_path@),
{
    let first = file_path.get_char(0);
    if first == '/' {
        PathKind::Absolute
    } else if first == '~' {
        PathKind::Home
    } else {
        PathKind::Relative
    }
}

/// The path that `file_path` resolves to, given the home directory and what
/// the path is when made absolute against the base path: an absolute path
/// is kept, a path `~rest` is `rest` joined to the home directory, and any
/// other path is its absolute form. `None` where what is needed is missing.
pub open spec fn spec_resolve_from(
    file_path: Seq<char>,
    home: Option<Seq<char>>,
    absolute: Option<Seq<char>>,
) -> Option<Seq<char>> {
    match spec_path_kind(file_path) {
        PathKind::Absolute => Some(file_path),
        PathKind::Home => match home {
            Some(dir) => Some(spec_join(dir, spec_skip(file_path, 1))),
            None => None,
        },
        PathKind::Relative => absolute,
    }
}

/// Resolves `file_path` from the home directory and its absolute form.
pub fn resolve_from(file_path: &str, home: Option<&str>, absolute: Option<String>) -> (resolved: Option<String>)
    requires
        file_path@.len() > 0,
    ensures
        text_of(resolved) == spec_resolve_from(file_path@, str_of(home), text_of(absolute)),
{
    match path_kind(file_path) {
        PathKind::Absolute => Some(String::from_str(file_path)),
        PathKind::Home => match home {
            Some(dir) => Some(join(dir, skip_chars(file_path, 1))),
            None => None,
        },
        PathKind::Relative => absolute,
    }
}

/// Whether `file_path` can be resolved against `base_path`: it is not
/// empty, and where it is taken from the base path, that starts at the root.
pub open spec fn spec_resolvable(base_path: Seq<char>, file_path: Seq<char>) -> bool {
    &&& file_path.len() > 0
    &&& spec_path_kind(file_path) == PathKind::Relative ==> spec_is_absolute(base_path)
}

/// Whether `resolved` is what `file_path` resolves to against `base_path`,
/// for some home directory.
pub open spec fn resolves_to(base_path: Seq<char>, file_path: Seq<char>, resolved: Seq<char>) -> bool {
    match spec_path_kind(file_path) {
        PathKind::Absolute => resolved == file_path,
        PathKind::Home => exists|dir: Seq<char>| resolved == spec_join(dir, spec_skip(file_path, 1)),
        PathKind::Relative => resolved == absolutized(file_path, base_path),
    }
}

/// Resolves `file_path` as a shell user would read it: an absolute path is
/// kept, `~rest` is taken from the home directory of the user who runs the
/// process, and any other path is made absolute against `base_path`, its
/// `.` and `..` resolved. `None` only where the home directory is needed
/// and cannot be found.
pub fn resolve_path(base_path: &str, file_path: &str) -> (resolved: Option<String>)
    requires
        spec_resolvable(base_path@, file_path@),
    ensures
        resolved matches Some(text) ==> resolves_to(base_path@, file_path@, text@),
        spec_path_kind(file_path@) != PathKind::Home ==> resolved is Some,
{
    match path_kind(file_path) {
        PathKind::Absolute => resolve_from(file_path, None, None),
        PathKind::Home => {
            let home = home_dir();
            let resolved = resolve_from(file_path, as_opt_str(&home), None);
            assert(resolved is Some ==> resolved->0@ == spec_join(home->0@, spec_skip(file_path@, 1)));
            resolved
        },
        PathKind::Relative => {
            let absolute = absolutize_from(file_path, base_path);
            resolve_from(file_path, None, absolute)
        },
    }
}

} // verus!
