//! How a package directory is laid out: the names of its two declaration
//! files, and what the path of the secondary file says of the package.

use vstd::prelude::*;
use vstd::string::StringExecFns;
use crate::path::{
    components, dot, is_rooted, is_segment, join_path, lemma_components_of_text,
    lemma_components_well_formed, root, split, text_first, text_of, well_formed,
};
use crate::text::{option_view, str_eq, views};

verus! {

/// The name of the primary declaration file of a package.
pub open spec fn primary_name() -> Seq<char> {
    seq!['s', 'p', 'e', 'c']
}

/// The name of the secondary declaration file of a package.
pub open spec fn secondary_name() -> Seq<char> {
    seq!['d', 'e', 'f', 'i', 'n', 'e', 's']
}

/// Why a secondary path has no primary path.
#[derive(Debug, Clone, Copy, PartialEq, Eq, Structural)]
pub enum PathError {
    /// The path names nothing below the root: it has no directory.
    DirectoryIsRoot,
    /// The file lies in the topmost directory, which has no parent.
    ParentIsRoot,
}

/// What `error` reads as for the secondary path `defines`.
pub open spec fn path_error_text(error: PathError, defines: Seq<char>) -> Seq<char> {
    match error {
        PathError::DirectoryIsRoot => "The directory of defines file "@ + defines + " is root."@,
        PathError::ParentIsRoot => "The parent directory of defines file "@ + defines
            + " is root."@,
    }
}

impl PathError {
    /// The error in words, for the secondary path that it was raised for.
    pub fn describe(&self, defines_path: &str) -> (r: String)
        ensures
            r@ == path_error_text(*self, defines_path@),
    {
        let mut out = match self {
            PathError::DirectoryIsRoot => "The directory of defines file ".to_owned(),
            PathError::ParentIsRoot => "The parent directory of defines file ".to_owned(),
        };
        out.append(defines_path);
        out.append(" is root.");
        out
    }
}

/// The components of the directory that holds what `comps` names: all but
/// the last. Neither the root nor the path without components has one.
pub open spec fn parent_of(comps: Seq<Seq<char>>) -> Option<Seq<Seq<char>>> {
    if comps.len() == 0 || (comps.len() == 1 && is_rooted(comps)) {
        None
    } else {
        Some(comps.drop_last())
    }
}

/// The components of the directory two levels above what `comps` names.
pub open spec fn grandparent_of(comps: Seq<Seq<char>>) -> Option<Seq<Seq<char>>> {
    match parent_of(comps) {
        Some(dir) => parent_of(dir),
        None => None,
    }
}

/// The primary path that belongs to the secondary path `defines`: two
/// levels up, then the primary file's name. A path that starts at the root
/// gives one that starts there too.
pub open spec fn spec_path_of(defines: Seq<char>) -> Result<Seq<char>, PathError> {
    match parent_of(components(defines)) {
        None => Err(PathError::DirectoryIsRoot),
        Some(dir) => match parent_of(dir) {
            None => Err(PathError::ParentIsRoot),
            Some(up) => Ok(text_of(up.push(primary_name()))),
        },
    }
}

/// The name of the package that the secondary path `defines` belongs to:
/// its third component from the end.
pub open spec fn package_name_of(defines: Seq<char>) -> Option<Seq<char>> {
    let comps = components(defines);
    if comps.len() >= 3 {
        Some(comps[comps.len() - 3])
    } else {
        None
    }
}

/// The directory of the package that the secondary path `defines` belongs
/// to: the path two levels up.
pub open spec fn package_dir_of(defines: Seq<char>) -> Option<Seq<char>> {
    match grandparent_of(components(defines)) {
        Some(up) => Some(text_of(up)),
        None => None,
    }
}

/// How many of the first `count` components of `comps` make up the
/// directory that holds what those name.
fn parent_count(comps: &Vec<String>, count: usize) -> (r: Option<usize>)
    requires
        count <= comps.len(),
    ensures
        match r {
            Some(n) => n + 1 == count && parent_of(views(comps@).take(count as int)) == Some(
                views(comps@).take(n as int),
            ),
            None => parent_of(views(comps@).take(count as int)) is None,
        },
{
    proof {
        reveal_strlit("/");
    }
    assert("/"@ == root());
    let ghost taken = views(comps@).take(count as int);
    if count == 0 {
        return None;
    }
    assert(taken[0] == comps@[0]@);
    if count == 1 && str_eq(comps[0].as_str(), "/") {
        return None;
    }
    assert(taken.drop_last() == views(comps@).take(count - 1));
    Some(count - 1)
}

/// The components of the primary path for the secondary path with the
/// components `comps`.
pub(crate) fn primary_parts(comps: &Vec<String>) -> (r: Result<Vec<String>, PathError>)
    ensures
        match r {
            Ok(p) => grandparent_of(views(comps@)) is Some && views(p@) == grandparent_of(
                views(comps@),
            )->Some_0.push(primary_name()),
            Err(PathError::DirectoryIsRoot) => parent_of(views(comps@)) is None,
            Err(PathError::ParentIsRoot) => parent_of(views(comps@)) is Some && grandparent_of(
                views(comps@),
            ) is None,
        },
{
    assert(views(comps@).take(comps.len() as int) == views(comps@));
    let dir = match parent_count(comps, comps.len()) {
        Some(dir) => dir,
        None => {
            return Err(PathError::DirectoryIsRoot);
        },
    };
    let keep = match parent_count(comps, dir) {
        Some(keep) => keep,
        None => {
            return Err(PathError::ParentIsRoot);
        },
    };
    let mut out: Vec<String> = Vec::new();
    let mut i: usize = 0;
    assert(views(out@) == views(comps@).take(0));
    while i < keep
        invariant
            i <= keep <= comps.len(),
            views(out@) == views(comps@).take(i as int),
        decreases keep - i,
    {
        let ghost before = out@;
        let part = comps[i].clone();
        assert(part@ == comps@[i as int]@);
        out.push(part);
        assert(views(out@) == views(before).push(part@));
        assert(views(comps@).take(i + 1) == views(comps@).take(i as int).push(part@));
        i += 1;
    }
    proof {
        reveal_strlit("spec");
    }
    let ghost before = out@;
    out.push("spec".to_owned());
    assert("spec"@ == primary_name());
    assert(views(out@) == views(before).push(primary_name()));
    Ok(out)
}

/// The primary path that belongs to the secondary path `defines_path`.
///
/// The result lies two levels above the secondary file and carries the
/// primary file's name; it starts at the root if the secondary path does. A
/// secondary path that names nothing, or a file in the topmost directory,
/// has none.
pub fn defines_path_to_spec_path(defines_path: &str) -> (r: Result<String, PathError>)
    ensures
        match r {
            Ok(p) => spec_path_of(defines_path@) == Ok::<Seq<char>, PathError>(p@),
            Err(e) => spec_path_of(defines_path@) == Err::<Seq<char>, PathError>(e),
        },
{
    let comps = split(defines_path);
    match primary_parts(&comps) {
        Ok(p) => Ok(join_path(&p)),
        Err(e) => Err(e),
    }
}

/// The name of the package that the secondary path `defines_path` belongs
/// to, if the path is deep enough to have one.
pub fn package_name(defines_path: &str) -> (r: Option<String>)
    ensures
        option_view(r) == package_name_of(defines_path@),
{
    let comps = split(defines_path);
    if comps.len() >= 3 {
        Some(comps[comps.len() - 3].clone())
    } else {
        None
    }
}

/// The directory of the package that the secondary path `defines_path`
/// belongs to, if the path is deep enough to have one.
pub fn package_dir(defines_path: &str) -> (r: Option<String>)
    ensures
        option_view(r) == package_dir_of(defines_path@),
{
    let comps = split(defines_path);
    assert(views(comps@).take(comps.len() as int) == views(comps@));
    let dir = match parent_count(&comps, comps.len()) {
        Some(dir) => dir,
        None => {
            return None;
        },
    };
    match parent_count(&comps, dir) {
        Some(up) => Some(text_first(&comps, up)),
        None => None,
    }
}

/// The primary path of a pair has the components of the directory two
/// levels above the secondary file, and then the primary file's name.
pub proof fn lemma_pairing(defines: Seq<char>)
    requires
        spec_path_of(defines) is Ok,
    ensures
        grandparent_of(components(defines)) is Some,
        components(spec_path_of(defines)->Ok_0) == grandparent_of(
            components(defines),
        )->Some_0.push(primary_name()),
{
    let comps = components(defines);
    let up = grandparent_of(comps)->Some_0;
    let target = up.push(primary_name());
    lemma_components_well_formed(defines);
    assert(is_segment(primary_name()));
    assert(primary_name() != dot()) by {
        assert(primary_name().len() != dot().len());
    }
    assert(well_formed(target)) by {
        assert forall|i: int| 0 <= i < target.len() implies {
            &&& is_segment(#[trigger] target[i]) || (i == 0 && target[i] == root())
            &&& target[i] == dot() ==> i == 0
        } by {
            if i < target.len() - 1 {
                assert(target[i] == comps[i]);
            }
        }
    }
    lemma_components_of_text(target);
}

/// The primary path of a file that lies two levels below a directory is
/// the primary file's name directly in that directory.
pub proof fn lemma_spec_path_of_joined(dir: Seq<Seq<char>>, sub: Seq<char>, file: Seq<char>)
    requires
        well_formed(dir.push(sub).push(file)),
        sub != root(),
        file != root(),
    ensures
        spec_path_of(text_of(dir.push(sub).push(file))) == Ok::<Seq<char>, PathError>(
            text_of(dir.push(primary_name())),
        ),
{
    let comps = dir.push(sub).push(file);
    lemma_components_of_text(comps);
    assert(comps.drop_last() == dir.push(sub));
    assert(dir.push(sub).drop_last() == dir);
    if dir.len() == 0 {
        assert(comps[0] == sub);
    } else {
        assert(comps[0] == dir[0]);
    }
}

} // verus!
