//! Discovery of the package directories of a tree from the list of its
//! files.

use vstd::prelude::*;
use crate::layout::{
    lemma_pairing, primary_name, primary_parts, secondary_name, spec_path_of, PathError,
};
use crate::path::{components, join_path, split};
use crate::text::{str_eq, views};

verus! {

/// `path` names a secondary declaration file.
pub open spec fn is_secondary(path: Seq<char>) -> bool {
    components(path).len() > 0 && components(path).last() == secondary_name()
}

/// Two paths name the same place in the tree.
pub open spec fn same_path(a: Seq<char>, b: Seq<char>) -> bool {
    components(a) == components(b)
}

/// `path` is among the first `upto` of `files`.
pub open spec fn listed(files: Seq<Seq<char>>, upto: int, path: Seq<char>) -> bool {
    exists|j: int| 0 <= j < upto && j < files.len() && same_path(#[trigger] files[j], path)
}

/// The pairs of primary and secondary path that the first `upto` of `files`
/// give, in the order of their secondary paths in `files`.
///
/// Each secondary file counts once, where it is first listed, and gives a
/// pair if it has a primary path and that path is listed anywhere in
/// `files`. A secondary file without a primary path, such as one in the
/// topmost directory, gives no pair and does not touch the others.
pub open spec fn discovered(files: Seq<Seq<char>>, upto: int) -> Seq<(Seq<char>, Seq<char>)>
    decreases upto,
{
    if upto <= 0 {
        Seq::empty()
    } else {
        let earlier = discovered(files, upto - 1);
        let file = files[upto - 1];
        if is_secondary(file) && !listed(files, upto - 1, file) {
            match spec_path_of(file) {
                Ok(primary) => if listed(files, files.len() as int, primary) {
                    earlier.push((primary, file))
                } else {
                    earlier
                },
                Err(_) => earlier,
            }
        } else {
            earlier
        }
    }
}

/// Pairs of paths as plain text, in order.
pub open spec fn pair_views(v: Seq<(String, String)>) -> Seq<(Seq<char>, Seq<char>)> {
    Seq::new(v.len(), |i: int| (v[i].0@, v[i].1@))
}

/// The secondary files among the first `upto` of `files` that give no pair
/// because the primary path that belongs to them is not listed: for each,
/// that primary path and the secondary path, in the order of `files`.
pub open spec fn unpaired(files: Seq<Seq<char>>, upto: int) -> Seq<(Seq<char>, Seq<char>)>
    decreases upto,
{
    if upto <= 0 {
        Seq::empty()
    } else {
        let earlier = unpaired(files, upto - 1);
        let file = files[upto - 1];
        if is_secondary(file) && !listed(files, upto - 1, file) {
            match spec_path_of(file) {
                Ok(primary) => if listed(files, files.len() as int, primary) {
                    earlier
                } else {
                    earlier.push((primary, file))
                },
                Err(_) => earlier,
            }
        } else {
            earlier
        }
    }
}

/// What the discovery of package directories has found.
#[derive(Debug, Clone, PartialEq, Eq)]
pub struct Discovery {
    /// The package directories: for each, the path of its primary and of its
    /// secondary declaration file.
    pub pairs: Vec<(String, String)>,
    /// The directories left out for want of their primary file: for each,
    /// the path where it was looked for, and the secondary path.
    pub missing: Vec<(String, String)>,
}

/// `parts` holds, file by file, the segments of `files`.
spec fn split_of(parts: Seq<Vec<String>>, files: Seq<Seq<char>>) -> bool {
    &&& parts.len() == files.len()
    &&& forall|j: int|
        0 <= j < parts.len() ==> views((#[trigger] parts[j])@) == components(files[j])
}

/// Whether two paths, given by their segments, name the same place.
fn same_parts(a: &Vec<String>, b: &Vec<String>) -> (r: bool)
    ensures
        r == (views(a@) == views(b@)),
{
    if a.len() != b.len() {
        assert(views(a@).len() != views(b@).len());
        return false;
    }
    let mut i: usize = 0;
    while i < a.len()
        invariant
            i <= a.len(),
            a.len() == b.len(),
            forall|k: int| 0 <= k < i ==> a@[k]@ == b@[k]@,
        decreases a.len() - i,
    {
        if !str_eq(a[i].as_str(), b[i].as_str()) {
            assert(views(a@)[i as int] != views(b@)[i as int]);
            return false;
        }
        i += 1;
    }
    assert(views(a@) =~= views(b@));
    true
}

/// Whether the path with the segments `target` is among the first `upto`
/// files.
fn is_listed(
    parts: &Vec<Vec<String>>,
    upto: usize,
    target: &Vec<String>,
    Ghost(files): Ghost<Seq<Seq<char>>>,
    Ghost(path): Ghost<Seq<char>>,
) -> (r: bool)
    requires
        split_of(parts@, files),
        upto <= parts.len(),
        views(target@) == components(path),
    ensures
        r == listed(files, upto as int, path),
{
    let mut j: usize = 0;
    while j < upto
        invariant
            j <= upto <= parts.len(),
            split_of(parts@, files),
            views(target@) == components(path),
            forall|k: int| 0 <= k < j ==> !same_path(#[trigger] files[k], path),
        decreases upto - j,
    {
        assert(views(parts@[j as int]@) == components(files[j as int]));
        if same_parts(&parts[j], target) {
            assert(same_path(files[j as int], path));
            return true;
        }
        j += 1;
    }
    false
}

/// The package directories of a tree whose files are `files`, and the
/// directories left out for want of their primary file.
///
/// A directory counts if it holds a secondary file and the tree lists the
/// primary file that belongs to it. Pairs and left-out directories come in
/// the order in which `files` lists the secondary files. A secondary file
/// that has no primary path, such as one in the topmost directory, is in
/// neither list.
pub fn discover(files: &Vec<String>) -> (r: Discovery)
    ensures
        pair_views(r.pairs@) == discovered(views(files@), files.len() as int),
        pair_views(r.missing@) == unpaired(views(files@), files.len() as int),
{
    let ghost texts = views(files@);
    let mut parts: Vec<Vec<String>> = Vec::new();
    let mut k: usize = 0;
    while k < files.len()
        invariant
            k <= files.len(),
            texts == views(files@),
            split_of(parts@, texts.take(k as int)),
        decreases files.len() - k,
    {
        let ghost before = parts@;
        parts.push(split(files[k].as_str()));
        assert forall|j: int| 0 <= j < parts@.len() implies views((#[trigger] parts@[j])@)
            == components(texts.take(k + 1)[j]) by {
            if j < k {
                assert(parts@[j] == before[j]);
                assert(texts.take(k as int)[j] == texts.take(k + 1)[j]);
            }
        }
        k += 1;
    }
    assert(texts.take(files.len() as int) == texts);

    let mut out: Vec<(String, String)> = Vec::new();
    let mut missing: Vec<(String, String)> = Vec::new();
    let mut i: usize = 0;
    assert(pair_views(out@) == Seq::<(Seq<char>, Seq<char>)>::empty());
    assert(pair_views(missing@) == Seq::<(Seq<char>, Seq<char>)>::empty());
    while i < files.len()
        invariant
            i <= files.len(),
            texts == views(files@),
            split_of(parts@, texts),
            pair_views(out@) == discovered(texts, i as int),
            pair_views(missing@) == unpaired(texts, i as int),
        decreases files.len() - i,
    {
        let file = &parts[i];
        assert(views(file@) == components(texts[i as int]));
        proof {
            reveal_strlit("defines");
        }
        assert("defines"@ == secondary_name());
        let named = file.len() > 0 && str_eq(file[file.len() - 1].as_str(), "defines");
        assert(named == is_secondary(texts[i as int]));
        if named && !is_listed(&parts, i, file, Ghost(texts), Ghost(texts[i as int])) {
            match primary_parts(file) {
                Err(_) => {},
                Ok(primary) => {
                    proof {
                        lemma_pairing(texts[i as int]);
                    }
                    let ghost wanted = spec_path_of(texts[i as int])->Ok_0;
                    let joined = join_path(&primary);
                    if is_listed(&parts, parts.len(), &primary, Ghost(texts), Ghost(wanted)) {
                        let ghost before = out@;
                        out.push((joined, files[i].clone()));
                        assert(pair_views(out@) == pair_views(before).push(
                            (wanted, texts[i as int]),
                        ));
                    } else {
                        let ghost before = missing@;
                        missing.push((joined, files[i].clone()));
                        assert(pair_views(missing@) == pair_views(before).push(
                            (wanted, texts[i as int]),
                        ));
                    }
                },
            }
        }
        i += 1;
    }
    Discovery { pairs: out, missing }
}

/// The package directories of a tree whose files are `files`: for each, the
/// path of its primary and of its secondary declaration file.
///
/// A directory counts if it holds a secondary file and the tree lists the
/// primary file that belongs to it; one without its primary file is left
/// out, and so is a secondary file that has no primary path. The pairs come
/// in the order in which `files` lists the secondary files.
pub fn get_tree_dirs(files: &Vec<String>) -> (r: Vec<(String, String)>)
    ensures
        pair_views(r@) == discovered(views(files@), files.len() as int),
{
    discover(files).pairs
}

/// Each discovered pair holds a secondary file and the primary path that
/// belongs to it, and the tree lists both.
pub proof fn lemma_discovered_pairs(files: Seq<Seq<char>>, upto: int)
    requires
        0 <= upto <= files.len(),
    ensures
        forall|k: int|
            0 <= k < discovered(files, upto).len() ==> {
                let pair = #[trigger] discovered(files, upto)[k];
                &&& is_secondary(pair.1)
                &&& spec_path_of(pair.1) == Ok::<Seq<char>, PathError>(pair.0)
                &&& listed(files, upto, pair.1)
                &&& listed(files, files.len() as int, pair.0)
            },
    decreases upto,
{
    if upto > 0 {
        lemma_discovered_pairs(files, upto - 1);
        let earlier = discovered(files, upto - 1);
        let now = discovered(files, upto);
        let file = files[upto - 1];
        assert(same_path(file, file));
        assert forall|k: int| 0 <= k < now.len() implies {
            let pair = #[trigger] now[k];
            &&& is_secondary(pair.1)
            &&& spec_path_of(pair.1) == Ok::<Seq<char>, PathError>(pair.0)
            &&& listed(files, upto, pair.1)
            &&& listed(files, files.len() as int, pair.0)
        } by {
            if k < earlier.len() {
                assert(now[k] == earlier[k]);
                let j = choose|j: int|
                    0 <= j < upto - 1 && j < files.len() && same_path(
                        #[trigger] files[j],
                        earlier[k].1,
                    );
                assert(same_path(files[j], now[k].1));
            }
        }
    }
}

/// Looking at one more file only adds a pair behind those already found.
proof fn lemma_discovery_grows(files: Seq<Seq<char>>, upto: int)
    requires
        0 < upto,
    ensures
        discovered(files, upto - 1).len() <= discovered(files, upto).len(),
        forall|k: int|
            0 <= k < discovered(files, upto - 1).len() ==> discovered(files, upto)[k]
                == #[trigger] discovered(files, upto - 1)[k],
{
}

/// No secondary file with a listed primary file is missed: it, or an
/// earlier listing of the same path, is the secondary path of a discovered
/// pair, whatever else the tree lists.
pub proof fn lemma_discovery_complete(files: Seq<Seq<char>>, upto: int, at: int)
    requires
        0 <= at < upto <= files.len(),
        is_secondary(files[at]),
        spec_path_of(files[at]) is Ok,
        listed(files, files.len() as int, spec_path_of(files[at])->Ok_0),
    ensures
        exists|k: int|
            0 <= k < discovered(files, upto).len() && same_path(
                (#[trigger] discovered(files, upto)[k]).1,
                files[at],
            ),
    decreases upto, at,
{
    lemma_discovery_grows(files, upto);
    let earlier = discovered(files, upto - 1);
    let now = discovered(files, upto);
    if at < upto - 1 {
        lemma_discovery_complete(files, upto - 1, at);
        let k = choose|k: int|
            0 <= k < earlier.len() && same_path((#[trigger] earlier[k]).1, files[at]);
        assert(now[k] == earlier[k]);
    } else if listed(files, upto - 1, files[at]) {
        let j = choose|j: int|
            0 <= j < upto - 1 && j < files.len() && same_path(#[trigger] files[j], files[at]);
        lemma_discovery_complete(files, upto - 1, j);
        let k = choose|k: int|
            0 <= k < earlier.len() && same_path((#[trigger] earlier[k]).1, files[j]);
        assert(now[k] == earlier[k]);
    } else {
        assert(now == earlier.push((spec_path_of(files[at])->Ok_0, files[at])));
        assert(same_path(now[now.len() - 1].1, files[at]));
    }
}

/// No package directory is discovered twice: the secondary paths of two
/// discovered pairs name different places.
pub proof fn lemma_discovery_unique(files: Seq<Seq<char>>, upto: int)
    requires
        0 <= upto <= files.len(),
    ensures
        forall|a: int, b: int|
            0 <= a < b < discovered(files, upto).len() ==> !same_path(
                (#[trigger] discovered(files, upto)[a]).1,
                (#[trigger] discovered(files, upto)[b]).1,
            ),
    decreases upto,
{
    if upto > 0 {
        lemma_discovery_grows(files, upto);
        lemma_discovery_unique(files, upto - 1);
        lemma_discovered_pairs(files, upto - 1);
        let earlier = discovered(files, upto - 1);
        let now = discovered(files, upto);
        let file = files[upto - 1];
        assert forall|a: int, b: int| 0 <= a < b < now.len() implies !same_path(
            (#[trigger] now[a]).1,
            (#[trigger] now[b]).1,
        ) by {
            assert(now[a] == earlier[a]);
            if b < earlier.len() {
                assert(now[b] == earlier[b]);
            } else {
                assert(now[b].1 == file);
                assert(listed(files, upto - 1, earlier[a].1));
                let j = choose|j: int|
                    0 <= j < upto - 1 && j < files.len() && same_path(
                        #[trigger] files[j],
                        earlier[a].1,
                    );
                if same_path(now[a].1, now[b].1) {
                    assert(same_path(files[j], file));
                    assert(listed(files, upto - 1, file));
                }
            }
        }
    }
}

/// A file that is no secondary file, or a secondary file that gives no
/// pair, leaves the pairs of the files before it as they are.
pub proof fn lemma_no_pair_no_change(files: Seq<Seq<char>>, upto: int)
    requires
        0 < upto <= files.len(),
        !is_secondary(files[upto - 1]) || spec_path_of(files[upto - 1]) is Err || !listed(
            files,
            files.len() as int,
            spec_path_of(files[upto - 1])->Ok_0,
        ),
    ensures
        discovered(files, upto) == discovered(files, upto - 1),
{
}

/// Whether a path is among the first files of a listing does not depend on
/// a file of the listing that names another place.
proof fn lemma_listed_without(files: Seq<Seq<char>>, at: int, upto: int, path: Seq<char>)
    requires
        0 <= at < files.len(),
        0 <= upto <= files.len(),
        !same_path(files[at], path),
    ensures
        listed(files, upto, path) == listed(
            files.remove(at),
            if upto <= at {
                upto
            } else {
                upto - 1
            },
            path,
        ),
{
    let rest = files.remove(at);
    let upto_rest = if upto <= at {
        upto
    } else {
        upto - 1
    };
    if listed(files, upto, path) {
        let j = choose|j: int|
            0 <= j < upto && j < files.len() && same_path(#[trigger] files[j], path);
        let k = if j < at {
            j
        } else {
            j - 1
        };
        assert(rest[k] == files[j]);
        assert(same_path(rest[k], path));
    }
    if listed(rest, upto_rest, path) {
        let k = choose|k: int|
            0 <= k < upto_rest && k < rest.len() && same_path(#[trigger] rest[k], path);
        let j = if k < at {
            k
        } else {
            k + 1
        };
        assert(files[j] == rest[k]);
        assert(same_path(files[j], path));
    }
}

/// The pairs among the first files of a listing are those of the listing
/// without a secondary file that has no primary path.
proof fn lemma_without_stray(files: Seq<Seq<char>>, at: int, upto: int)
    requires
        0 <= at < files.len(),
        0 <= upto <= files.len(),
        is_secondary(files[at]),
        spec_path_of(files[at]) is Err,
    ensures
        discovered(files, upto) == discovered(
            files.remove(at),
            if upto <= at {
                upto
            } else {
                upto - 1
            },
        ),
    decreases upto,
{
    let rest = files.remove(at);
    if upto > 0 {
        lemma_without_stray(files, at, upto - 1);
        let file = files[upto - 1];
        if upto - 1 == at {
        } else if same_path(files[at], file) {
            let k = if upto - 1 < at {
                upto - 1
            } else {
                upto - 2
            };
            assert(rest[k] == file);
        } else {
            let k = if upto - 1 < at {
                upto - 1
            } else {
                upto - 2
            };
            assert(rest[k] == file);
            lemma_listed_without(files, at, upto - 1, file);
            if is_secondary(file) && spec_path_of(file) is Ok {
                let primary = spec_path_of(file)->Ok_0;
                lemma_pairing(file);
                assert(components(primary).last() == primary_name());
                assert(primary_name() != secondary_name()) by {
                    assert(primary_name().len() != secondary_name().len());
                }
                lemma_listed_without(files, at, files.len() as int, primary);
            }
        }
    }
}

/// A secondary file that has no primary path, such as one in the topmost
/// directory, changes nothing for the others: the pairs of a tree are those
/// of the tree without that file.
pub proof fn lemma_stray_file_changes_nothing(files: Seq<Seq<char>>, at: int)
    requires
        0 <= at < files.len(),
        is_secondary(files[at]),
        spec_path_of(files[at]) is Err,
    ensures
        discovered(files, files.len() as int) == discovered(
            files.remove(at),
            files.len() - 1,
        ),
{
    lemma_without_stray(files, at, files.len() as int);
}

} // verus!
