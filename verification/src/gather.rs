//! Gathering what the package directories of a tree have given.

use vstd::prelude::*;
use vstd::multiset::Multiset;
use crate::context::Context;
use crate::db::abbs::{diagnostics, Diagnostic, PackageError};

verus! {

/// What one package directory has given, as plain text: its package with
/// its context, if it gave one, and its diagnostics.
pub open spec fn outcome_views<P>(v: Seq<(Option<(P, Context)>, Vec<PackageError>)>) -> Seq<
    (Option<(P, Map<Seq<char>, Seq<char>>)>, Seq<Diagnostic>),
> {
    Seq::new(
        v.len(),
        |i: int|
            (
                match v[i].0 {
                    Some((package, context)) => Some((package, context@)),
                    None => None,
                },
                diagnostics(v[i].1@),
            ),
    )
}

/// Packages with their contexts as plain text, in order.
pub open spec fn record_views<P>(v: Seq<(P, Context)>) -> Seq<(P, Map<Seq<char>, Seq<char>>)> {
    Seq::new(v.len(), |i: int| (v[i].0, v[i].1@))
}

/// The packages that the directories gave, in the directories' order.
pub open spec fn records_of<P>(
    outcomes: Seq<(Option<(P, Map<Seq<char>, Seq<char>>)>, Seq<Diagnostic>)>,
) -> Seq<(P, Map<Seq<char>, Seq<char>>)>
    decreases outcomes.len(),
{
    if outcomes.len() == 0 {
        Seq::empty()
    } else {
        let earlier = records_of(outcomes.drop_last());
        match outcomes.last().0 {
            Some(record) => earlier.push(record),
            None => earlier,
        }
    }
}

/// The diagnostics that the directories gave, in the directories' order and
/// for each directory in its own.
pub open spec fn diagnostics_of<P>(
    outcomes: Seq<(Option<(P, Map<Seq<char>, Seq<char>>)>, Seq<Diagnostic>)>,
) -> Seq<Diagnostic>
    decreases outcomes.len(),
{
    if outcomes.len() == 0 {
        Seq::empty()
    } else {
        diagnostics_of(outcomes.drop_last()) + outcomes.last().1
    }
}

/// The packages that one directory gave, as a multiset: one or none.
pub open spec fn record_bag<P>(record: Option<(P, Map<Seq<char>, Seq<char>>)>) -> Multiset<
    (P, Map<Seq<char>, Seq<char>>),
> {
    match record {
        Some(r) => Multiset::singleton(r),
        None => Multiset::empty(),
    }
}

/// Leaving one directory out takes away exactly what that directory gave.
proof fn lemma_without_outcome<P>(
    outcomes: Seq<(Option<(P, Map<Seq<char>, Seq<char>>)>, Seq<Diagnostic>)>,
    at: int,
)
    requires
        0 <= at < outcomes.len(),
    ensures
        diagnostics_of(outcomes).to_multiset() == diagnostics_of(
            outcomes.remove(at),
        ).to_multiset().add(outcomes[at].1.to_multiset()),
        records_of(outcomes).to_multiset() == records_of(outcomes.remove(at)).to_multiset().add(
            record_bag(outcomes[at].0),
        ),
    decreases outcomes.len(),
{
    broadcast use vstd::seq_lib::group_to_multiset_ensures;

    let front = outcomes.drop_last();
    let last = outcomes.last();
    vstd::seq_lib::lemma_multiset_commutative(diagnostics_of(front), last.1);
    if at == outcomes.len() - 1 {
        assert(outcomes.remove(at) == front);
        assert(records_of(front).to_multiset().add(Multiset::empty()) == records_of(
            front,
        ).to_multiset());
    } else {
        let rest = outcomes.remove(at);
        assert(rest.drop_last() == front.remove(at));
        assert(rest.last() == last);
        assert(front[at] == outcomes[at]);
        lemma_without_outcome(front, at);
        vstd::seq_lib::lemma_multiset_commutative(diagnostics_of(front.remove(at)), last.1);
        let d = diagnostics_of(front.remove(at)).to_multiset();
        assert(d.add(outcomes[at].1.to_multiset()).add(last.1.to_multiset()) == d.add(
            last.1.to_multiset(),
        ).add(outcomes[at].1.to_multiset()));
        let r = records_of(front.remove(at)).to_multiset();
        match last.0 {
            Some(record) => {
                assert(r.add(record_bag(outcomes[at].0)).insert(record) == r.insert(record).add(
                    record_bag(outcomes[at].0),
                ));
            },
            None => {},
        }
    }
}

/// The packages and the diagnostics of a tree do not depend on the order in
/// which its directories were scanned: outcomes that differ only in their
/// order give the same packages and the same diagnostics, each as often.
pub proof fn lemma_order_independent<P>(
    a: Seq<(Option<(P, Map<Seq<char>, Seq<char>>)>, Seq<Diagnostic>)>,
    b: Seq<(Option<(P, Map<Seq<char>, Seq<char>>)>, Seq<Diagnostic>)>,
)
    requires
        a.to_multiset() == b.to_multiset(),
    ensures
        records_of(a).to_multiset() == records_of(b).to_multiset(),
        diagnostics_of(a).to_multiset() == diagnostics_of(b).to_multiset(),
    decreases a.len(),
{
    broadcast use vstd::seq_lib::group_to_multiset_ensures;

    if a.len() == 0 {
        assert(a.to_multiset().len() == a.len());
        assert(b.to_multiset().len() == b.len());
    } else {
        let last = a.len() - 1;
        let x = a[last];
        assert(a.contains(x));
        assert(b.to_multiset().count(x) > 0);
        assert(b.contains(x));
        let j = choose|j: int| 0 <= j < b.len() && b[j] == x;
        assert(a.remove(last).to_multiset() == b.remove(j).to_multiset());
        lemma_order_independent(a.remove(last), b.remove(j));
        lemma_without_outcome(a, last);
        lemma_without_outcome(b, j);
    }
}

/// Gathers what the package directories of a tree have given: all packages,
/// and all diagnostics.
///
/// `outcomes` holds, for each directory, what its scan ended with. The
/// result depends on nothing but `outcomes`: it lists packages and
/// diagnostics in the order of the directories.
pub fn scan_packages<P>(outcomes: Vec<(Option<(P, Context)>, Vec<PackageError>)>) -> (r: (
    Vec<(P, Context)>,
    Vec<PackageError>,
))
    ensures
        record_views(r.0@) == records_of(outcome_views(outcomes@)),
        diagnostics(r.1@) == diagnostics_of(outcome_views(outcomes@)),
{
    broadcast use vstd::std_specs::vec::group_vec_axioms;

    let mut pkgs: Vec<(P, Context)> = Vec::new();
    let mut errors: Vec<PackageError> = Vec::new();
    let ghost all = outcomes@;
    assert(outcome_views(all.take(0)) == Seq::<
        (Option<(P, Map<Seq<char>, Seq<char>>)>, Seq<Diagnostic>),
    >::empty());
    assert(record_views(pkgs@) == Seq::<(P, Map<Seq<char>, Seq<char>>)>::empty());
    assert(diagnostics(errors@) == Seq::<Diagnostic>::empty());
    for outcome in iter: outcomes.into_iter()
        invariant
            iter.seq() == all,
            record_views(pkgs@) == records_of(outcome_views(all.take(iter.index()))),
            diagnostics(errors@) == diagnostics_of(outcome_views(all.take(iter.index()))),
    {
        let ghost seen = outcome_views(all.take(iter.index()));
        let ghost now = outcome_views(all.take(iter.index() + 1));
        assert(now.drop_last() == seen);
        assert(now.last() == outcome_views(all)[iter.index()]);
        let (package, found) = outcome;
        let mut found = found;
        let ghost first = errors@;
        let ghost second = found@;
        errors.append(&mut found);
        assert(diagnostics(errors@) == diagnostics(first) + diagnostics(second));
        match package {
            Some(record) => {
                let ghost before = pkgs@;
                pkgs.push(record);
                assert(record_views(pkgs@) == record_views(before).push((record.0, record.1@)));
            },
            None => {},
        }
    }
    assert(all.take(all.len() as int) == all);
    (pkgs, errors)
}

} // verus!
