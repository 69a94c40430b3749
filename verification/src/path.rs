//! Paths inside a package tree.
//!
//! A path is text whose segments are separated by `/`. A path that begins
//! with a separator starts at the root, and the root is its first
//! component. Repeated and trailing separators carry no meaning, and neither
//! does a segment `.`, unless it is the first of a path that does not start
//! at the root.

use vstd::prelude::*;
use vstd::string::StringExecFns;
use crate::text::{chars_of, str_eq, views};

verus! {

/// A character that separates two segments.
pub open spec fn is_separator(c: char) -> bool {
    c == '/'
}

/// The component that stands for the root.
pub open spec fn root() -> Seq<char> {
    seq!['/']
}

/// The segment that stands for the directory it lies in.
pub open spec fn dot() -> Seq<char> {
    seq!['.']
}

/// `t` can stand as one segment: it is not empty and holds no separator.
pub open spec fn is_segment(t: Seq<char>) -> bool {
    &&& t.len() > 0
    &&& forall|i: int| 0 <= i < t.len() ==> !is_separator(#[trigger] t[i])
}

/// Every element of `segs` can stand as a segment.
pub open spec fn all_segments(segs: Seq<Seq<char>>) -> bool {
    forall|i: int| 0 <= i < segs.len() ==> is_segment(#[trigger] segs[i])
}

/// The path `s` starts at the root.
pub open spec fn is_absolute(s: Seq<char>) -> bool {
    s.len() > 0 && is_separator(s[0])
}

/// A run of characters between two separators counts as a segment, after
/// the segments `closed`, unless it is empty or it is a `.` that is not the
/// first segment of a path that does not start at the root.
pub open spec fn counts(closed: Seq<Seq<char>>, run: Seq<char>, rooted: bool) -> bool {
    run.len() > 0 && (run != dot() || (!rooted && closed.len() == 0))
}

/// The segments `closed` with the run behind them, if it counts.
pub open spec fn close(closed: Seq<Seq<char>>, run: Seq<char>, rooted: bool) -> Seq<Seq<char>> {
    if counts(closed, run, rooted) {
        closed.push(run)
    } else {
        closed
    }
}

/// Reads `s` from the left: the segments already closed by a separator, and
/// the run of characters since the last separator.
pub open spec fn scan(s: Seq<char>, rooted: bool) -> (Seq<Seq<char>>, Seq<char>)
    decreases s.len(),
{
    if s.len() == 0 {
        (Seq::empty(), Seq::empty())
    } else {
        let (closed, run) = scan(s.drop_last(), rooted);
        if is_separator(s.last()) {
            (close(closed, run, rooted), Seq::empty())
        } else {
            (closed, run.push(s.last()))
        }
    }
}

/// The segments of the path `s`, from the root down.
pub open spec fn segments(s: Seq<char>) -> Seq<Seq<char>> {
    let (closed, run) = scan(s, is_absolute(s));
    close(closed, run, is_absolute(s))
}

/// The components of the path `s`: the root, if the path starts there, and
/// then its segments.
pub open spec fn components(s: Seq<char>) -> Seq<Seq<char>> {
    if is_absolute(s) {
        seq![root()] + segments(s)
    } else {
        segments(s)
    }
}

/// The components `comps` begin with the root.
pub open spec fn is_rooted(comps: Seq<Seq<char>>) -> bool {
    comps.len() > 0 && comps[0] == root()
}

/// `comps` can be the components of a path: each is a segment, but that the
/// first may be the root, and none but the first is a `.`.
pub open spec fn well_formed(comps: Seq<Seq<char>>) -> bool {
    forall|i: int|
        0 <= i < comps.len() ==> {
            &&& is_segment(#[trigger] comps[i]) || (i == 0 && comps[i] == root())
            &&& comps[i] == dot() ==> i == 0
        }
}

/// The text that has exactly the segments `segs`, one separator between
/// neighbours.
pub open spec fn join(segs: Seq<Seq<char>>) -> Seq<char>
    decreases segs.len(),
{
    if segs.len() == 0 {
        Seq::empty()
    } else if segs.len() == 1 {
        segs[0]
    } else {
        join(segs.drop_last()) + seq!['/'] + segs.last()
    }
}

/// The path that has exactly the components `comps`.
pub open spec fn text_of(comps: Seq<Seq<char>>) -> Seq<char> {
    if is_rooted(comps) {
        root() + join(comps.drop_first())
    } else {
        join(comps)
    }
}

/// `segs` can be the segments of a path that starts at the root, or does
/// not: each is a segment, and none is a `.`, but the first of a path that
/// does not start at the root.
spec fn plain(segs: Seq<Seq<char>>, rooted: bool) -> bool {
    forall|i: int|
        0 <= i < segs.len() ==> {
            &&& is_segment(#[trigger] segs[i])
            &&& segs[i] == dot() ==> i == 0 && !rooted
        }
}

/// What `scan` has closed can be the segments of a path, and its open run
/// holds no separator.
proof fn lemma_scan_plain(s: Seq<char>, rooted: bool)
    ensures
        plain(scan(s, rooted).0, rooted),
        forall|i: int|
            0 <= i < scan(s, rooted).1.len() ==> !is_separator(#[trigger] scan(s, rooted).1[i]),
    decreases s.len(),
{
    if s.len() > 0 {
        lemma_scan_plain(s.drop_last(), rooted);
    }
}

/// The components of any path are well formed.
pub proof fn lemma_components_well_formed(s: Seq<char>)
    ensures
        well_formed(components(s)),
{
    let rooted = is_absolute(s);
    lemma_scan_plain(s, rooted);
    let segs = segments(s);
    assert(plain(segs, rooted));
    let comps = components(s);
    assert(dot() != root()) by {
        assert(dot()[0] != root()[0]);
    }
    assert forall|i: int| 0 <= i < comps.len() implies {
        &&& is_segment(#[trigger] comps[i]) || (i == 0 && comps[i] == root())
        &&& comps[i] == dot() ==> i == 0
    } by {
        if rooted {
            if i > 0 {
                assert(comps[i] == segs[i - 1]);
            }
        } else {
            assert(comps[i] == segs[i]);
        }
    }
}

/// Reading on through text without a separator only extends the open run.
proof fn lemma_scan_run(t: Seq<char>, u: Seq<char>, rooted: bool)
    requires
        forall|i: int| 0 <= i < u.len() ==> !is_separator(#[trigger] u[i]),
    ensures
        scan(t + u, rooted) == (scan(t, rooted).0, scan(t, rooted).1 + u),
    decreases u.len(),
{
    if u.len() == 0 {
        assert(t + u == t);
        assert(scan(t, rooted).1 + u == scan(t, rooted).1);
    } else {
        let shorter = u.drop_last();
        lemma_scan_run(t, shorter, rooted);
        assert((t + u).drop_last() == t + shorter);
        assert((t + u).last() == u.last());
        assert((scan(t, rooted).1 + shorter).push(u.last()) == scan(t, rooted).1 + u);
    }
}

/// Reading joined segments, behind the root or not, leaves the last segment
/// open and the others closed.
proof fn lemma_scan_join(segs: Seq<Seq<char>>, rooted: bool)
    requires
        segs.len() > 0,
        plain(segs, rooted),
    ensures
        scan((if rooted { root() } else { Seq::empty() }) + join(segs), rooted) == (
            segs.drop_last(),
            segs.last(),
        ),
    decreases segs.len(),
{
    let empty = Seq::<char>::empty();
    let lead = if rooted { root() } else { empty };
    assert(scan(empty, rooted) == (Seq::<Seq<char>>::empty(), empty));
    assert(scan(lead, rooted) == (Seq::<Seq<char>>::empty(), empty)) by {
        if rooted {
            assert(lead.drop_last() == empty);
        }
    }
    if segs.len() == 1 {
        assert(is_segment(segs[0]));
        lemma_scan_run(lead, segs[0], rooted);
        assert(empty + segs[0] == segs[0]);
        assert(segs.drop_last() == Seq::<Seq<char>>::empty());
    } else {
        let front = segs.drop_last();
        assert(plain(front, rooted)) by {
            assert forall|i: int| 0 <= i < front.len() implies {
                &&& is_segment(#[trigger] front[i])
                &&& front[i] == dot() ==> i == 0 && !rooted
            } by {
                assert(front[i] == segs[i]);
            }
        }
        lemma_scan_join(front, rooted);
        let head = lead + join(front);
        let stopped = head + seq!['/'];
        assert(stopped.drop_last() == head);
        assert(stopped.last() == '/');
        assert(front.last() == segs[segs.len() - 2]);
        assert(counts(front.drop_last(), front.last(), rooted));
        assert(front.drop_last().push(front.last()) == front);
        assert(scan(stopped, rooted) == (front, empty));
        assert(is_segment(segs.last()));
        lemma_scan_run(stopped, segs.last(), rooted);
        assert(empty + segs.last() == segs.last());
        assert(stopped + segs.last() == lead + join(segs));
    }
}

/// Joined segments begin as their first segment does.
proof fn lemma_join_first_char(segs: Seq<Seq<char>>)
    requires
        segs.len() > 0,
        segs[0].len() > 0,
    ensures
        join(segs).len() > 0,
        join(segs)[0] == segs[0][0],
    decreases segs.len(),
{
    if segs.len() > 1 {
        lemma_join_first_char(segs.drop_last());
    }
}

/// Splitting undoes joining: the path made of well-formed components has
/// exactly those components.
pub proof fn lemma_components_of_text(comps: Seq<Seq<char>>)
    requires
        well_formed(comps),
    ensures
        components(text_of(comps)) == comps,
{
    let empty = Seq::<char>::empty();
    assert(dot() != root()) by {
        assert(dot()[0] != root()[0]);
    }
    if is_rooted(comps) {
        let segs = comps.drop_first();
        let text = root() + join(segs);
        assert(text[0] == root()[0]);
        assert(plain(segs, true)) by {
            assert forall|i: int| 0 <= i < segs.len() implies {
                &&& is_segment(#[trigger] segs[i])
                &&& segs[i] == dot() ==> i == 0 && !true
            } by {
                assert(segs[i] == comps[i + 1]);
            }
        }
        if segs.len() == 0 {
            assert(text == root());
            assert(text.drop_last() == empty);
            assert(scan(empty, true) == (Seq::<Seq<char>>::empty(), empty));
            assert(scan(text, true) == (Seq::<Seq<char>>::empty(), empty));
            assert(segments(text) == Seq::<Seq<char>>::empty());
        } else {
            lemma_scan_join(segs, true);
            assert(counts(segs.drop_last(), segs.last(), true));
            assert(segs.drop_last().push(segs.last()) == segs);
        }
        assert(seq![root()] + segs == comps);
    } else if comps.len() == 0 {
        assert(segments(empty) == Seq::<Seq<char>>::empty());
    } else {
        assert(plain(comps, false)) by {
            assert forall|i: int| 0 <= i < comps.len() implies {
                &&& is_segment(#[trigger] comps[i])
                &&& comps[i] == dot() ==> i == 0 && !false
            } by {
                assert(is_segment(comps[i]) || (i == 0 && comps[i] == root()));
            }
        }
        assert(is_segment(comps[0]));
        lemma_join_first_char(comps);
        lemma_scan_join(comps, false);
        assert(empty + join(comps) == join(comps));
        assert(counts(comps.drop_last(), comps.last(), false));
        assert(comps.drop_last().push(comps.last()) == comps);
    }
}

/// The components of `path`, from the root down.
pub fn split(path: &str) -> (r: Vec<String>)
    ensures
        views(r@) == components(path@),
{
    let chars = chars_of(path);
    let n = chars.len();
    let rooted = n > 0 && chars[0] == '/';
    let mut out: Vec<String> = Vec::new();
    if rooted {
        proof {
            reveal_strlit("/");
        }
        out.push("/".to_owned());
        assert("/"@ == root());
    }
    let ghost lead = views(out@);
    assert(lead == if rooted { seq![root()] } else { Seq::<Seq<char>>::empty() });
    let mut kept = false;
    let mut start: usize = 0;
    let mut i: usize = 0;
    assert(path@.take(0) == Seq::<char>::empty());
    assert(lead + Seq::<Seq<char>>::empty() == lead);
    while i < n
        invariant
            n == chars.len(),
            chars@ == path@,
            rooted == is_absolute(path@),
            start <= i <= n,
            kept == (scan(path@.take(i as int), rooted).0.len() > 0),
            views(out@) == lead + scan(path@.take(i as int), rooted).0,
            scan(path@.take(i as int), rooted).1 == path@.subrange(start as int, i as int),
        decreases n - i,
    {
        let ghost closed = scan(path@.take(i as int), rooted).0;
        let ghost run = path@.subrange(start as int, i as int);
        assert(path@.take(i + 1).drop_last() == path@.take(i as int));
        assert(path@.take(i + 1).last() == path@[i as int]);
        if chars[i] == '/' {
            let lone_dot = i - start == 1 && chars[start] == '.';
            assert(lone_dot == (run == dot())) by {
                if run == dot() {
                    assert(run.len() == 1 && run[0] == '.');
                } else if lone_dot {
                    assert(run =~= dot());
                }
            }
            if start < i && !(lone_dot && (rooted || kept)) {
                let piece = path.substring_char(start, i);
                let ghost before = out@;
                out.push(piece.to_owned());
                assert(views(out@) == views(before).push(piece@));
                assert((lead + closed).push(run) == lead + closed.push(run));
                kept = true;
            }
            start = i + 1;
            assert(path@.subrange(start as int, i + 1) == Seq::<char>::empty());
        } else {
            assert(path@.subrange(start as int, i + 1) == run.push(path@[i as int]));
        }
        i += 1;
    }
    assert(path@.take(n as int) == path@);
    let ghost closed = scan(path@, rooted).0;
    let ghost run = path@.subrange(start as int, i as int);
    let lone_dot = i - start == 1 && chars[start] == '.';
    assert(lone_dot == (run == dot())) by {
        if run == dot() {
            assert(run.len() == 1 && run[0] == '.');
        } else if lone_dot {
            assert(run =~= dot());
        }
    }
    if start < i && !(lone_dot && (rooted || kept)) {
        let piece = path.substring_char(start, i);
        let ghost before = out@;
        out.push(piece.to_owned());
        assert(views(out@) == views(before).push(piece@));
        assert((lead + closed).push(run) == lead + closed.push(run));
    }
    assert(Seq::<Seq<char>>::empty() + segments(path@) == segments(path@));
    out
}

/// The text made of the segments of `segs` from `from` up to `to`.
fn join_range(segs: &Vec<String>, from: usize, to: usize) -> (r: String)
    requires
        from <= to <= segs.len(),
    ensures
        r@ == join(views(segs@).subrange(from as int, to as int)),
{
    let mut out = String::new();
    let mut i: usize = from;
    assert(views(segs@).subrange(from as int, from as int) == Seq::<Seq<char>>::empty());
    while i < to
        invariant
            from <= i <= to <= segs.len(),
            out@ == join(views(segs@).subrange(from as int, i as int)),
        decreases to - i,
    {
        let ghost front = views(segs@).subrange(from as int, i as int);
        let ghost next = views(segs@).subrange(from as int, i + 1);
        assert(next.drop_last() == front);
        assert(next.last() == segs@[i as int]@);
        if i > from {
            proof {
                reveal_strlit("/");
            }
            out.append("/");
            assert("/"@ == seq!['/']);
        } else {
            assert(join(next) == segs@[i as int]@);
        }
        out.append(segs[i].as_str());
        i += 1;
    }
    out
}

/// The path made of the first `count` of the components `comps`.
pub(crate) fn text_first(comps: &Vec<String>, count: usize) -> (r: String)
    requires
        count <= comps.len(),
    ensures
        r@ == text_of(views(comps@).take(count as int)),
{
    proof {
        reveal_strlit("/");
    }
    assert("/"@ == root());
    let ghost taken = views(comps@).take(count as int);
    if count > 0 && str_eq(comps[0].as_str(), "/") {
        assert(taken[0] == comps@[0]@);
        assert(taken.drop_first() == views(comps@).subrange(1, count as int));
        let mut out = "/".to_owned();
        let rest = join_range(comps, 1, count);
        out.append(rest.as_str());
        out
    } else {
        if count > 0 {
            assert(taken[0] == comps@[0]@);
        }
        assert(taken == views(comps@).subrange(0, count as int));
        join_range(comps, 0, count)
    }
}

/// The path with the components `comps`.
pub fn join_path(comps: &Vec<String>) -> (r: String)
    ensures
        r@ == text_of(views(comps@)),
{
    assert(views(comps@).take(comps.len() as int) == views(comps@));
    text_first(comps, comps.len())
}

} // verus!
