//! Local paths as text: joining, and resolving `.` and `..` without looking
//! at the file system.
//!
//! A path is a sequence of characters in which `/` separates the segments.

use vstd::prelude::*;
use crate::text::{chars_of, push_all, string_of};

verus! {

/// The segments of `s`: the pieces between its separators. A path of `n`
/// separators has `n + 1` segments, some of which may be empty.
pub open spec fn segments(s: Seq<char>) -> Seq<Seq<char>>
    decreases s.len(),
{
    if s.len() == 0 {
        seq![Seq::empty()]
    } else {
        let before = segments(s.drop_last());
        if s.last() == '/' {
            before.push(Seq::empty())
        } else {
            before.update(before.len() - 1, before.last().push(s.last()))
        }
    }
}

/// The directory names reached so far, after one more segment: an empty
/// segment and `.` change nothing, `..` leaves the last directory (if there
/// is one), any other segment enters a directory.
pub open spec fn enter(parts: Seq<Seq<char>>, segment: Seq<char>) -> Seq<Seq<char>> {
    if segment.len() == 0 || segment == seq!['.'] {
        parts
    } else if segment == seq!['.', '.'] {
        if parts.len() > 0 {
            parts.drop_last()
        } else {
            parts
        }
    } else {
        parts.push(segment)
    }
}

/// The directory names that a walk along `segs` ends in.
pub open spec fn resolve(segs: Seq<Seq<char>>) -> Seq<Seq<char>>
    decreases segs.len(),
{
    if segs.len() == 0 {
        Seq::empty()
    } else {
        enter(resolve(segs.drop_last()), segs.last())
    }
}

/// `parts` written with one separator between neighbours.
pub open spec fn joined(parts: Seq<Seq<char>>) -> Seq<char>
    decreases parts.len(),
{
    if parts.len() == 0 {
        Seq::empty()
    } else if parts.len() == 1 {
        parts[0]
    } else {
        joined(parts.drop_last()) + seq!['/'] + parts.last()
    }
}

/// A path is absolute when it starts with a separator.
pub open spec fn is_absolute(s: Seq<char>) -> bool {
    s.len() > 0 && s[0] == '/'
}

/// `s` with `.` and `..` resolved, repeated and trailing separators dropped.
/// A `..` that would leave the root, or the start of a relative path, is
/// dropped.
pub open spec fn normalized(s: Seq<char>) -> Seq<char> {
    if is_absolute(s) {
        seq!['/'] + joined(resolve(segments(s)))
    } else {
        joined(resolve(segments(s)))
    }
}

/// `base` followed by `rel`. An absolute `rel` stands alone; otherwise one
/// separator is put between the two unless `base` is empty or ends in one.
pub open spec fn join_of(base: Seq<char>, rel: Seq<char>) -> Seq<char> {
    if is_absolute(rel) || base.len() == 0 {
        rel
    } else if base.last() == '/' {
        base + rel
    } else {
        base + seq!['/'] + rel
    }
}

/// The views of a vector of character vectors.
pub open spec fn views(parts: Seq<Vec<char>>) -> Seq<Seq<char>> {
    parts.map_values(|p: Vec<char>| p@)
}

/// Whether `segment` is `.`.
fn is_dot(segment: &Vec<char>) -> (r: bool)
    ensures
        r == (segment@ == seq!['.']),
{
    let r = segment.len() == 1 && segment[0] == '.';
    assert(r == (segment@ =~= seq!['.']));
    r
}

/// Whether `segment` is `..`.
fn is_dot_dot(segment: &Vec<char>) -> (r: bool)
    ensures
        r == (segment@ == seq!['.', '.']),
{
    let r = segment.len() == 2 && segment[0] == '.' && segment[1] == '.';
    assert(r == (segment@ =~= seq!['.', '.']));
    r
}

/// Applies one finished segment to the directories reached so far.
fn enter_segment(parts: &mut Vec<Vec<char>>, segment: Vec<char>)
    ensures
        views(final(parts)@) == enter(views(old(parts)@), segment@),
{
    if segment.len() == 0 || is_dot(&segment) {
        return;
    }
    if is_dot_dot(&segment) {
        if parts.len() > 0 {
            parts.pop();
            assert(views(parts@) =~= views(old(parts)@).drop_last());
        }
    } else {
        parts.push(segment);
        assert(views(parts@) =~= views(old(parts)@).push(segment@));
    }
}

/// Writes `parts` with one separator between neighbours.
fn join_parts(parts: &Vec<Vec<char>>) -> (out: Vec<char>)
    ensures
        out@ == joined(views(parts@)),
{
    let mut out: Vec<char> = Vec::new();
    let mut i: usize = 0;
    while i < parts.len()
        invariant
            i <= parts.len(),
            out@ == joined(views(parts@).take(i as int)),
        decreases parts.len() - i,
    {
        let ghost before = views(parts@).take(i as int);
        let ghost next = views(parts@).take(i + 1);
        assert(next.drop_last() =~= before);
        assert(next.last() == parts@[i as int]@);
        if i > 0 {
            out.push('/');
        }
        push_all(&mut out, parts[i].as_slice());
        proof {
            if i == 0 {
                assert(out@ =~= next[0]);
            } else {
                assert(out@ =~= joined(before) + seq!['/'] + next.last());
            }
        }
        i += 1;
    }
    assert(views(parts@).take(parts.len() as int) =~= views(parts@));
    out
}

/// `path` with `.` and `..` resolved by the text alone.
pub fn normalize_path(path: &str) -> (r: String)
    ensures
        r@ == normalized(path@),
{
    let s = chars_of(path);
    let mut parts: Vec<Vec<char>> = Vec::new();
    let mut current: Vec<char> = Vec::new();
    let mut i: usize = 0;
    while i < s.len()
        invariant
            i <= s.len(),
            views(parts@) == resolve(segments(s@.take(i as int)).drop_last()),
            current@ == segments(s@.take(i as int)).last(),
            segments(s@.take(i as int)).len() > 0,
        decreases s.len() - i,
    {
        let ghost before = segments(s@.take(i as int));
        assert(s@.take(i + 1).drop_last() =~= s@.take(i as int));
        assert(s@.take(i + 1).last() == s@[i as int]);
        if s[i] == '/' {
            assert(before.push(Seq::empty()).drop_last() =~= before);
            let mut finished: Vec<char> = Vec::new();
            std::mem::swap(&mut finished, &mut current);
            enter_segment(&mut parts, finished);
        } else {
            current.push(s[i]);
            assert(before.update(before.len() - 1, before.last().push(s@[i as int])).drop_last()
                =~= before.drop_last());
        }
        i += 1;
    }
    assert(s@.take(s.len() as int) =~= s@);
    let ghost all = segments(s@);
    assert(resolve(all) == enter(resolve(all.drop_last()), all.last()));
    enter_segment(&mut parts, current);
    let mut out: Vec<char> = Vec::new();
    if s.len() > 0 && s[0] == '/' {
        out.push('/');
    }
    let body = join_parts(&parts);
    push_all(&mut out, body.as_slice());
    assert(out@ =~= normalized(s@));
    string_of(out.as_slice())
}

/// `base` followed by `rel`, as [`join_of`] says.
pub fn join_path(base: &str, rel: &str) -> (r: String)
    ensures
        r@ == join_of(base@, rel@),
{
    let b = chars_of(base);
    let t = chars_of(rel);
    let mut out: Vec<char> = Vec::new();
    if (t.len() > 0 && t[0] == '/') || b.len() == 0 {
        push_all(&mut out, t.as_slice());
        assert(out@ =~= t@);
    } else {
        push_all(&mut out, b.as_slice());
        if b[b.len() - 1] != '/' {
            out.push('/');
        }
        push_all(&mut out, t.as_slice());
        assert(out@ =~= join_of(b@, t@));
    }
    string_of(out.as_slice())
}

/// No character of `s` is a separator.
pub open spec fn slash_free(s: Seq<char>) -> bool {
    forall|k: int| 0 <= k < s.len() ==> s[k] != '/'
}

/// `segment` is the name of a directory or file: not empty, neither `.`
/// nor `..`, and without a separator.
pub open spec fn plain(segment: Seq<char>) -> bool {
    &&& segment.len() > 0
    &&& segment != seq!['.']
    &&& segment != seq!['.', '.']
    &&& slash_free(segment)
}

/// Every one of `parts` is a name.
pub open spec fn all_plain(parts: Seq<Seq<char>>) -> bool {
    forall|i: int| 0 <= i < parts.len() ==> plain(#[trigger] parts[i])
}

/// A path has at least one segment, and no segment holds a separator.
pub proof fn lemma_segments_are_slash_free(s: Seq<char>)
    ensures
        segments(s).len() > 0,
        forall|i: int| 0 <= i < segments(s).len() ==> slash_free(#[trigger] segments(s)[i]),
    decreases s.len(),
{
    if s.len() > 0 {
        lemma_segments_are_slash_free(s.drop_last());
        let before = segments(s.drop_last());
        assert forall|i: int| 0 <= i < segments(s).len() implies slash_free(
            #[trigger] segments(s)[i],
        ) by {
            if i < before.len() - 1 {
                assert(segments(s)[i] == before[i]);
            } else if s.last() != '/' && i == before.len() - 1 {
                assert(slash_free(before[i]));
                assert(segments(s)[i] == before[i].push(s.last()));
            }
        }
    }
}

/// A walk ends in names only.
pub proof fn lemma_resolve_gives_names(segs: Seq<Seq<char>>)
    requires
        forall|i: int| 0 <= i < segs.len() ==> slash_free(#[trigger] segs[i]),
    ensures
        all_plain(resolve(segs)),
    decreases segs.len(),
{
    if segs.len() > 0 {
        let front = segs.drop_last();
        assert forall|i: int| 0 <= i < front.len() implies slash_free(#[trigger] front[i]) by {
            assert(front[i] == segs[i]);
        }
        lemma_resolve_gives_names(front);
        let before = resolve(front);
        let last = segs.last();
        assert(slash_free(segs[segs.len() - 1]));
        let after = enter(before, last);
        assert forall|i: int| 0 <= i < after.len() implies plain(#[trigger] after[i]) by {
            if i < before.len() {
                assert(after[i] == before[i]);
            }
        }
    }
}

/// A text without a separator is its own single segment.
pub proof fn lemma_segments_of_name(s: Seq<char>)
    requires
        slash_free(s),
    ensures
        segments(s) == seq![s],
    decreases s.len(),
{
    if s.len() > 0 {
        lemma_segments_of_name(s.drop_last());
        assert(s[s.len() - 1] != '/');
        assert(s.drop_last().push(s.last()) =~= s);
        assert(segments(s) =~= seq![s]);
    } else {
        assert(s =~= Seq::<char>::empty());
        assert(segments(s) =~= seq![s]);
    }
}

/// The segments of two paths with a separator between them are the
/// segments of the one followed by the segments of the other.
pub proof fn lemma_segments_of_concat(x: Seq<char>, y: Seq<char>)
    ensures
        segments(x + seq!['/'] + y) == segments(x) + segments(y),
    decreases y.len(),
{
    let whole = x + seq!['/'] + y;
    if y.len() == 0 {
        assert(whole.drop_last() =~= x);
        assert(whole.last() == '/');
        assert(segments(whole) =~= segments(x) + segments(y));
    } else {
        lemma_segments_of_concat(x, y.drop_last());
        lemma_segments_are_slash_free(y.drop_last());
        assert(whole.drop_last() =~= x + seq!['/'] + y.drop_last());
        assert(whole.last() == y.last());
        assert(segments(whole) =~= segments(x) + segments(y));
    }
}

/// Names written with separators between them are read back as the same
/// names.
pub proof fn lemma_segments_of_joined(parts: Seq<Seq<char>>)
    requires
        all_plain(parts),
        parts.len() > 0,
    ensures
        segments(joined(parts)) == parts,
    decreases parts.len(),
{
    if parts.len() == 1 {
        lemma_segments_of_name(parts[0]);
        assert(seq![parts[0]] =~= parts);
    } else {
        let front = parts.drop_last();
        assert forall|i: int| 0 <= i < front.len() implies plain(#[trigger] front[i]) by {
            assert(front[i] == parts[i]);
        }
        lemma_segments_of_joined(front);
        lemma_segments_of_concat(joined(front), parts.last());
        assert(plain(parts[parts.len() - 1]));
        lemma_segments_of_name(parts.last());
        assert(front + seq![parts.last()] =~= parts);
    }
}

/// A walk along names ends in those names, also where it starts with an
/// empty segment.
pub proof fn lemma_resolve_of_names(parts: Seq<Seq<char>>)
    requires
        all_plain(parts),
    ensures
        resolve(parts) == parts,
        resolve(seq![Seq::<char>::empty()] + parts) == parts,
    decreases parts.len(),
{
    let lead = seq![Seq::<char>::empty()];
    if parts.len() == 0 {
        assert((lead + parts).drop_last() =~= Seq::<Seq<char>>::empty());
        assert(resolve((lead + parts).drop_last()) =~= Seq::<Seq<char>>::empty());
        assert(resolve(lead + parts) =~= parts);
    } else {
        let front = parts.drop_last();
        assert forall|i: int| 0 <= i < front.len() implies plain(#[trigger] front[i]) by {
            assert(front[i] == parts[i]);
        }
        lemma_resolve_of_names(front);
        assert(plain(parts[parts.len() - 1]));
        assert((lead + parts).drop_last() =~= lead + front);
        assert((lead + parts).last() == parts.last());
        assert(front.push(parts.last()) =~= parts);
    }
}

/// Names written with separators between them start with the first
/// character of the first name.
pub proof fn lemma_joined_starts_with_name(parts: Seq<Seq<char>>)
    requires
        all_plain(parts),
        parts.len() > 0,
    ensures
        joined(parts).len() > 0,
        joined(parts)[0] == parts[0][0],
    decreases parts.len(),
{
    if parts.len() > 1 {
        let front = parts.drop_last();
        assert forall|i: int| 0 <= i < front.len() implies plain(#[trigger] front[i]) by {
            assert(front[i] == parts[i]);
        }
        lemma_joined_starts_with_name(front);
        assert(front[0] == parts[0]);
    }
}

/// A normalized path is in normal form: normalizing it again changes
/// nothing.
pub proof fn lemma_normalized_is_idempotent(s: Seq<char>)
    ensures
        normalized(normalized(s)) == normalized(s),
{
    lemma_segments_are_slash_free(s);
    lemma_resolve_gives_names(segments(s));
    let parts = resolve(segments(s));
    let body = joined(parts);
    lemma_resolve_of_names(parts);
    let lead = seq![Seq::<char>::empty()];
    if parts.len() > 0 {
        lemma_segments_of_joined(parts);
        lemma_joined_starts_with_name(parts);
        assert(plain(parts[0]));
    } else {
        assert(segments(body) =~= lead);
        assert(lead.drop_last() =~= Seq::<Seq<char>>::empty());
        assert(resolve(lead) =~= parts);
    }
    if is_absolute(s) {
        let n = seq!['/'] + body;
        assert(n =~= Seq::<char>::empty() + seq!['/'] + body);
        lemma_segments_of_concat(Seq::<char>::empty(), body);
        assert(segments(Seq::<char>::empty()) =~= lead);
        if parts.len() == 0 {
            assert((lead + lead).drop_last() =~= lead);
            assert(resolve(lead + lead) =~= parts);
        }
        assert(resolve(segments(n)) == parts);
        assert(is_absolute(n));
    } else {
        assert(resolve(segments(body)) == parts);
        assert(!is_absolute(body));
    }
}

} // verus!
