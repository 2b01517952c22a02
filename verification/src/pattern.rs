//! Plain path patterns, whose segments are literal or a single
//! named capture, and what it means for a path to match one.
//!
//! The route table looks patterns up in an index that it does not verify.
//! For a pattern that is plain it confirms each hit against the
//! definition here, so that what it hands out is a match by this
//! definition whatever the index says.

use vstd::prelude::*;
use crate::req::pairs_view;
use crate::text::chars_of;

verus! {

/// The segments of a text: what stands between its slashes. A text without
/// a slash is its own single segment.
pub open spec fn segments(s: Seq<char>) -> Seq<Seq<char>>
    decreases s.len(),
{
    if s.len() == 0 {
        seq![Seq::empty()]
    } else if s.last() == '/' {
        segments(s.drop_last()).push(Seq::empty())
    } else {
        let head = segments(s.drop_last());
        head.drop_last().push(head.last().push(s.last()))
    }
}

/// A segment that stands for itself: it holds no brace.
pub open spec fn literal(segment: Seq<char>) -> bool {
    !segment.contains('{') && !segment.contains('}')
}

/// The name under which a segment captures, where the segment is a capture:
/// a name between one pair of braces, not empty and free of braces and
/// stars.
pub open spec fn capture_name(segment: Seq<char>) -> Option<Seq<char>> {
    let name = segment.subrange(1, segment.len() - 1);
    if segment.len() >= 3 && segment[0] == '{' && segment.last() == '}' && !name.contains('{')
        && !name.contains('}') && !name.contains('*') {
        Some(name)
    } else {
        None
    }
}

/// Every segment is literal or a capture.
pub open spec fn plain_segments(pattern: Seq<Seq<char>>) -> bool {
    forall|i: int|
        0 <= i < pattern.len() ==> literal(#[trigger] pattern[i]) || capture_name(pattern[i])
            is Some
}

/// The pattern is plain.
pub open spec fn plain(pattern: Seq<char>) -> bool {
    plain_segments(segments(pattern))
}

/// What the first `n` segments of a path capture under the first `n`
/// segments of a pattern: a literal segment wants the same segment, a
/// capture takes any segment that is not empty. `None` where a segment does
/// not match.
pub open spec fn captured(pattern: Seq<Seq<char>>, path: Seq<Seq<char>>, n: nat) -> Option<
    Seq<(Seq<char>, Seq<char>)>,
>
    decreases n,
{
    if n == 0 {
        Some(Seq::empty())
    } else {
        match captured(pattern, path, (n - 1) as nat) {
            None => None,
            Some(before) => if literal(pattern[n - 1]) {
                if path[n - 1] == pattern[n - 1] {
                    Some(before)
                } else {
                    None
                }
            } else {
                match capture_name(pattern[n - 1]) {
                    Some(name) => if path[n - 1].len() > 0 {
                        Some(before.push((name, path[n - 1])))
                    } else {
                        None
                    },
                    None => None,
                }
            },
        }
    }
}

/// What a path captures under a pattern that is plain: the pairs of
/// name and segment, in the order of the pattern; `None` where the path
/// does not match.
pub open spec fn pattern_match(pattern: Seq<char>, path: Seq<char>) -> Option<
    Seq<(Seq<char>, Seq<char>)>,
> {
    if segments(pattern).len() == segments(path).len() {
        captured(segments(pattern), segments(path), segments(pattern).len())
    } else {
        None
    }
}

/// The texts of a list of character vectors.
pub open spec fn texts(list: Seq<Vec<char>>) -> Seq<Seq<char>> {
    Seq::new(list.len(), |i: int| list[i]@)
}

/// A text has at least one segment.
pub proof fn lemma_segments_nonempty(s: Seq<char>)
    ensures
        segments(s).len() >= 1,
    decreases s.len(),
{
    if s.len() > 0 {
        lemma_segments_nonempty(s.drop_last());
    }
}

/// Splits a text at its slashes.
pub fn split(s: &str) -> (list: Vec<Vec<char>>)
    ensures
        texts(list@) == segments(s@),
{
    let chars = chars_of(s);
    let n = chars.len();
    let mut list: Vec<Vec<char>> = Vec::new();
    let mut current: Vec<char> = Vec::new();
    let mut i: usize = 0;
    proof {
        assert(s@.take(0) =~= Seq::<char>::empty());
        assert(texts(list@).push(current@) =~= segments(s@.take(0)));
    }
    while i < n
        invariant
            chars@ == s@,
            n == s@.len(),
            i <= n,
            segments(s@.take(i as int)) == texts(list@).push(current@),
        decreases n - i,
    {
        let ghost done = texts(list@);
        let ghost open = current@;
        proof {
            assert(s@.take(i + 1).drop_last() =~= s@.take(i as int));
            assert(s@.take(i + 1).last() == s@[i as int]);
            assert(done.push(open).drop_last() =~= done);
        }
        if chars[i] == '/' {
            list.push(current);
            current = Vec::new();
            proof {
                assert(texts(list@) =~= done.push(open));
            }
        } else {
            current.push(chars[i]);
        }
        i = i + 1;
    }
    let ghost done = texts(list@);
    let ghost open = current@;
    list.push(current);
    proof {
        assert(s@.take(n as int) =~= s@);
        assert(texts(list@) =~= done.push(open));
    }
    list
}

fn holds_char(s: &Vec<char>, from: usize, to: usize, c: char) -> (r: bool)
    requires
        from <= to <= s@.len(),
    ensures
        r == s@.subrange(from as int, to as int).contains(c),
{
    let mut i: usize = from;
    while i < to
        invariant
            from <= i <= to <= s@.len(),
            forall|j: int| from <= j < i ==> s@[j] != c,
        decreases to - i,
    {
        if s[i] == c {
            assert(s@.subrange(from as int, to as int)[i - from] == c);
            return true;
        }
        i = i + 1;
    }
    false
}

fn literal_chars(segment: &Vec<char>) -> (r: bool)
    ensures
        r == literal(segment@),
{
    proof {
        assert(segment@.subrange(0, segment@.len() as int) =~= segment@);
    }
    !holds_char(segment, 0, segment.len(), '{') && !holds_char(segment, 0, segment.len(), '}')
}

fn capture_chars(segment: &Vec<char>) -> (r: bool)
    ensures
        r == capture_name(segment@) is Some,
{
    let n = segment.len();
    if n < 3 {
        return false;
    }
    if segment[0] != '{' || segment[n - 1] != '}' {
        return false;
    }
    !holds_char(segment, 1, n - 1, '{') && !holds_char(segment, 1, n - 1, '}') && !holds_char(
        segment,
        1,
        n - 1,
        '*',
    )
}

fn same_chars(a: &Vec<char>, from: usize, to: usize, b: &Vec<char>) -> (r: bool)
    requires
        from <= to <= a@.len(),
    ensures
        r == (a@.subrange(from as int, to as int) == b@),
{
    if to - from != b.len() {
        return false;
    }
    let mut i: usize = 0;
    while i < b.len()
        invariant
            from <= to <= a@.len(),
            to - from == b@.len(),
            i <= b@.len(),
            forall|j: int| 0 <= j < i ==> a@[from + j] == b@[j],
        decreases b@.len() - i,
    {
        if a[from + i] != b[i] {
            proof {
                if a@.subrange(from as int, to as int) == b@ {
                    assert(a@.subrange(from as int, to as int)[i as int] == b@[i as int]);
                }
            }
            return false;
        }
        i = i + 1;
    }
    proof {
        assert(a@.subrange(from as int, to as int) =~= b@);
    }
    true
}

/// Whether a text holds no brace.
pub fn is_literal(text: &str) -> (r: bool)
    ensures
        r == literal(text@),
{
    let chars = chars_of(text);
    literal_chars(&chars)
}

/// Whether the segments are all literal or captures.
pub fn all_plain(pattern: &Vec<Vec<char>>) -> (r: bool)
    ensures
        r == plain_segments(texts(pattern@)),
{
    let mut i: usize = 0;
    while i < pattern.len()
        invariant
            i <= pattern@.len(),
            forall|j: int|
                0 <= j < i ==> literal(#[trigger] texts(pattern@)[j]) || capture_name(
                    texts(pattern@)[j],
                ) is Some,
        decreases pattern@.len() - i,
    {
        if !literal_chars(&pattern[i]) && !capture_chars(&pattern[i]) {
            assert(!literal(texts(pattern@)[i as int]));
            return false;
        }
        i = i + 1;
    }
    true
}

/// Whether the parameters are those that the path captures under the
/// pattern. A pattern that is not plain is not judged: the answer is yes.
/// The work grows with the lengths of pattern, path and parameters, not
/// with their product.
pub fn confirms(pattern: &str, path: &str, params: &Vec<(String, String)>) -> (r: bool)
    ensures
        r == (plain(pattern@) ==> pattern_match(pattern@, path@) == Some(pairs_view(params@))),
{
    let ps = split(pattern);
    if !all_plain(&ps) {
        return true;
    }
    let qs = split(path);
    if ps.len() != qs.len() {
        return false;
    }
    let ghost want = pairs_view(params@);
    let mut taken: usize = 0;
    let mut i: usize = 0;
    while i < ps.len()
        invariant
            i <= ps@.len(),
            ps@.len() == qs@.len(),
            texts(ps@) == segments(pattern@),
            texts(qs@) == segments(path@),
            plain_segments(texts(ps@)),
            want == pairs_view(params@),
            taken <= params@.len(),
            captured(texts(ps@), texts(qs@), i as nat) == Some(want.take(taken as int)),
        decreases ps@.len() - i,
    {
        let p = &ps[i];
        let q = &qs[i];
        proof {
            assert(texts(ps@)[i as int] == p@);
            assert(texts(qs@)[i as int] == q@);
            assert(q@.subrange(0, q@.len() as int) =~= q@);
        }
        if literal_chars(p) {
            if !same_chars(q, 0, q.len(), p) {
                proof {
                    lemma_captured_stays_none(texts(ps@), texts(qs@), (i + 1) as nat, ps@.len());
                }
                return false;
            }
        } else {
            assert(capture_name(p@) is Some);
            let fits = if q.len() > 0 && taken < params.len() {
                let name = chars_of(params[taken].0.as_str());
                let value = chars_of(params[taken].1.as_str());
                same_chars(p, 1, p.len() - 1, &name) && same_chars(q, 0, q.len(), &value)
            } else {
                false
            };
            if !fits {
                proof {
                    let next = captured(texts(ps@), texts(qs@), (i + 1) as nat);
                    let whole = captured(texts(ps@), texts(qs@), ps@.len());
                    if whole == Some(want) {
                        lemma_captured_grows(texts(ps@), texts(qs@), (i + 1) as nat, ps@.len());
                        assert(next->0 == want.take(taken as int).push(
                            (p@.subrange(1, p@.len() - 1), q@),
                        ));
                        assert(next->0.is_prefix_of(want));
                        assert(next->0[taken as int] == want[taken as int]);
                        assert(want[taken as int] == (
                            params@[taken as int].0@,
                            params@[taken as int].1@,
                        ));
                    }
                }
                return false;
            }
            proof {
                assert(want.take(taken + 1) =~= want.take(taken as int).push(want[taken as int]));
            }
            taken = taken + 1;
        }
        i = i + 1;
    }
    proof {
        assert(want.len() == params@.len());
        assert(want.take(taken as int).len() == taken);
        if taken == params@.len() {
            assert(want.take(taken as int) =~= want);
        }
    }
    taken == params.len()
}

/// The segments with a slash between each two of them.
pub open spec fn joined(list: Seq<Seq<char>>) -> Seq<char>
    decreases list.len(),
{
    if list.len() == 0 {
        Seq::empty()
    } else if list.len() == 1 {
        list[0]
    } else {
        joined(list.drop_last()) + seq!['/'] + list.last()
    }
}

/// A text is its segments with slashes between them: two texts with the
/// same segments are the same text.
pub proof fn lemma_joined_segments(s: Seq<char>)
    ensures
        joined(segments(s)) == s,
    decreases s.len(),
{
    if s.len() == 0 {
        assert(joined(segments(s)) =~= s);
    } else {
        let rest = s.drop_last();
        let head = segments(rest);
        lemma_joined_segments(rest);
        lemma_segments_nonempty(rest);
        if s.last() == '/' {
            let all = head.push(Seq::empty());
            assert(all.drop_last() =~= head);
            assert(joined(all) =~= joined(head) + seq!['/'] + Seq::<char>::empty());
            assert(rest + seq!['/'] =~= s);
            assert(joined(all) =~= s);
        } else {
            let all = head.drop_last().push(head.last().push(s.last()));
            if head.len() == 1 {
                assert(joined(all) =~= head[0].push(s.last()));
                assert(rest.push(s.last()) =~= s);
            } else {
                assert(all.drop_last() =~= head.drop_last());
                assert(joined(all) =~= (joined(head.drop_last()) + seq!['/'] + head.last()).push(
                    s.last(),
                ));
                assert(rest.push(s.last()) =~= s);
            }
        }
    }
}

/// No segment holds a slash, and a segment holds only characters of the
/// text.
pub proof fn lemma_segment_chars(s: Seq<char>, i: int, c: char)
    requires
        0 <= i < segments(s).len(),
        segments(s)[i].contains(c),
    ensures
        c != '/',
        s.contains(c),
    decreases s.len(),
{
    if s.len() > 0 {
        let rest = s.drop_last();
        let head = segments(rest);
        lemma_segments_nonempty(rest);
        if s.last() == '/' {
            if i < head.len() {
                lemma_segment_chars(rest, i, c);
                let at = choose|at: int| 0 <= at < rest.len() && rest[at] == c;
                assert(s[at] == c);
            }
        } else {
            if i < head.len() - 1 {
                lemma_segment_chars(rest, i, c);
                let at = choose|at: int| 0 <= at < rest.len() && rest[at] == c;
                assert(s[at] == c);
            } else {
                let last = head.last().push(s.last());
                let k = choose|k: int| 0 <= k < last.len() && last[k] == c;
                if k < head.last().len() {
                    assert(head.last()[k] == c);
                    lemma_segment_chars(rest, head.len() - 1, c);
                    let at = choose|at: int| 0 <= at < rest.len() && rest[at] == c;
                    assert(s[at] == c);
                } else {
                    assert(s[s.len() - 1] == c);
                }
            }
        }
    }
}

/// Text without a slash, put behind a text, lengthens its last segment.
pub proof fn lemma_segments_append(a: Seq<char>, b: Seq<char>)
    requires
        !b.contains('/'),
    ensures
        segments(a + b) == segments(a).drop_last().push(segments(a).last() + b),
    decreases b.len(),
{
    lemma_segments_nonempty(a);
    if b.len() == 0 {
        assert(a + b =~= a);
        assert(segments(a).last() + b =~= segments(a).last());
        assert(segments(a).drop_last().push(segments(a).last()) =~= segments(a));
    } else {
        let b0 = b.drop_last();
        assert(!b0.contains('/')) by {
            if b0.contains('/') {
                let k = choose|k: int| 0 <= k < b0.len() && b0[k] == '/';
                assert(b[k] == '/');
            }
        }
        lemma_segments_append(a, b0);
        assert((a + b).drop_last() =~= a + b0);
        assert((a + b).last() == b.last());
        assert(b[b.len() - 1] == b.last());
        let head = segments(a + b0);
        assert(head.drop_last() =~= segments(a).drop_last());
        assert((segments(a).last() + b0).push(b.last()) =~= segments(a).last() + b);
    }
}

/// Segments without slashes, joined, are the segments of what they form.
pub proof fn lemma_segments_of_joined(list: Seq<Seq<char>>)
    requires
        list.len() >= 1,
        forall|i: int| 0 <= i < list.len() ==> !(#[trigger] list[i]).contains('/'),
    ensures
        segments(joined(list)) == list,
    decreases list.len(),
{
    if list.len() == 1 {
        lemma_segments_append(Seq::empty(), list[0]);
        assert(Seq::<char>::empty() + list[0] =~= list[0]);
        assert(segments(Seq::<char>::empty()) =~= seq![Seq::<char>::empty()]);
        assert(Seq::<char>::empty() + list[0] =~= list[0]);
        assert(segments(joined(list)) =~= list);
    } else {
        let front = list.drop_last();
        lemma_segments_of_joined(front);
        let a = joined(front) + seq!['/'];
        assert(a.drop_last() =~= joined(front));
        assert(segments(a) == front.push(Seq::empty()));
        lemma_segments_append(a, list.last());
        assert(front.push(Seq::<char>::empty()).drop_last() =~= front);
        assert(Seq::<char>::empty() + list.last() =~= list.last());
        assert(front.push(list.last()) =~= list);
    }
}

proof fn lemma_captured_literal(pattern: Seq<Seq<char>>, path: Seq<Seq<char>>, n: nat)
    requires
        n <= pattern.len(),
        n <= path.len(),
        forall|i: int| 0 <= i < pattern.len() ==> literal(#[trigger] pattern[i]),
    ensures
        captured(pattern, path, n) == if path.take(n as int) == pattern.take(n as int) {
            Some(Seq::<(Seq<char>, Seq<char>)>::empty())
        } else {
            None
        },
    decreases n,
{
    if n == 0 {
        assert(path.take(0) =~= pattern.take(0));
    } else {
        lemma_captured_literal(pattern, path, (n - 1) as nat);
        let a = path.take(n as int);
        let b = pattern.take(n as int);
        if path.take(n - 1) == pattern.take(n - 1) && path[n - 1] == pattern[n - 1] {
            assert(a =~= path.take(n - 1).push(path[n - 1]));
            assert(b =~= pattern.take(n - 1).push(pattern[n - 1]));
        } else if a == b {
            assert(a[n - 1] == b[n - 1]);
            assert(path.take(n - 1) =~= a.take(n - 1));
            assert(pattern.take(n - 1) =~= b.take(n - 1));
        }
    }
}

/// A pattern without braces is plain and matches one path, the
/// pattern itself, which captures nothing.
pub proof fn lemma_literal_pattern(pattern: Seq<char>, path: Seq<char>)
    requires
        literal(pattern),
    ensures
        plain(pattern),
        pattern_match(pattern, path) == if path == pattern {
            Some(Seq::<(Seq<char>, Seq<char>)>::empty())
        } else {
            None
        },
{
    let ps = segments(pattern);
    let qs = segments(path);
    assert forall|i: int| 0 <= i < ps.len() implies literal(#[trigger] ps[i]) by {
        if ps[i].contains('{') {
            lemma_segment_chars(pattern, i, '{');
        }
        if ps[i].contains('}') {
            lemma_segment_chars(pattern, i, '}');
        }
    }
    if ps.len() == qs.len() {
        lemma_captured_literal(ps, qs, ps.len());
        assert(ps.take(ps.len() as int) =~= ps);
        assert(qs.take(ps.len() as int) =~= qs);
        if qs == ps {
            lemma_joined_segments(pattern);
            lemma_joined_segments(path);
        }
    }
}

proof fn lemma_captured_single(
    pattern: Seq<Seq<char>>,
    path: Seq<Seq<char>>,
    at: int,
    n: nat,
)
    requires
        n <= pattern.len(),
        0 <= at < pattern.len(),
        capture_name(pattern[at]) is Some,
        forall|i: int| 0 <= i < pattern.len() && i != at ==> literal(#[trigger] pattern[i]),
        path.len() == pattern.len(),
        path[at].len() > 0,
        forall|i: int| 0 <= i < pattern.len() && i != at ==> #[trigger] path[i] == pattern[i],
    ensures
        captured(pattern, path, n) == Some(
            if n > at {
                seq![(capture_name(pattern[at])->0, path[at])]
            } else {
                Seq::empty()
            },
        ),
    decreases n,
{
    if n > 0 {
        lemma_captured_single(pattern, path, at, (n - 1) as nat);
        if n - 1 == at {
            assert(pattern[at][0] == '{');
            assert(pattern[at].contains('{'));
            assert(Seq::<(Seq<char>, Seq<char>)>::empty().push(
                (capture_name(pattern[at])->0, path[at]),
            ) =~= seq![(capture_name(pattern[at])->0, path[at])]);
        } else {
            assert(literal(pattern[n - 1]));
        }
    }
}

/// A pattern with one capture, the segment at `at`, matches every path
/// that has a text without slash, not empty, in the place of that segment;
/// the path captures that text, under the name of the capture, and nothing
/// else.
pub proof fn lemma_single_capture(pattern: Seq<char>, path: Seq<char>, at: int, value: Seq<char>)
    requires
        0 <= at < segments(pattern).len(),
        capture_name(segments(pattern)[at]) is Some,
        forall|i: int|
            0 <= i < segments(pattern).len() && i != at ==> literal(
                #[trigger] segments(pattern)[i],
            ),
        value.len() > 0,
        !value.contains('/'),
        path == joined(segments(pattern).update(at, value)),
    ensures
        plain(pattern),
        pattern_match(pattern, path) == Some(
            seq![(capture_name(segments(pattern)[at])->0, value)],
        ),
{
    let ps = segments(pattern);
    let qs = ps.update(at, value);
    assert forall|i: int| 0 <= i < qs.len() implies !(#[trigger] qs[i]).contains('/') by {
        if i != at && qs[i].contains('/') {
            lemma_segment_chars(pattern, i, '/');
        }
    }
    lemma_segments_of_joined(qs);
    lemma_captured_single(ps, qs, at, ps.len());
}

/// Once a segment did not match, the path does not match.
pub proof fn lemma_captured_stays_none(
    pattern: Seq<Seq<char>>,
    path: Seq<Seq<char>>,
    n: nat,
    m: nat,
)
    requires
        n <= m,
        captured(pattern, path, n) is None,
    ensures
        captured(pattern, path, m) is None,
    decreases m,
{
    if n < m {
        lemma_captured_stays_none(pattern, path, n, (m - 1) as nat);
    }
}

/// What the first segments captured stays at the beginning of what the path
/// captures in all.
pub proof fn lemma_captured_grows(pattern: Seq<Seq<char>>, path: Seq<Seq<char>>, n: nat, m: nat)
    requires
        n <= m,
        captured(pattern, path, m) is Some,
    ensures
        captured(pattern, path, n) is Some,
        captured(pattern, path, n)->0.is_prefix_of(captured(pattern, path, m)->0),
    decreases m,
{
    if n < m {
        lemma_captured_grows(pattern, path, n, (m - 1) as nat);
    }
}

} // verus!
