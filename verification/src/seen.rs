//! The set of identifiers already shown, and its persisted form: one
//! identifier per line, ascending, without repeats or empty lines.

use crate::file_id::{
    ascending, compare_ids, id_lt, is_storable_id, lemma_id_lt_asymmetric,
    lemma_id_lt_irreflexive, lemma_id_lt_transitive, line_break, storable, IdOrder,
};
use crate::text::{char_at, char_count, piece};
use vstd::prelude::*;
use vstd::string::*;

verus! {

/// Length of the first line of `text`: the position of its first line
/// break, or its length where it holds none.
pub open spec fn line_end(text: Seq<char>) -> nat
    decreases text.len(),
{
    if text.len() == 0 || text[0] == line_break() {
        0
    } else {
        (line_end(text.drop_first()) + 1) as nat
    }
}

/// The lines of `text`: the pieces between its line breaks, in order, empty
/// ones included.
pub open spec fn lines(text: Seq<char>) -> Seq<Seq<char>>
    decreases text.len(),
{
    let e = line_end(text) as int;
    if e >= text.len() {
        seq![text]
    } else {
        seq![text.take(e)] + lines(text.skip(e + 1))
    }
}

/// The identifiers among some lines: the lines that are not empty.
pub open spec fn ids_among(l: Seq<Seq<char>>) -> Set<Seq<char>> {
    Set::new(|x: Seq<char>| x.len() > 0 && l.contains(x))
}

/// The set that a persisted text stands for. Empty lines count for nothing.
pub open spec fn seen_ids_of(text: Seq<char>) -> Set<Seq<char>> {
    ids_among(lines(text))
}

/// The identifiers joined by single line breaks, none after the last.
pub open spec fn join_lines(ids: Seq<Seq<char>>) -> Seq<char>
    decreases ids.len(),
{
    if ids.len() == 0 {
        Seq::empty()
    } else if ids.len() == 1 {
        ids[0]
    } else {
        ids[0] + seq![line_break()] + join_lines(ids.drop_first())
    }
}

/// The form in which the set is written: empty, or lines that are all
/// storable identifiers in strictly ascending order.
pub open spec fn is_canonical(text: Seq<char>) -> bool {
    text.len() == 0 || (ascending(lines(text)) && forall|k: int|
        0 <= k < lines(text).len() ==> is_storable_id(#[trigger] lines(text)[k]))
}

/// A text whose first line break stands at `e`, or that has length `e` and
/// no line break, has a first line of length `e`.
pub proof fn lemma_line_end(text: Seq<char>, e: int)
    requires
        0 <= e <= text.len(),
        forall|k: int| 0 <= k < e ==> text[k] != line_break(),
        e == text.len() || text[e] == line_break(),
    ensures
        line_end(text) == e,
    decreases e,
{
    if e > 0 {
        lemma_line_end(text.drop_first(), e - 1);
    }
}

/// The lines of the text from `start` on, where its next line break stands
/// at `i`: the piece up to `i`, then the lines of what follows the break.
pub proof fn lemma_lines_at_break(text: Seq<char>, start: int, i: int)
    requires
        0 <= start <= i < text.len(),
        forall|k: int| start <= k < i ==> text[k] != line_break(),
        text[i] == line_break(),
    ensures
        lines(text.skip(start)) == seq![text.subrange(start, i)] + lines(text.skip(i + 1)),
{
    let rest = text.skip(start);
    lemma_line_end(rest, i - start);
    assert(rest.take(i - start) =~= text.subrange(start, i));
    assert(rest.skip(i - start + 1) =~= text.skip(i + 1));
}

/// The text from `start` on, where it holds no line break, is one line.
pub proof fn lemma_lines_last(text: Seq<char>, start: int)
    requires
        0 <= start <= text.len(),
        forall|k: int| start <= k < text.len() ==> text[k] != line_break(),
    ensures
        lines(text.skip(start)) == seq![text.skip(start)],
{
    lemma_line_end(text.skip(start), text.len() - start);
}

/// One more line in front adds it to the identifiers, unless it is empty.
pub proof fn lemma_ids_among_front(first: Seq<char>, rest: Seq<Seq<char>>)
    ensures
        ids_among(seq![first] + rest) == if first.len() > 0 {
            ids_among(rest).insert(first)
        } else {
            ids_among(rest)
        },
{
    let all = seq![first] + rest;
    let target = if first.len() > 0 {
        ids_among(rest).insert(first)
    } else {
        ids_among(rest)
    };
    assert forall|x: Seq<char>| ids_among(all).contains(x) == target.contains(x) by {
        if ids_among(all).contains(x) {
            let k = choose|k: int| 0 <= k < all.len() && all[k] == x;
            if k > 0 {
                assert(rest[k - 1] == x);
            }
        }
        if target.contains(x) {
            if x == first {
                assert(all[0] == x);
            } else {
                let k = choose|k: int| 0 <= k < rest.len() && rest[k] == x;
                assert(all[k + 1] == x);
            }
        }
    }
    assert(ids_among(all) =~= target);
}

/// Joining one more identifier behind a list that is not empty.
pub proof fn lemma_join_lines_push(ids: Seq<Seq<char>>, id: Seq<char>)
    requires
        ids.len() > 0,
    ensures
        join_lines(ids.push(id)) == join_lines(ids) + seq![line_break()] + id,
    decreases ids.len(),
{
    let more = ids.push(id);
    assert(more.drop_first() =~= ids.drop_first().push(id));
    if ids.len() == 1 {
        assert(more.drop_first() =~= seq![id]);
        assert(join_lines(more.drop_first()) == id);
    } else {
        lemma_join_lines_push(ids.drop_first(), id);
        assert(join_lines(more) =~= join_lines(ids) + seq![line_break()] + id);
    }
}

/// Splitting what was joined gives the identifiers back, where none of them
/// holds a line break and there is at least one.
pub proof fn lemma_lines_of_join(ids: Seq<Seq<char>>)
    requires
        ids.len() > 0,
        forall|i: int, k: int|
            0 <= i < ids.len() && 0 <= k < ids[i].len() ==> ids[i][k] != line_break(),
    ensures
        lines(join_lines(ids)) == ids,
    decreases ids.len(),
{
    let text = join_lines(ids);
    if ids.len() == 1 {
        lemma_line_end(text, text.len() as int);
        assert(seq![text] =~= ids);
    } else {
        let tail = ids.drop_first();
        assert forall|i: int, k: int| 0 <= i < tail.len() && 0 <= k < tail[i].len() implies tail[i][k]
            != line_break() by {
            assert(tail[i] == ids[i + 1]);
        }
        lemma_lines_of_join(tail);
        let e = ids[0].len() as int;
        lemma_line_end(text, e);
        assert(text.take(e) =~= ids[0]);
        assert(text.skip(e + 1) =~= join_lines(tail));
        assert(seq![ids[0]] + tail =~= ids);
    }
}

/// Joined, a list of storable identifiers in ascending order is in persisted
/// form and stands for exactly its identifiers.
pub proof fn lemma_canonical_join(ids: Seq<Seq<char>>)
    requires
        ascending(ids),
        forall|i: int| 0 <= i < ids.len() ==> is_storable_id(#[trigger] ids[i]),
    ensures
        is_canonical(join_lines(ids)),
        ids.len() > 0 ==> lines(join_lines(ids)) == ids,
        seen_ids_of(join_lines(ids)) == ids_among(ids),
{
    if ids.len() > 0 {
        assert forall|i: int, k: int| 0 <= i < ids.len() && 0 <= k < ids[i].len() implies ids[i][k]
            != line_break() by {
            assert(is_storable_id(ids[i]));
        }
        lemma_lines_of_join(ids);
    } else {
        let none = Seq::<char>::empty();
        lemma_line_end(none, 0);
        assert forall|x: Seq<char>| !ids_among(seq![none]).contains(x) by {
            if seq![none].contains(x) {
                let k = choose|k: int| 0 <= k < seq![none].len() && seq![none][k] == x;
                assert(x == none);
            }
        }
        assert(ids_among(seq![none]) =~= ids_among(ids));
    }
}

/// The first line ends within the text, and at a line break unless it ends
/// the text.
pub proof fn lemma_line_end_bounds(text: Seq<char>)
    ensures
        line_end(text) <= text.len(),
        line_end(text) < text.len() ==> text[line_end(text) as int] == line_break(),
    decreases text.len(),
{
    if text.len() > 0 && text[0] != line_break() {
        lemma_line_end_bounds(text.drop_first());
    }
}

/// Joining the lines of a text gives the text back.
pub proof fn lemma_join_of_lines(text: Seq<char>)
    ensures
        lines(text).len() > 0,
        join_lines(lines(text)) == text,
    decreases text.len(),
{
    lemma_line_end_bounds(text);
    let e = line_end(text) as int;
    if e < text.len() {
        let rest = text.skip(e + 1);
        lemma_join_of_lines(rest);
        let all = lines(text);
        assert(all.drop_first() =~= lines(rest));
        assert(all[0] == text.take(e));
        assert(text =~= text.take(e) + seq![line_break()] + rest);
    }
}

/// Two ascending lists that hold the same identifiers are the same list.
pub proof fn lemma_ascending_unique(a: Seq<Seq<char>>, b: Seq<Seq<char>>)
    requires
        ascending(a),
        ascending(b),
        forall|x: Seq<char>| a.contains(x) <==> b.contains(x),
    ensures
        a == b,
    decreases a.len(),
{
    if a.len() == 0 || b.len() == 0 {
        if a.len() > 0 {
            assert(a.contains(a[0]));
        }
        if b.len() > 0 {
            assert(b.contains(b[0]));
        }
        assert(a =~= b);
    } else {
        assert(a.contains(a[0]));
        assert(b.contains(b[0]));
        if a[0] != b[0] {
            let j = choose|j: int| 0 <= j < b.len() && b[j] == a[0];
            let i = choose|i: int| 0 <= i < a.len() && a[i] == b[0];
            assert(id_lt(b[0], b[j]));
            assert(id_lt(a[0], a[i]));
            lemma_id_lt_asymmetric(a[0], b[0]);
        }
        let ta = a.drop_first();
        let tb = b.drop_first();
        assert forall|x: Seq<char>| ta.contains(x) <==> tb.contains(x) by {
            lemma_id_lt_irreflexive(x);
            if ta.contains(x) {
                let k = choose|k: int| 0 <= k < ta.len() && ta[k] == x;
                assert(a[k + 1] == x);
                assert(id_lt(a[0], a[k + 1]));
                assert(a.contains(x));
                let m = choose|m: int| 0 <= m < b.len() && b[m] == x;
                assert(tb[m - 1] == x);
            }
            if tb.contains(x) {
                let k = choose|k: int| 0 <= k < tb.len() && tb[k] == x;
                assert(b[k + 1] == x);
                assert(id_lt(b[0], b[k + 1]));
                assert(b.contains(x));
                let m = choose|m: int| 0 <= m < a.len() && a[m] == x;
                assert(ta[m - 1] == x);
            }
        }
        assert(ascending(ta)) by {
            assert forall|p: int, q: int| 0 <= p < q < ta.len() implies id_lt(
                #[trigger] ta[p],
                #[trigger] ta[q],
            ) by {
                assert(id_lt(a[p + 1], a[q + 1]));
            }
        }
        assert(ascending(tb)) by {
            assert forall|p: int, q: int| 0 <= p < q < tb.len() implies id_lt(
                #[trigger] tb[p],
                #[trigger] tb[q],
            ) by {
                assert(id_lt(b[p + 1], b[q + 1]));
            }
        }
        lemma_ascending_unique(ta, tb);
        assert(a =~= seq![a[0]] + ta);
        assert(b =~= seq![b[0]] + tb);
    }
}

/// A set has one persisted form: two texts in persisted form that stand for
/// the same set are the same text.
pub proof fn lemma_canonical_unique(first: Seq<char>, second: Seq<char>)
    requires
        is_canonical(first),
        is_canonical(second),
        seen_ids_of(first) == seen_ids_of(second),
    ensures
        first == second,
{
    lemma_join_of_lines(first);
    lemma_join_of_lines(second);
    lemma_canonical_join(Seq::<Seq<char>>::empty());
    let none = Seq::<char>::empty();
    assert(join_lines(Seq::<Seq<char>>::empty()) == none);
    assert(forall|x: Seq<char>| !ids_among(Seq::<Seq<char>>::empty()).contains(x));
    if first.len() == 0 || second.len() == 0 {
        if first.len() > 0 {
            assert(second =~= none);
            assert(is_storable_id(lines(first)[0]));
            assert(seen_ids_of(first).contains(lines(first)[0]));
        }
        if second.len() > 0 {
            assert(first =~= none);
            assert(is_storable_id(lines(second)[0]));
            assert(seen_ids_of(second).contains(lines(second)[0]));
        }
        assert(first =~= second);
    } else {
        let a = lines(first);
        let b = lines(second);
        assert forall|x: Seq<char>| a.contains(x) <==> b.contains(x) by {
            if a.contains(x) {
                let k = choose|k: int| 0 <= k < a.len() && a[k] == x;
                assert(is_storable_id(a[k]));
                assert(seen_ids_of(first).contains(x));
                assert(seen_ids_of(second).contains(x));
            }
            if b.contains(x) {
                let k = choose|k: int| 0 <= k < b.len() && b[k] == x;
                assert(is_storable_id(b[k]));
                assert(seen_ids_of(second).contains(x));
                assert(seen_ids_of(first).contains(x));
            }
        }
        lemma_ascending_unique(a, b);
    }
}

/// The identifiers already shown.
pub struct SeenSet {
    ids: Vec<String>,
}

impl View for SeenSet {
    type V = Set<Seq<char>>;

    /// The identifiers as a set.
    open spec fn view(&self) -> Set<Seq<char>> {
        Set::new(|x: Seq<char>| self.entries().contains(x))
    }
}

impl SeenSet {
    /// The identifiers in the order in which they are kept and written.
    pub closed spec fn entries(&self) -> Seq<Seq<char>> {
        Seq::new(self.ids@.len(), |i: int| self.ids@[i]@)
    }

    /// The entries are storable identifiers in strictly ascending order, so
    /// none occurs twice.
    pub open spec fn wf(&self) -> bool {
        &&& ascending(self.entries())
        &&& forall|i: int|
            0 <= i < self.entries().len() ==> is_storable_id(#[trigger] self.entries()[i])
    }

    /// The empty set.
    pub fn new() -> (seen: SeenSet)
        ensures
            seen.wf(),
            seen.entries() == Seq::<Seq<char>>::empty(),
            seen@ == Set::<Seq<char>>::empty(),
    {
        let seen = SeenSet { ids: Vec::new() };
        assert(seen.entries() =~= Seq::<Seq<char>>::empty());
        assert(seen@ =~= Set::<Seq<char>>::empty());
        seen
    }

    /// The number of identifiers.
    pub fn len(&self) -> (n: usize)
        ensures
            n == self.entries().len(),
    {
        self.ids.len()
    }

    /// The identifier at place `i` of the ascending order.
    pub fn get(&self, i: usize) -> (id: &String)
        requires
            i < self.entries().len(),
        ensures
            id@ == self.entries()[i as int],
    {
        &self.ids[i]
    }

    /// Tells whether `id` has been shown.
    pub fn contains(&self, id: &str) -> (r: bool)
        ensures
            r == self@.contains(id@),
    {
        let mut i: usize = 0;
        while i < self.ids.len()
            invariant
                i <= self.ids@.len(),
                forall|k: int| 0 <= k < i ==> self.entries()[k] != id@,
            decreases self.ids@.len() - i,
        {
            if compare_ids(self.ids[i].as_str(), id) == IdOrder::Same {
                assert(self.entries()[i as int] == id@);
                return true;
            }
            i += 1;
        }
        false
    }

    /// Adds `id`, keeping the order. An identifier that cannot be stored is
    /// refused and the set stays as it was.
    pub fn insert(&mut self, id: &str) -> (accepted: bool)
        requires
            old(self).wf(),
        ensures
            final(self).wf(),
            accepted == is_storable_id(id@),
            accepted ==> final(self)@ == old(self)@.insert(id@),
            !accepted ==> final(self).entries() == old(self).entries(),
    {
        if !storable(id) {
            return false;
        }
        let mut i: usize = 0;
        let mut placed: bool = false;
        while !placed && i < self.ids.len()
            invariant
                i <= self.ids@.len(),
                self.ids == old(self).ids,
                old(self).wf(),
                is_storable_id(id@),
                forall|k: int| 0 <= k < i ==> id_lt(self.entries()[k], id@),
                placed ==> i < self.ids@.len() && id_lt(id@, self.entries()[i as int]),
            decreases self.ids@.len() - i + if placed { 0int } else { 1int },
        {
            let order: IdOrder = compare_ids(self.ids[i].as_str(), id);
            if order == IdOrder::Same {
                proof {
                    assert(self.entries()[i as int] == id@);
                    assert(self@ =~= old(self)@.insert(id@));
                }
                return true;
            }
            if order == IdOrder::After {
                placed = true;
            } else {
                i += 1;
            }
        }
        self.ids.insert(i, id.to_owned());
        proof {
            let before = old(self).entries();
            let after = self.entries();
            assert(after =~= before.insert(i as int, id@));
            assert forall|p: int, q: int| 0 <= p < q < after.len() implies id_lt(
                #[trigger] after[p],
                #[trigger] after[q],
            ) by {
                if p < i && q > i {
                    assert(id_lt(before[p], before[q - 1]));
                } else if p < i && q < i {
                    assert(id_lt(before[p], before[q]));
                } else if p == i {
                    if q - 1 > i {
                        assert(id_lt(before[i as int], before[q - 1]));
                        lemma_id_lt_transitive(id@, before[i as int], before[q - 1]);
                    }
                } else if p > i {
                    assert(id_lt(before[p - 1], before[q - 1]));
                }
            }
            assert forall|k: int| 0 <= k < after.len() implies is_storable_id(
                #[trigger] after[k],
            ) by {
                if k < i {
                    assert(is_storable_id(before[k]));
                } else if k > i {
                    assert(is_storable_id(before[k - 1]));
                }
            }
            assert forall|x: Seq<char>| self@.contains(x) == old(self)@.insert(id@).contains(
                x,
            ) by {
                if after.contains(x) {
                    let k = choose|k: int| 0 <= k < after.len() && after[k] == x;
                    if k < i {
                        assert(before[k] == x);
                    } else if k > i {
                        assert(before[k - 1] == x);
                    }
                }
                if x == id@ {
                    assert(after[i as int] == x);
                } else if before.contains(x) {
                    let k = choose|k: int| 0 <= k < before.len() && before[k] == x;
                    if k < i {
                        assert(after[k] == x);
                    } else {
                        assert(after[k + 1] == x);
                    }
                }
            }
            assert(self@ =~= old(self)@.insert(id@));
        }
        true
    }

    /// Reads a persisted text: each line that is not empty is an identifier.
    /// Repeats and empty lines are tolerated and dropped.
    pub fn parse(contents: &str) -> (seen: SeenSet)
        ensures
            seen.wf(),
            seen@ == seen_ids_of(contents@),
    {
        let plain: bool = contents.is_ascii();
        let n: usize = char_count(contents, plain);
        let mut seen = SeenSet::new();
        let mut start: usize = 0;
        let mut i: usize = 0;
        proof {
            assert(contents@.skip(0) =~= contents@);
            assert(seen@.union(seen_ids_of(contents@)) =~= seen_ids_of(contents@));
        }
        while i < n
            invariant
                plain ==> is_ascii(contents),
                n == contents@.len(),
                start <= i <= n,
                seen.wf(),
                forall|k: int| start <= k < i ==> contents@[k] != line_break(),
                seen_ids_of(contents@) == seen@.union(seen_ids_of(contents@.skip(start as int))),
            decreases n - i,
        {
            if char_at(contents, i, plain) == '\n' {
                let ghost line = contents@.subrange(start as int, i as int);
                let ghost rest = lines(contents@.skip(i + 1));
                let ghost before = seen@;
                proof {
                    lemma_lines_at_break(contents@, start as int, i as int);
                    lemma_ids_among_front(line, rest);
                }
                if i > start {
                    let part: &str = piece(contents, start, i, plain);
                    assert(is_storable_id(part@));
                    seen.insert(part);
                }
                proof {
                    assert(before.union(ids_among(seq![line] + rest)) =~= seen@.union(
                        ids_among(rest),
                    ));
                }
                start = i + 1;
            }
            i += 1;
        }
        let ghost line = contents@.skip(start as int);
        let ghost before = seen@;
        proof {
            lemma_lines_last(contents@, start as int);
            lemma_ids_among_front(line, Seq::<Seq<char>>::empty());
            assert(seq![line] + Seq::<Seq<char>>::empty() =~= seq![line]);
            assert(ids_among(Seq::<Seq<char>>::empty()) =~= Set::<Seq<char>>::empty());
        }
        if n > start {
            let part: &str = piece(contents, start, n, plain);
            assert(part@ =~= line);
            assert(is_storable_id(part@));
            seen.insert(part);
        }
        proof {
            assert(before.union(ids_among(seq![line])) =~= seen@);
        }
        seen
    }

    /// Writes the set in its persisted form: the identifiers in ascending
    /// order, joined by single line breaks.
    pub fn render(&self) -> (text: String)
        requires
            self.wf(),
        ensures
            text@ == join_lines(self.entries()),
            is_canonical(text@),
            seen_ids_of(text@) == self@,
    {
        let mut text = String::new();
        let mut i: usize = 0;
        proof {
            assert(self.entries().take(0) =~= Seq::<Seq<char>>::empty());
        }
        while i < self.ids.len()
            invariant
                i <= self.ids@.len(),
                text@ == join_lines(self.entries().take(i as int)),
            decreases self.ids@.len() - i,
        {
            let ghost done = self.entries().take(i as int);
            if i > 0 {
                proof {
                    reveal_strlit("\n");
                }
                text.append("\n");
                assert(text@ =~= join_lines(done) + seq![line_break()]);
            }
            text.append(self.ids[i].as_str());
            proof {
                let id = self.entries()[i as int];
                assert(self.entries().take(i + 1) =~= done.push(id));
                if i > 0 {
                    lemma_join_lines_push(done, id);
                } else {
                    assert(text@ =~= id);
                }
            }
            i += 1;
        }
        proof {
            let all = self.entries();
            assert(all.take(all.len() as int) =~= all);
            lemma_canonical_join(all);
            assert(ids_among(all) =~= self@);
        }
        text
    }
}

} // verus!
