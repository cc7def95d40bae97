//! Loading the set of shown files from its persisted text, and marking one
//! more file as shown: a full read, insert and rewrite.

use crate::error::CycleError;
use crate::file_id::{is_storable_id, lemma_ascending_no_duplicates};
use crate::seen::{
    is_canonical, lemma_canonical_unique, lemma_line_end, lines, seen_ids_of, SeenSet,
};
use vstd::prelude::*;

verus! {

/// What was read from storage: the text, or nothing where no state has been
/// persisted yet.
pub open spec fn text_of(contents: Option<&str>) -> Option<Seq<char>> {
    match contents {
        Some(text) => Some(text@),
        None => None,
    }
}

/// The set that a persisted state stands for: empty before the first write.
pub open spec fn loaded_ids(contents: Option<Seq<char>>) -> Set<Seq<char>> {
    match contents {
        Some(text) => seen_ids_of(text),
        None => Set::empty(),
    }
}

/// `text` is what marking `id` writes over the state `prior`: the persisted
/// form of the prior set with `id` added.
pub open spec fn is_marked(prior: Option<Seq<char>>, id: Seq<char>, text: Seq<char>) -> bool {
    is_canonical(text) && seen_ids_of(text) == loaded_ids(prior).insert(id)
}

/// The name of the file that holds the persisted set.
pub fn seen_ids_file_name() -> (name: &'static str)
    ensures
        name@ == "seen-ids.txt"@,
{
    "seen-ids.txt"
}

/// Loads the set of shown files from what storage holds.
pub fn get_seen_ids(contents: Option<&str>) -> (seen: SeenSet)
    ensures
        seen.wf(),
        seen@ == loaded_ids(text_of(contents)),
{
    match contents {
        Some(text) => SeenSet::parse(text),
        None => SeenSet::new(),
    }
}

/// Marks `file_id` as shown: gives the text to write in place of
/// `contents`. An identifier that cannot stand on a line of its own is
/// refused as a storage error.
pub fn set_file_seen(contents: Option<&str>, file_id: &str) -> (r: Result<String, CycleError>)
    ensures
        is_storable_id(file_id@) ==> (r matches Ok(text) && is_marked(
            text_of(contents),
            file_id@,
            text@,
        )),
        !is_storable_id(file_id@) ==> (r matches Err(e) && e == CycleError::StorageError),
{
    let mut seen = get_seen_ids(contents);
    if seen.insert(file_id) {
        Ok(seen.render())
    } else {
        Err(CycleError::StorageError)
    }
}

/// Loading what a mark wrote gives the prior set with the marked identifier
/// added, whatever the prior text was.
pub proof fn lemma_mark_round_trip(prior: Option<Seq<char>>, id: Seq<char>, text: Seq<char>)
    requires
        is_marked(prior, id, text),
    ensures
        loaded_ids(Some(text)) == loaded_ids(prior).insert(id),
        loaded_ids(Some(text)).contains(id),
        forall|x: Seq<char>| loaded_ids(prior).contains(x) ==> loaded_ids(Some(text)).contains(x),
{
}

/// Marking the same identifier a second time leaves the persisted set as the
/// first mark made it.
pub proof fn lemma_mark_idempotent(
    prior: Option<Seq<char>>,
    id: Seq<char>,
    once: Seq<char>,
    twice: Seq<char>,
)
    requires
        is_marked(prior, id, once),
        is_marked(Some(once), id, twice),
    ensures
        seen_ids_of(twice) == seen_ids_of(once),
        twice == once,
{
    assert(seen_ids_of(once).insert(id) =~= seen_ids_of(once));
    lemma_canonical_unique(once, twice);
}

/// A mark has one outcome: the prior state and the identifier fix the text
/// that is written.
pub proof fn lemma_mark_unique(
    prior: Option<Seq<char>>,
    id: Seq<char>,
    first: Seq<char>,
    second: Seq<char>,
)
    requires
        is_marked(prior, id, first),
        is_marked(prior, id, second),
    ensures
        first == second,
{
    lemma_canonical_unique(first, second);
}

/// What a mark of a storable identifier wrote holds no empty line and no
/// line twice, whatever the prior text held.
pub proof fn lemma_marked_lines(
    prior: Option<Seq<char>>,
    id: Seq<char>,
    text: Seq<char>,
)
    requires
        is_marked(prior, id, text),
        is_storable_id(id),
    ensures
        forall|k: int| 0 <= k < lines(text).len() ==> (#[trigger] lines(text)[k]).len() > 0,
        lines(text).no_duplicates(),
{
    lemma_ascending_no_duplicates(lines(text));
    assert(seen_ids_of(text).contains(id));
    if text.len() == 0 {
        lemma_line_end(text, 0);
        let k = choose|k: int| 0 <= k < lines(text).len() && lines(text)[k] == id;
        assert(lines(text)[k] == text);
    }
    assert forall|k: int| 0 <= k < lines(text).len() implies (#[trigger] lines(text)[k]).len()
        > 0 by {
        assert(is_storable_id(lines(text)[k]));
    }
}

} // verus!
