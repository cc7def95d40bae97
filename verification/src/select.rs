//! The choice of the next image: the first listed file that has not been
//! shown, with an optional fallback to any listed file on the first run.

use crate::error::CycleError;
use crate::seen::SeenSet;
use rand::seq::SliceRandom;
use vstd::prelude::*;

verus! {

/// Whether the agent has shown a wallpaper since it started.
#[derive(Clone, Copy, Debug, PartialEq, Eq, Structural)]
pub enum RunPhase {
    /// No cycle has succeeded yet.
    FirstRun,
    /// At least one cycle has succeeded.
    SteadyState,
}

/// The identifiers of a listing, in its order.
pub open spec fn ids_of(listing: Seq<String>) -> Seq<Seq<char>> {
    Seq::new(listing.len(), |i: int| listing[i]@)
}

/// The place of the first identifier that is not in `seen`, or the length of
/// the listing where all are.
pub open spec fn first_unseen(ids: Seq<Seq<char>>, seen: Set<Seq<char>>) -> int
    decreases ids.len(),
{
    if ids.len() == 0 || !seen.contains(ids[0]) {
        0
    } else {
        1 + first_unseen(ids.drop_first(), seen)
    }
}

/// The policy: an empty listing has no candidates; else the first unseen
/// identifier is chosen; where all are seen there is nothing new.
pub open spec fn select_spec(ids: Seq<Seq<char>>, seen: Set<Seq<char>>) -> Result<
    Seq<char>,
    CycleError,
> {
    if ids.len() == 0 {
        Err(CycleError::NoCandidates)
    } else if first_unseen(ids, seen) < ids.len() {
        Ok(ids[first_unseen(ids, seen)])
    } else {
        Err(CycleError::NoNewFiles)
    }
}

/// A place before which every identifier is seen, and which is the end of
/// the listing or holds an unseen one, is the place of the first unseen.
pub proof fn lemma_first_unseen_at(ids: Seq<Seq<char>>, seen: Set<Seq<char>>, i: int)
    requires
        0 <= i <= ids.len(),
        forall|j: int| 0 <= j < i ==> seen.contains(ids[j]),
        i < ids.len() ==> !seen.contains(ids[i]),
    ensures
        first_unseen(ids, seen) == i,
    decreases i,
{
    if i > 0 {
        let tail = ids.drop_first();
        assert forall|j: int| 0 <= j < i - 1 implies seen.contains(tail[j]) by {
            assert(tail[j] == ids[j + 1]);
        }
        lemma_first_unseen_at(tail, seen, i - 1);
    }
}

/// Where some listed identifier is unseen, the policy returns the first such
/// one in the order of the listing.
pub proof fn lemma_select_first_unseen(ids: Seq<Seq<char>>, seen: Set<Seq<char>>, i: int)
    requires
        0 <= i < ids.len(),
        !seen.contains(ids[i]),
        forall|j: int| 0 <= j < i ==> seen.contains(ids[j]),
    ensures
        select_spec(ids, seen) == Ok::<Seq<char>, CycleError>(ids[i]),
{
    lemma_first_unseen_at(ids, seen, i);
}

/// Where the listing is not empty and all of it is seen, the policy finds
/// nothing new.
pub proof fn lemma_select_all_seen(ids: Seq<Seq<char>>, seen: Set<Seq<char>>)
    requires
        ids.len() > 0,
        forall|j: int| 0 <= j < ids.len() ==> seen.contains(ids[j]),
    ensures
        select_spec(ids, seen) == Err::<Seq<char>, CycleError>(CycleError::NoNewFiles),
{
    lemma_first_unseen_at(ids, seen, ids.len() as int);
}

/// An empty listing has no candidates, whatever was seen.
pub proof fn lemma_select_empty(seen: Set<Seq<char>>)
    ensures
        select_spec(Seq::<Seq<char>>::empty(), seen) == Err::<Seq<char>, CycleError>(
            CycleError::NoCandidates,
        ),
{
}

/// With nothing seen, the first listed identifier is chosen.
pub proof fn lemma_select_nothing_seen(ids: Seq<Seq<char>>)
    requires
        ids.len() > 0,
    ensures
        select_spec(ids, Set::<Seq<char>>::empty()) == Ok::<Seq<char>, CycleError>(ids[0]),
{
}

/// Chooses the file to show next: the first of `candidates` that is not in
/// `seen`.
pub fn select<'a>(candidates: &'a [String], seen: &SeenSet) -> (r: Result<&'a String, CycleError>)
    ensures
        match select_spec(ids_of(candidates@), seen@) {
            Ok(id) => r matches Ok(s) && s@ == id && *s == candidates@[first_unseen(
                ids_of(candidates@),
                seen@,
            )],
            Err(e) => r matches Err(f) && f == e,
        },
{
    if candidates.len() == 0 {
        return Err(CycleError::NoCandidates);
    }
    let mut i: usize = 0;
    while i < candidates.len()
        invariant
            i <= candidates@.len(),
            forall|j: int| 0 <= j < i ==> seen@.contains(ids_of(candidates@)[j]),
        decreases candidates@.len() - i,
    {
        if !seen.contains(candidates[i].as_str()) {
            proof {
                lemma_first_unseen_at(ids_of(candidates@), seen@, i as int);
            }
            return Ok(&candidates[i]);
        }
        i += 1;
    }
    proof {
        lemma_first_unseen_at(ids_of(candidates@), seen@, i as int);
    }
    Err(CycleError::NoNewFiles)
}

/// Picks one of the candidates at random. Calls `choose` of rand's
/// `SliceRandom` on the slice, with the generator of `rand::thread_rng`. The
/// contract is taken on trust: `choose` gives `None` for an empty slice and
/// else a reference to one of the slice's elements. Which one is left open,
/// and so is that the choice is uniform. The generator panics where the
/// operating system gives it no seed.
#[verifier::external_body]
fn choose_any<'a>(candidates: &'a [String]) -> (picked: Option<&'a String>)
    ensures
        picked is Some <==> candidates@.len() > 0,
        picked matches Some(s) ==> candidates@.contains(*s),
{
    candidates.choose(&mut rand::thread_rng())
}

/// What the fallback makes of a random pick: the picked file, or no
/// candidates where there was nothing to pick from.
pub fn settle_fallback<'a>(picked: Option<&'a String>) -> (r: Result<&'a String, CycleError>)
    ensures
        match picked {
            Some(s) => r matches Ok(t) && *t == *s,
            None => r matches Err(e) && e == CycleError::NoCandidates,
        },
{
    match picked {
        Some(s) => Ok(s),
        None => Err(CycleError::NoCandidates),
    }
}

/// Chooses the file to show next. As `select`, but on the first run a
/// listing that holds nothing new still gives a wallpaper: any one of the
/// listed files.
pub fn select_file<'a>(candidates: &'a [String], seen: &SeenSet, phase: RunPhase) -> (r: Result<
    &'a String,
    CycleError,
>)
    ensures
        match select_spec(ids_of(candidates@), seen@) {
            Ok(id) => r matches Ok(s) && s@ == id,
            Err(e) => if e == CycleError::NoNewFiles && phase == RunPhase::FirstRun {
                r matches Ok(s) && ids_of(candidates@).contains(s@)
            } else {
                r matches Err(f) && f == e
            },
        },
{
    let outcome = select(candidates, seen);
    match outcome {
        Err(CycleError::NoNewFiles) => {
            match phase {
                RunPhase::FirstRun => {
                    let picked = choose_any(candidates);
                    proof {
                        let s = picked->Some_0;
                        let i = choose|i: int| 0 <= i < candidates@.len() && candidates@[i] == *s;
                        assert(candidates@[i] == *s);
                        assert(ids_of(candidates@)[i] == s@);
                    }
                    settle_fallback(picked)
                },
                RunPhase::SteadyState => Err(CycleError::NoNewFiles),
            }
        },
        other => other,
    }
}

} // verus!
