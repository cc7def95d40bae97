//! What the agent asks of the storage provider, and what it makes of the
//! answers: the two search queries and the flat listing.

use vstd::prelude::*;
use vstd::string::*;

verus! {

/// The query that finds the folders named `folder_name`.
pub open spec fn folder_query_of(folder_name: Seq<char>) -> Seq<char> {
    "mimeType = 'application/vnd.google-apps.folder' and name = '"@ + folder_name + "'"@
}

/// The query that finds the files directly under the folder `folder_id`.
pub open spec fn children_query_of(folder_id: Seq<char>) -> Seq<char> {
    "'"@ + folder_id + "' in parents"@
}

/// The identifiers that are present, in order.
pub open spec fn present_ids(entries: Seq<Option<String>>) -> Seq<Seq<char>>
    decreases entries.len(),
{
    if entries.len() == 0 {
        Seq::empty()
    } else {
        let front = present_ids(entries.drop_last());
        match entries.last() {
            Some(id) => front.push(id@),
            None => front,
        }
    }
}

/// The identifiers of all groups, group after group.
pub open spec fn flat_ids(groups: Seq<Vec<String>>) -> Seq<Seq<char>>
    decreases groups.len(),
{
    if groups.len() == 0 {
        Seq::empty()
    } else {
        flat_ids(groups.drop_last()) + Seq::new(
            groups.last()@.len(),
            |i: int| groups.last()@[i]@,
        )
    }
}

/// Builds the query that finds the folders of a given name.
pub fn folder_query(folder_name: &str) -> (query: String)
    ensures
        query@ == folder_query_of(folder_name@),
{
    let mut query = String::from_str("mimeType = 'application/vnd.google-apps.folder' and name = '");
    query.append(folder_name);
    query.append("'");
    query
}

/// Builds the query that finds the files directly under a folder.
pub fn children_query(folder_id: &str) -> (query: String)
    ensures
        query@ == children_query_of(folder_id@),
{
    let mut query = String::from_str("'");
    query.append(folder_id);
    query.append("' in parents");
    query
}

/// Keeps the identifiers of the entries that have one, in order.
pub fn collect_ids(entries: Vec<Option<String>>) -> (ids: Vec<String>)
    ensures
        Seq::new(ids@.len(), |i: int| ids@[i]@) == present_ids(entries@),
{
    let mut ids: Vec<String> = Vec::new();
    let mut i: usize = 0;
    proof {
        assert(entries@.take(0) =~= Seq::<Option<String>>::empty());
        assert(Seq::new(ids@.len(), |i: int| ids@[i]@) =~= Seq::<Seq<char>>::empty());
    }
    while i < entries.len()
        invariant
            i <= entries@.len(),
            Seq::new(ids@.len(), |k: int| ids@[k]@) == present_ids(entries@.take(i as int)),
        decreases entries@.len() - i,
    {
        let ghost before = Seq::new(ids@.len(), |k: int| ids@[k]@);
        proof {
            assert(entries@.take(i + 1).drop_last() =~= entries@.take(i as int));
        }
        match &entries[i] {
            Some(id) => {
                ids.push(id.clone());
                assert(Seq::new(ids@.len(), |k: int| ids@[k]@) =~= before.push(id@));
            },
            None => {},
        }
        i += 1;
    }
    proof {
        assert(entries@.take(entries@.len() as int) =~= entries@);
    }
    ids
}

/// Makes one listing of the listings of several folders, in their order.
pub fn flatten(groups: Vec<Vec<String>>) -> (ids: Vec<String>)
    ensures
        Seq::new(ids@.len(), |i: int| ids@[i]@) == flat_ids(groups@),
{
    let mut ids: Vec<String> = Vec::new();
    let mut g: usize = 0;
    proof {
        assert(groups@.take(0) =~= Seq::<Vec<String>>::empty());
        assert(Seq::new(ids@.len(), |i: int| ids@[i]@) =~= Seq::<Seq<char>>::empty());
    }
    while g < groups.len()
        invariant
            g <= groups@.len(),
            Seq::new(ids@.len(), |k: int| ids@[k]@) == flat_ids(groups@.take(g as int)),
        decreases groups@.len() - g,
    {
        let ghost before = Seq::new(ids@.len(), |k: int| ids@[k]@);
        let group = &groups[g];
        let mut j: usize = 0;
        while j < group.len()
            invariant
                j <= group@.len(),
                Seq::new(ids@.len(), |k: int| ids@[k]@) == before + Seq::new(
                    j as nat,
                    |k: int| group@[k]@,
                ),
            decreases group@.len() - j,
        {
            let ghost so_far = Seq::new(ids@.len(), |k: int| ids@[k]@);
            ids.push(group[j].clone());
            assert(Seq::new(ids@.len(), |k: int| ids@[k]@) =~= so_far.push(group@[j as int]@));
            assert(so_far.push(group@[j as int]@) =~= before + Seq::new(
                (j + 1) as nat,
                |k: int| group@[k]@,
            ));
            j += 1;
        }
        proof {
            assert(groups@.take(g + 1).drop_last() =~= groups@.take(g as int));
            assert(groups@.take(g + 1).last() == groups@[g as int]);
        }
        g += 1;
    }
    proof {
        assert(groups@.take(groups@.len() as int) =~= groups@);
    }
    ids
}

} // verus!
