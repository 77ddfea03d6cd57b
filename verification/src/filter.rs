//! Search filtering over the network list — a case-insensitive in-order
//! subsequence match — and the list-selection arithmetic.
use vstd::prelude::*;
use crate::scan::{views_of, NetRecord, WifiInfo};
use crate::text::{is_subseq_of, subseq_match};

verus! {

/// The lower-case folding of a text.
pub uninterp spec fn lower_of(s: Seq<char>) -> Seq<char>;

/// Relies on str::to_lowercase: the folding depends on the characters alone.
#[verifier::external_body]
fn lowercase(s: &str) -> (r: String)
    ensures
        r@ == lower_of(s@),
{
    s.to_lowercase()
}

/// Case-insensitive match: the folded pattern appears, in order, in the
/// folded text.
pub fn fuzzy_match(pattern: &str, text: &str) -> (r: bool)
    ensures
        r == is_subseq_of(lower_of(pattern@), lower_of(text@)),
{
    let p = lowercase(pattern);
    let t = lowercase(text);
    subseq_match(p.as_str(), t.as_str())
}

/// The rows whose folded name contains the folded pattern in order.
pub open spec fn matching_rows(rows: Seq<NetRecord>, pattern: Seq<char>) -> Seq<NetRecord>
    decreases rows.len(),
{
    if rows.len() == 0 {
        Seq::empty()
    } else {
        let rest = matching_rows(rows.drop_last(), pattern);
        if is_subseq_of(lower_of(pattern), lower_of(rows.last().ssid)) {
            rest.push(rows.last())
        } else {
            rest
        }
    }
}

/// Filters the network list by a search text: an empty search keeps every
/// row, any other keeps the rows whose folded name contains the folded
/// search in order.
pub fn filter_networks(list: &Vec<WifiInfo>, search: &str) -> (out: Vec<WifiInfo>)
    ensures
        search@.len() == 0 ==> views_of(out@) == views_of(list@),
        search@.len() > 0 ==> views_of(out@) == matching_rows(views_of(list@), search@),
{
    let mut out: Vec<WifiInfo> = Vec::new();
    let empty_search = search.unicode_len() == 0;
    let mut i: usize = 0;
    proof {
        assert(views_of(list@.subrange(0, 0)) =~= Seq::<NetRecord>::empty());
        assert(matching_rows(Seq::<NetRecord>::empty(), search@) =~= Seq::<NetRecord>::empty());
        assert(views_of(out@) =~= Seq::<NetRecord>::empty());
    }
    while i < list.len()
        invariant
            i <= list@.len(),
            empty_search == (search@.len() == 0),
            empty_search ==> views_of(out@) == views_of(list@.subrange(0, i as int)),
            !empty_search ==> views_of(out@) == matching_rows(
                views_of(list@.subrange(0, i as int)),
                search@,
            ),
        decreases list@.len() - i,
    {
        let ghost pv = views_of(list@.subrange(0, i as int));
        let ghost pv2 = views_of(list@.subrange(0, i + 1));
        proof {
            assert(pv2 =~= pv.push(list@[i as int]@));
            assert(pv2.drop_last() =~= pv);
        }
        let row = &list[i];
        if empty_search {
            out.push(row.duplicate());
            proof {
                assert(views_of(out@) =~= pv.push(list@[i as int]@));
            }
        } else {
            if fuzzy_match(search, row.ssid.as_str()) {
                out.push(row.duplicate());
                proof {
                    assert(views_of(out@) =~= matching_rows(pv, search@).push(list@[i as int]@));
                }
            }
        }
        i += 1;
    }
    proof {
        assert(list@.subrange(0, list@.len() as int) =~= list@);
    }
    out
}

/// The first row carrying a name, if any: where the selection lands when the
/// list is rebuilt and the previously selected network is still in it.
pub open spec fn index_of_ssid(rows: Seq<NetRecord>, ssid: Seq<char>) -> Option<int>
    decreases rows.len(),
{
    if rows.len() == 0 {
        None
    } else if rows[0].ssid == ssid {
        Some(0)
    } else {
        match index_of_ssid(rows.skip(1), ssid) {
            None => None,
            Some(i) => Some(i + 1),
        }
    }
}

/// Finds the first row named `ssid`.
pub fn find_network_index(list: &Vec<WifiInfo>, ssid: &str) -> (r: Option<usize>)
    ensures
        match r {
            Some(i) => index_of_ssid(views_of(list@), ssid@) == Some(i as int),
            None => index_of_ssid(views_of(list@), ssid@) is None,
        },
{
    let ghost rows = views_of(list@);
    let mut i: usize = 0;
    while i < list.len()
        invariant
            i <= list@.len(),
            rows == views_of(list@),
            rows.len() == list@.len(),
            forall|j: int| 0 <= j < i ==> rows[j].ssid != ssid@,
        decreases list@.len() - i,
    {
        if crate::text::str_eq(list[i].ssid.as_str(), ssid) {
            proof {
                lemma_first_ssid_is_index(rows, ssid@, i as int);
            }
            return Some(i);
        }
        i += 1;
    }
    proof {
        lemma_no_ssid_no_index(rows, ssid@);
    }
    None
}

/// A first name match (one with none before it) is what `index_of_ssid`
/// returns.
proof fn lemma_first_ssid_is_index(rows: Seq<NetRecord>, ssid: Seq<char>, p: int)
    requires
        0 <= p < rows.len(),
        rows[p].ssid == ssid,
        forall|j: int| 0 <= j < p ==> rows[j].ssid != ssid,
    ensures
        index_of_ssid(rows, ssid) == Some(p),
    decreases rows.len(),
{
    if p > 0 {
        assert(rows.skip(1)[p - 1] == rows[p]);
        assert forall|j: int| 0 <= j < p - 1 implies rows.skip(1)[j].ssid != ssid by {
            assert(rows.skip(1)[j] == rows[j + 1]);
        }
        lemma_first_ssid_is_index(rows.skip(1), ssid, p - 1);
    }
}

/// Where no row carries the name, `index_of_ssid` finds nothing.
proof fn lemma_no_ssid_no_index(rows: Seq<NetRecord>, ssid: Seq<char>)
    requires
        forall|j: int| 0 <= j < rows.len() ==> rows[j].ssid != ssid,
    ensures
        index_of_ssid(rows, ssid) is None,
    decreases rows.len(),
{
    if rows.len() > 0 {
        assert forall|j: int| 0 <= j < rows.len() - 1 implies rows.skip(1)[j].ssid != ssid by {
            assert(rows.skip(1)[j] == rows[j + 1]);
        }
        lemma_no_ssid_no_index(rows.skip(1), ssid);
    }
}

/// The selection after moving down one row: the last row holds it.
pub fn next_index(selected: Option<usize>, len: usize) -> (r: usize)
    ensures
        r == (match selected {
            Some(i) => if len == 0 || i >= len - 1 {
                i as int
            } else {
                i + 1
            },
            None => 0int,
        }),
{
    match selected {
        Some(i) => {
            if len == 0 || i >= len - 1 {
                i
            } else {
                i + 1
            }
        },
        None => 0,
    }
}

/// The selection after moving up one row: the first row holds it.
pub fn previous_index(selected: Option<usize>) -> (r: usize)
    ensures
        r == (match selected {
            Some(i) => if i == 0 {
                0int
            } else {
                i - 1
            },
            None => 0int,
        }),
{
    match selected {
        Some(i) => {
            if i == 0 {
                0
            } else {
                i - 1
            }
        },
        None => 0,
    }
}

} // verus!
