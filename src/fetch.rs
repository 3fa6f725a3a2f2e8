//! Which media files still have to be downloaded.

use vstd::prelude::*;
use crate::post::MediaRef;

verus! {

/// The positions `i` with `!present[i]`, in increasing order.
pub open spec fn missing(present: Seq<bool>) -> Seq<usize>
    decreases present.len(),
{
    if present.len() == 0 {
        Seq::empty()
    } else if present.last() {
        missing(present.drop_last())
    } else {
        missing(present.drop_last()).push((present.len() - 1) as usize)
    }
}

/// The manifest entries to download, given for each entry whether its local
/// file already exists: exactly those whose file is absent, in manifest order.
pub fn media_to_fetch(manifest: &Vec<MediaRef>, present: &Vec<bool>) -> (r: Vec<usize>)
    requires
        present.len() == manifest.len(),
    ensures
        r@ == missing(present@),
{
    let mut r: Vec<usize> = Vec::new();
    let mut i: usize = 0;
    assert(present@.take(0) =~= Seq::<bool>::empty());
    while i < present.len()
        invariant
            i <= present.len(),
            r@ == missing(present@.take(i as int)),
        decreases present.len() - i,
    {
        assert(present@.take(i + 1).drop_last() =~= present@.take(i as int));
        if !present[i] {
            r.push(i);
        }
        i = i + 1;
    }
    assert(present@.take(i as int) =~= present@);
    r
}

/// Where every file is present, nothing is downloaded: running the fetch
/// again after a complete run retrieves nothing.
pub proof fn lemma_all_present_nothing_fetched(present: Seq<bool>)
    requires
        forall|i: int| 0 <= i < present.len() ==> #[trigger] present[i],
    ensures
        missing(present).len() == 0,
    decreases present.len(),
{
    if present.len() > 0 {
        assert(present[present.len() - 1]);
        lemma_all_present_nothing_fetched(present.drop_last());
    }
}

} // verus!
