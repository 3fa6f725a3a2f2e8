//! Which replies continue a thread.

use vstd::prelude::*;
use crate::post::PostRecord;

verus! {

/// `p` is written by the thread's author and replies to nobody else.
pub open spec fn continues_thread(author: Seq<char>, p: PostRecord) -> bool {
    &&& p.author_id@ == author
    &&& match p.in_reply_to_author_id {
        Some(a) => a@ == author,
        None => true,
    }
}

/// The posts of `ds` that continue the thread of `author`, in their order in `ds`.
pub open spec fn selected(author: Seq<char>, ds: Seq<PostRecord>) -> Seq<PostRecord>
    decreases ds.len(),
{
    if ds.len() == 0 {
        Seq::empty()
    } else {
        let r = selected(author, ds.drop_last());
        if continues_thread(author, ds.last()) {
            r.push(ds.last())
        } else {
            r
        }
    }
}

/// Does `p` continue the thread that `root` starts?
pub fn continues(root: &PostRecord, p: &PostRecord) -> (r: bool)
    ensures
        r == continues_thread(root.author_id@, *p),
{
    if p.author_id != root.author_id {
        return false;
    }
    match &p.in_reply_to_author_id {
        Some(a) => *a == root.author_id,
        None => true,
    }
}

/// The descendants that continue the thread of `root`, in the order given:
/// a single flat pass, with no re-sorting. The fetch order is taken to be the
/// conversation order; that is an assumption about the source, not checked here.
pub fn select_thread(root: &PostRecord, descendants: Vec<PostRecord>) -> (r: Vec<PostRecord>)
    ensures
        r@ == selected(root.author_id@, descendants@),
{
    let ghost all = descendants@;
    assert(all.len() == descendants.len());
    let mut rest = descendants;
    let mut out: Vec<PostRecord> = Vec::new();
    let mut k: usize = 0;
    while rest.len() > 0
        invariant
            k + rest.len() == all.len(),
            all.len() <= usize::MAX,
            rest@ == all.skip(k as int),
            out@ == selected(root.author_id@, all.take(k as int)),
        decreases rest.len(),
    {
        let p = rest.remove(0);
        assert(all.take(k + 1).drop_last() =~= all.take(k as int));
        assert(rest@ =~= all.skip(k + 1));
        if continues(root, &p) {
            out.push(p);
        }
        k = k + 1;
    }
    assert(all.take(k as int) =~= all);
    out
}

/// Every selected post is written by the root's author.
pub proof fn lemma_selected_same_author(root: PostRecord, descendants: Seq<PostRecord>)
    ensures
        forall|i: int|
            0 <= i < selected(root.author_id@, descendants).len() ==> (#[trigger] selected(
                root.author_id@,
                descendants,
            )[i]).author_id@ == root.author_id@,
{
    lemma_selected_continue(root.author_id@, descendants);
}

/// No selected post replies to anybody but the root's author.
pub proof fn lemma_selected_reply_target(root: PostRecord, descendants: Seq<PostRecord>)
    ensures
        forall|i: int|
            0 <= i < selected(root.author_id@, descendants).len() ==> match (#[trigger] selected(
                root.author_id@,
                descendants,
            )[i]).in_reply_to_author_id {
                Some(a) => a@ == root.author_id@,
                None => true,
            },
{
    lemma_selected_continue(root.author_id@, descendants);
}

/// Every selected post passes the filter.
pub proof fn lemma_selected_continue(author: Seq<char>, ds: Seq<PostRecord>)
    ensures
        forall|i: int|
            0 <= i < selected(author, ds).len() ==> continues_thread(
                author,
                #[trigger] selected(author, ds)[i],
            ),
    decreases ds.len(),
{
    if ds.len() > 0 {
        lemma_selected_continue(author, ds.drop_last());
        let r = selected(author, ds.drop_last());
        if continues_thread(author, ds.last()) {
            assert forall|i: int| 0 <= i < r.len() + 1 implies continues_thread(
                author,
                #[trigger] r.push(ds.last())[i],
            ) by {
                if i < r.len() {
                    assert(r.push(ds.last())[i] == r[i]);
                }
            }
        }
    }
}

} // verus!
