//! A whole thread, from its posts to the finished document.

use vstd::prelude::*;
use crate::assemble::{assemble, document_of, entries_view, models};
use crate::convert::{convert, converted};
use crate::filename::{last_path_segment, url_last_segment};
use crate::post::{ConvertError, ConvertedFragment, Date, Document, PostRecord, TextModel};
use crate::select::{select_thread, selected};

verus! {

/// The front matter of a thread: empty `title`, `tags` and `thumbnail`, the
/// day it was published and the URL of its first post.
pub open spec fn thread_front_matter(day: Date, toot_url: Seq<char>) -> Seq<(Seq<char>, Seq<char>)> {
    seq![
        (seq!['t', 'i', 't', 'l', 'e'], Seq::empty()),
        (seq!['t', 'a', 'g', 's'], Seq::empty()),
        (seq!['t', 'h', 'u', 'm', 'b', 'n', 'a', 'i', 'l'], Seq::empty()),
        (seq!['p', 'u', 'b', 'l', 'i', 's', 'h', 'e', 'd'], day.text()),
        (seq!['t', 'o', 'o', 't'], toot_url),
    ]
}

/// The front-matter entries for a thread published on `day` at `toot_url`.
pub fn front_matter_for(day: &Date, toot_url: &str) -> (r: Vec<(String, String)>)
    requires
        day.wf(),
    ensures
        entries_view(r@) == thread_front_matter(*day, toot_url@),
{
    let published = day.format();
    let mut r: Vec<(String, String)> = Vec::new();
    r.push(("title".to_owned(), "".to_owned()));
    r.push(("tags".to_owned(), "".to_owned()));
    r.push(("thumbnail".to_owned(), "".to_owned()));
    r.push(("published".to_owned(), published));
    r.push(("toot".to_owned(), toot_url.to_owned()));
    proof {
        reveal_strlit("title");
        reveal_strlit("");
        reveal_strlit("tags");
        reveal_strlit("thumbnail");
        reveal_strlit("published");
        reveal_strlit("toot");
        assert(entries_view(r@) =~~= thread_front_matter(*day, toot_url@));
    }
    r
}

/// The fragments of `ps`, where every one of them converts.
pub open spec fn converted_all(ps: Seq<PostRecord>) -> Option<Seq<TextModel>>
    decreases ps.len(),
{
    if ps.len() == 0 {
        Some(Seq::empty())
    } else {
        match (converted_all(ps.drop_last()), converted(ps.last())) {
            (Some(ms), Some(m)) => Some(ms.push(m)),
            _ => None,
        }
    }
}

/// The document of the thread that `root` starts, given the descendants as
/// fetched and the URL of the root post; `None` where a post does not convert.
pub open spec fn thread_document(
    root: PostRecord,
    descendants: Seq<PostRecord>,
    toot_url: Seq<char>,
) -> Option<TextModel> {
    match (converted(root), converted_all(selected(root.author_id@, descendants))) {
        (Some(r), Some(rs)) => Some(
            document_of(thread_front_matter(root.created_at, toot_url), r, rs),
        ),
        _ => None,
    }
}

proof fn lemma_converted_all_none(ps: Seq<PostRecord>, j: int)
    requires
        0 <= j <= ps.len(),
        converted_all(ps.take(j)) is None,
    ensures
        converted_all(ps) is None,
    decreases ps.len(),
{
    if j == ps.len() {
        assert(ps.take(j) =~= ps);
    } else {
        assert(ps.drop_last().take(j) =~= ps.take(j));
        lemma_converted_all_none(ps.drop_last(), j);
    }
}

/// Converts every post of `posts`, stopping at the first that fails.
pub fn convert_all(posts: &Vec<PostRecord>) -> (r: Result<Vec<ConvertedFragment>, ConvertError>)
    ensures
        r is Ok <==> converted_all(posts@) is Some,
        r matches Ok(fs) ==> converted_all(posts@) == Some(models(fs@)),
        r matches Err(e) ==> e == ConvertError::MalformedUrl,
{
    let mut out: Vec<ConvertedFragment> = Vec::new();
    let mut i: usize = 0;
    assert(posts@.take(0) =~= Seq::<PostRecord>::empty());
    assert(models(out@) =~= Seq::empty());
    while i < posts.len()
        invariant
            i <= posts.len(),
            converted_all(posts@.take(i as int)) == Some(models(out@)),
        decreases posts.len() - i,
    {
        assert(posts@.take(i + 1).drop_last() =~= posts@.take(i as int));
        match convert(&posts[i]) {
            Ok(f) => {
                let ghost prev = out@;
                out.push(f);
                assert(models(out@) =~= models(prev).push(f.model()));
            },
            Err(e) => {
                proof {
                    lemma_converted_all_none(posts@, i + 1);
                }
                return Err(e);
            },
        }
        i = i + 1;
    }
    assert(posts@.take(i as int) =~= posts@);
    Ok(out)
}

/// Builds the document of a thread: the front matter, the root post, and
/// each descendant that continues the thread, in the order fetched.
pub fn build_document(root: &PostRecord, descendants: Vec<PostRecord>, toot_url: &str) -> (r:
    Result<Document, ConvertError>)
    requires
        root.created_at.wf(),
    ensures
        r is Ok <==> thread_document(*root, descendants@, toot_url@) is Some,
        r matches Ok(d) ==> thread_document(*root, descendants@, toot_url@) == Some(d.model()),
        r matches Err(e) ==> e == ConvertError::MalformedUrl,
{
    let front_matter = front_matter_for(&root.created_at, toot_url);
    let root_fragment = convert(root)?;
    let thread = select_thread(root, descendants);
    let replies = convert_all(&thread)?;
    Ok(assemble(&root_fragment, &replies, &front_matter))
}

/// The post id that a post URL names: its final path segment.
pub fn post_id_of(toot_url: &str) -> (r: Option<String>)
    ensures
        r is Some <==> url_last_segment(toot_url@) is Some,
        r matches Some(id) ==> url_last_segment(toot_url@) == Some(id@),
{
    last_path_segment(toot_url)
}

} // verus!
