//! One post's body and attachments as a Markdown fragment.

use vstd::prelude::*;
use crate::filename::{filename_for, filename_of_url};
use crate::post::{media_seq, media_view, Attachment, ConvertError, ConvertedFragment, MediaRef, PostRecord, TextModel};
use crate::text::{chars_of, push_str, string_of};

verus! {

/// The Markdown that mdka makes of the HTML text `html`.
pub uninterp spec fn markdown_of_html(html: Seq<char>) -> Seq<char>;

/// Relies on `mdka::html_to_markdown`: the Markdown rendering of an HTML
/// string, which depends on that string alone.
#[verifier::external_body]
fn html_to_markdown(html: &str) -> (r: String)
    ensures
        r@ == markdown_of_html(html@),
{
    mdka::html_to_markdown(html)
}

/// `s` with every `[@ ` written `[@`, scanning left to right.
pub open spec fn fix_mentions(s: Seq<char>) -> Seq<char>
    decreases s.len(),
{
    if s.len() == 0 {
        s
    } else if s.len() >= 3 && s[0] == '[' && s[1] == '@' && s[2] == ' ' {
        seq!['[', '@'] + fix_mentions(s.skip(3))
    } else {
        seq![s[0]] + fix_mentions(s.skip(1))
    }
}

/// Removes the space that an HTML converter leaves between `[@` and a linked handle.
pub fn fix_mention_spacing(markdown: &str) -> (r: String)
    ensures
        r@ == fix_mentions(markdown@),
{
    let cs = chars_of(markdown);
    let ghost s = cs@;
    let mut out: Vec<char> = Vec::new();
    let mut i: usize = 0;
    assert(s.skip(0) =~= s);
    while i < cs.len()
        invariant
            cs@ == s,
            i <= s.len(),
            out@ + fix_mentions(s.skip(i as int)) == fix_mentions(s),
        decreases s.len() - i,
    {
        let ghost t = s.skip(i as int);
        if cs.len() - i >= 3 && cs[i] == '[' && cs[i + 1] == '@' && cs[i + 2] == ' ' {
            let ghost prev = out@;
            assert(t.skip(3) =~= s.skip(i + 3));
            out.push('[');
            out.push('@');
            assert(out@ + fix_mentions(s.skip(i + 3)) =~= prev + fix_mentions(t));
            i = i + 3;
        } else {
            let ghost prev = out@;
            assert(t.skip(1) =~= s.skip(i + 1));
            out.push(cs[i]);
            assert(out@ + fix_mentions(s.skip(i + 1)) =~= prev + fix_mentions(t));
            i = i + 1;
        }
    }
    assert(s.skip(s.len() as int) =~= Seq::<char>::empty());
    assert(out@ =~= fix_mentions(s));
    string_of(&out)
}

/// The attachment's alt text, if any.
pub open spec fn alt_of(a: Attachment) -> Option<Seq<char>> {
    match a.alt_text {
        Some(t) => Some(t@),
        None => None,
    }
}

/// A blank line, then `![alt](filename "alt")`; without alt text, `![](filename)`.
pub open spec fn image_line(alt: Option<Seq<char>>, filename: Seq<char>) -> Seq<char> {
    let text = match alt {
        Some(t) => t,
        None => Seq::empty(),
    };
    let title = match alt {
        Some(t) => seq![' ', '"'] + t + seq!['"'],
        None => Seq::empty(),
    };
    seq!['\n', '\n', '!', '['] + text + seq![']', '('] + filename + title + seq![')']
}

/// The fragment for a post whose body converts to `body`: the body with its
/// mentions fixed, then one image line per attachment, in order; `None` where
/// an attachment URL has no file name.
pub open spec fn fragment_of(body: Seq<char>, atts: Seq<Attachment>) -> Option<TextModel>
    decreases atts.len(),
{
    if atts.len() == 0 {
        Some(TextModel { markdown: fix_mentions(body), media: Seq::empty() })
    } else {
        match fragment_of(body, atts.drop_last()) {
            None => None,
            Some(m) => match filename_of_url(atts.last().source_url@) {
                None => None,
                Some(f) => Some(
                    TextModel {
                        markdown: m.markdown + image_line(alt_of(atts.last()), f),
                        media: m.media.push((atts.last().source_url@, f)),
                    },
                ),
            },
        }
    }
}

/// The fragment that `convert` makes of `post`.
pub open spec fn converted(post: PostRecord) -> Option<TextModel> {
    fragment_of(markdown_of_html(post.html_content@), post.attachments@)
}

proof fn lemma_fragment_none(body: Seq<char>, atts: Seq<Attachment>, j: int)
    requires
        0 <= j <= atts.len(),
        fragment_of(body, atts.take(j)) is None,
    ensures
        fragment_of(body, atts) is None,
    decreases atts.len(),
{
    if j == atts.len() {
        assert(atts.take(j) =~= atts);
    } else {
        assert(atts.drop_last().take(j) =~= atts.take(j));
        lemma_fragment_none(body, atts.drop_last(), j);
    }
}

/// The fragment for a post whose body has already been converted to the
/// Markdown text `markdown`.
pub fn render_fragment(markdown: &str, attachments: &Vec<Attachment>) -> (r: Result<
    ConvertedFragment,
    ConvertError,
>)
    ensures
        r is Ok <==> fragment_of(markdown@, attachments@) is Some,
        r matches Ok(f) ==> fragment_of(markdown@, attachments@) == Some(f.model()),
        r matches Err(e) ==> e == ConvertError::MalformedUrl,
{
    let fixed = fix_mention_spacing(markdown);
    let mut out = chars_of(fixed.as_str());
    let mut refs: Vec<MediaRef> = Vec::new();
    let ghost atts = attachments@;
    let mut i: usize = 0;
    assert(media_seq(refs@) =~= Seq::empty());
    assert(atts.take(0) =~= Seq::<Attachment>::empty());
    while i < attachments.len()
        invariant
            atts == attachments@,
            i <= atts.len(),
            fragment_of(markdown@, atts.take(i as int)) == Some(
                TextModel { markdown: out@, media: media_seq(refs@) },
            ),
        decreases atts.len() - i,
    {
        let a = &attachments[i];
        assert(atts.take(i + 1).drop_last() =~= atts.take(i as int));
        let filename = match filename_for(a.source_url.as_str()) {
            Ok(f) => f,
            Err(e) => {
                proof {
                    lemma_fragment_none(markdown@, atts, i + 1);
                }
                return Err(e);
            },
        };
        let ghost prev = out@;
        push_str(&mut out, "\n\n![");
        match &a.alt_text {
            Some(t) => push_str(&mut out, t.as_str()),
            None => {},
        }
        push_str(&mut out, "](");
        push_str(&mut out, filename.as_str());
        match &a.alt_text {
            Some(t) => {
                push_str(&mut out, " \"");
                push_str(&mut out, t.as_str());
                push_str(&mut out, "\"");
            },
            None => {},
        }
        push_str(&mut out, ")");
        proof {
            reveal_strlit("\n\n![");
            reveal_strlit("](");
            reveal_strlit(" \"");
            reveal_strlit("\"");
            reveal_strlit(")");
            assert(out@ =~= prev + image_line(alt_of(atts[i as int]), filename@));
        }
        let ghost prev_refs = refs@;
        refs.push(MediaRef { source_url: a.source_url.clone(), local_filename: filename });
        assert(media_seq(refs@) =~= media_seq(prev_refs).push(media_view(refs@.last())));
        i = i + 1;
    }
    assert(atts.take(i as int) =~= atts);
    Ok(ConvertedFragment { markdown: string_of(&out), media_refs: refs })
}

/// Converts one post: its HTML body to Markdown, mentions fixed, and an
/// image line for each attachment.
pub fn convert(post: &PostRecord) -> (r: Result<ConvertedFragment, ConvertError>)
    ensures
        r is Ok <==> converted(*post) is Some,
        r matches Ok(f) ==> converted(*post) == Some(f.model()),
        r matches Err(e) ==> e == ConvertError::MalformedUrl,
{
    let body = html_to_markdown(post.html_content.as_str());
    render_fragment(body.as_str(), &post.attachments)
}

/// What `convert` makes of a post depends on its HTML body and its
/// attachments alone: equal inputs give equal fragments.
pub proof fn lemma_convert_deterministic(a: PostRecord, b: PostRecord)
    requires
        a.html_content@ == b.html_content@,
        a.attachments@ == b.attachments@,
    ensures
        converted(a) == converted(b),
{
}

} // verus!
