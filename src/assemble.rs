//! Joining fragments into one normalized document.

use vstd::prelude::*;
use crate::post::{media_seq, media_view, ConvertedFragment, Document, MediaRef, TextModel};
use crate::text::{is_space, lemma_trim_end, push_str, string_of, trim_end, trim_end_in_place};

verus! {

/// A front-matter entry as a pair of character sequences.
pub open spec fn entry_view(e: (String, String)) -> (Seq<char>, Seq<char>) {
    (e.0@, e.1@)
}

pub open spec fn entries_view(v: Seq<(String, String)>) -> Seq<(Seq<char>, Seq<char>)> {
    v.map_values(|e: (String, String)| entry_view(e))
}

/// One `key: value` line per entry, in order.
pub open spec fn front_matter_lines(fm: Seq<(Seq<char>, Seq<char>)>) -> Seq<char>
    decreases fm.len(),
{
    if fm.len() == 0 {
        Seq::empty()
    } else {
        front_matter_lines(fm.drop_last()) + fm.last().0 + seq![':', ' '] + fm.last().1 + seq![
            '\n',
        ]
    }
}

pub open spec fn dashes_line() -> Seq<char> {
    seq!['-', '-', '-', '\n']
}

/// The front-matter block: the entries between two `---` lines, then a blank line.
pub open spec fn front_matter_text(fm: Seq<(Seq<char>, Seq<char>)>) -> Seq<char> {
    dashes_line() + front_matter_lines(fm) + dashes_line() + seq!['\n']
}

/// The reply fragments' Markdown, each after a blank-line separator.
pub open spec fn joined_replies(replies: Seq<TextModel>) -> Seq<char>
    decreases replies.len(),
{
    if replies.len() == 0 {
        Seq::empty()
    } else {
        joined_replies(replies.drop_last()) + seq!['\n', '\n'] + replies.last().markdown
    }
}

/// The media of the replies, in order.
pub open spec fn replies_media(replies: Seq<TextModel>) -> Seq<(Seq<char>, Seq<char>)>
    decreases replies.len(),
{
    if replies.len() == 0 {
        Seq::empty()
    } else {
        replies_media(replies.drop_last()) + replies.last().media
    }
}

/// Three newlines at `i`.
pub open spec fn triple_at(s: Seq<char>, i: int) -> bool {
    0 <= i && i + 2 < s.len() && s[i] == '\n' && s[i + 1] == '\n' && s[i + 2] == '\n'
}

/// `s` with every run of three or more newlines cut to two.
pub open spec fn collapse(s: Seq<char>) -> Seq<char>
    decreases s.len(),
{
    if s.len() == 0 {
        s
    } else if triple_at(s, 0) {
        collapse(s.skip(1))
    } else {
        seq![s[0]] + collapse(s.skip(1))
    }
}

/// Runs of newlines collapsed, trailing whitespace dropped, one newline added.
pub open spec fn normalize(s: Seq<char>) -> Seq<char> {
    trim_end(collapse(s)).push('\n')
}

/// The document made of a front matter, a root fragment and reply fragments.
pub open spec fn document_of(
    fm: Seq<(Seq<char>, Seq<char>)>,
    root: TextModel,
    replies: Seq<TextModel>,
) -> TextModel {
    TextModel {
        markdown: normalize(front_matter_text(fm) + root.markdown + joined_replies(replies)),
        media: root.media + replies_media(replies),
    }
}

pub open spec fn models(v: Seq<ConvertedFragment>) -> Seq<TextModel> {
    v.map_values(|f: ConvertedFragment| f.model())
}

/// Cuts every run of three or more newlines in `v` to two.
pub(crate) fn collapse_newlines(v: &Vec<char>) -> (r: Vec<char>)
    ensures
        r@ == collapse(v@),
{
    let ghost s = v@;
    let mut out: Vec<char> = Vec::new();
    let mut i: usize = 0;
    assert(s.skip(0) =~= s);
    while i < v.len()
        invariant
            v@ == s,
            i <= s.len(),
            out@ + collapse(s.skip(i as int)) == collapse(s),
        decreases s.len() - i,
    {
        let ghost t = s.skip(i as int);
        let ghost prev = out@;
        assert(t.skip(1) =~= s.skip(i + 1));
        if v.len() - i >= 3 && v[i] == '\n' && v[i + 1] == '\n' && v[i + 2] == '\n' {
            assert(triple_at(t, 0));
        } else {
            assert(!triple_at(t, 0));
            out.push(v[i]);
            assert(out@ + collapse(s.skip(i + 1)) =~= prev + collapse(t));
        }
        i = i + 1;
    }
    assert(s.skip(s.len() as int) =~= Seq::<char>::empty());
    assert(out@ =~= collapse(s));
    out
}

fn copy_ref(m: &MediaRef) -> (r: MediaRef)
    ensures
        media_view(r) == media_view(*m),
{
    MediaRef { source_url: m.source_url.clone(), local_filename: m.local_filename.clone() }
}

fn append_refs(out: &mut Vec<MediaRef>, refs: &Vec<MediaRef>)
    ensures
        media_seq(final(out)@) == media_seq(old(out)@) + media_seq(refs@),
{
    let mut i: usize = 0;
    let ghost start = out@;
    while i < refs.len()
        invariant
            i <= refs.len(),
            media_seq(out@) == media_seq(start) + media_seq(refs@.take(i as int)),
        decreases refs.len() - i,
    {
        let ghost prev = out@;
        out.push(copy_ref(&refs[i]));
        assert(media_seq(out@) =~= media_seq(prev).push(media_view(refs@[i as int])));
        assert(media_seq(refs@.take(i + 1)) =~= media_seq(refs@.take(i as int)).push(
            media_view(refs@[i as int]),
        ));
        i = i + 1;
    }
    assert(refs@.take(i as int) =~= refs@);
}

/// Assembles a document: the front matter (`---`, one `key: value` line per
/// entry, `---`, a blank line), the root fragment, each reply after a blank
/// line; then runs of three or more newlines cut to two and the end trimmed to
/// a single newline. The media of all fragments follow in the same order.
pub fn assemble(
    root: &ConvertedFragment,
    replies: &Vec<ConvertedFragment>,
    front_matter: &Vec<(String, String)>,
) -> (r: Document)
    ensures
        r.model() == document_of(entries_view(front_matter@), root.model(), models(replies@)),
{
    let ghost fm = entries_view(front_matter@);
    let mut raw: Vec<char> = Vec::new();
    push_str(&mut raw, "---\n");
    proof {
        reveal_strlit("---\n");
        assert(fm.take(0) =~= Seq::empty());
    }
    let mut i: usize = 0;
    while i < front_matter.len()
        invariant
            fm == entries_view(front_matter@),
            i <= front_matter.len(),
            raw@ == dashes_line() + front_matter_lines(fm.take(i as int)),
        decreases front_matter.len() - i,
    {
        let ghost prev = raw@;
        let e = &front_matter[i];
        push_str(&mut raw, e.0.as_str());
        push_str(&mut raw, ": ");
        push_str(&mut raw, e.1.as_str());
        push_str(&mut raw, "\n");
        proof {
            reveal_strlit(": ");
            reveal_strlit("\n");
            assert(fm.take(i + 1).drop_last() =~= fm.take(i as int));
            assert(raw@ =~= dashes_line() + front_matter_lines(fm.take(i + 1)));
        }
        i = i + 1;
    }
    push_str(&mut raw, "---\n\n");
    push_str(&mut raw, root.markdown.as_str());
    proof {
        reveal_strlit("---\n\n");
        assert(fm.take(i as int) =~= fm);
        assert(raw@ =~= front_matter_text(fm) + root.markdown@);
    }
    let mut media: Vec<MediaRef> = Vec::new();
    append_refs(&mut media, &root.media_refs);
    let ghost head = raw@;
    let ghost rs = models(replies@);
    let mut j: usize = 0;
    assert(rs.take(0) =~= Seq::empty());
    assert(media_seq(media@) =~= root.model().media);
    while j < replies.len()
        invariant
            rs == models(replies@),
            j <= replies.len(),
            raw@ == head + joined_replies(rs.take(j as int)),
            media_seq(media@) == root.model().media + replies_media(rs.take(j as int)),
        decreases replies.len() - j,
    {
        let ghost prev = raw@;
        let f = &replies[j];
        push_str(&mut raw, "\n\n");
        push_str(&mut raw, f.markdown.as_str());
        append_refs(&mut media, &f.media_refs);
        proof {
            reveal_strlit("\n\n");
            assert(rs.take(j + 1).drop_last() =~= rs.take(j as int));
            assert(rs[j as int] == f.model());
            assert(raw@ =~= head + joined_replies(rs.take(j + 1)));
            assert(media_seq(media@) =~= root.model().media + replies_media(rs.take(j + 1)));
        }
        j = j + 1;
    }
    assert(rs.take(j as int) =~= rs);
    let mut text = collapse_newlines(&raw);
    trim_end_in_place(&mut text);
    text.push('\n');
    Document { markdown: string_of(&text), media_manifest: media }
}

/// No three consecutive newlines anywhere in `s`.
pub open spec fn no_triple(s: Seq<char>) -> bool {
    forall|i: int| !#[trigger] triple_at(s, i)
}

proof fn lemma_collapse_head(t: Seq<char>)
    requires
        t.len() > 0,
    ensures
        collapse(t).len() > 0,
        collapse(t)[0] == t[0],
    decreases t.len(),
{
    if triple_at(t, 0) {
        lemma_collapse_head(t.skip(1));
    }
}

proof fn lemma_collapse_no_triple(s: Seq<char>)
    ensures
        no_triple(collapse(s)),
    decreases s.len(),
{
    if s.len() > 0 {
        let t = s.skip(1);
        lemma_collapse_no_triple(t);
        if !triple_at(s, 0) {
            let c = collapse(s);
            let r = collapse(t);
            assert(c =~= seq![s[0]] + r);
            assert forall|i: int| !#[trigger] triple_at(c, i) by {
                if i >= 1 {
                    assert(!triple_at(r, i - 1));
                } else if i == 0 && triple_at(c, 0) {
                    lemma_collapse_head(t);
                    assert(s[1] == '\n');
                    if t.len() == 1 {
                        assert(!triple_at(t, 0));
                        assert(t.skip(1) =~= Seq::<char>::empty());
                        assert(collapse(t.skip(1)) =~= Seq::<char>::empty());
                        assert(r =~= seq![t[0]] + collapse(t.skip(1)));
                        assert(r.len() == 1);
                    } else if t.len() == 0 {
                        assert(r.len() == 0);
                    }
                    assert(s.len() >= 3 && s[2] != '\n');
                    assert(!triple_at(t, 0));
                    assert(r =~= seq![t[0]] + collapse(t.skip(1)));
                    lemma_collapse_head(t.skip(1));
                }
            }
        }
    }
}

/// After normalizing, no three newlines stand in a row, and the text ends
/// with exactly one newline: the character before it, if any, is no whitespace.
pub proof fn lemma_normalize(s: Seq<char>)
    ensures
        no_triple(normalize(s)),
        normalize(s).last() == '\n',
        normalize(s).len() >= 2 ==> !is_space(normalize(s)[normalize(s).len() - 2]),
{
    let c = collapse(s);
    let t = trim_end(c);
    let n = normalize(s);
    lemma_collapse_no_triple(s);
    lemma_trim_end(c);
    assert forall|i: int| !#[trigger] triple_at(n, i) by {
        if triple_at(n, i) {
            if i + 2 < t.len() {
                assert(triple_at(c, i));
            } else {
                assert(n[t.len() - 1] == t.last());
            }
        }
    }
}

/// Every assembled document has no three newlines in a row and ends with
/// exactly one newline.
pub proof fn lemma_assembled_normal_form(
    fm: Seq<(Seq<char>, Seq<char>)>,
    root: TextModel,
    replies: Seq<TextModel>,
)
    ensures
        no_triple(document_of(fm, root, replies).markdown),
        document_of(fm, root, replies).markdown.last() == '\n',
        document_of(fm, root, replies).markdown.len() >= 2 ==> document_of(
            fm,
            root,
            replies,
        ).markdown[document_of(fm, root, replies).markdown.len() - 2] != '\n',
{
    lemma_normalize(front_matter_text(fm) + root.markdown + joined_replies(replies));
}

/// The number of places where two newlines follow each other.
pub open spec fn count_breaks(s: Seq<char>) -> nat
    decreases s.len(),
{
    if s.len() < 2 {
        0
    } else {
        (if s[0] == '\n' && s[1] == '\n' {
            1nat
        } else {
            0nat
        }) + count_breaks(s.skip(1))
    }
}

/// One paragraph: not empty, no newline, and no whitespace at its end.
pub open spec fn single_paragraph(s: Seq<char>) -> bool {
    &&& s.len() > 0
    &&& !is_space(s.last())
    &&& forall|i: int| 0 <= i < s.len() ==> #[trigger] s[i] != '\n'
}

proof fn lemma_collapse_concat(x: Seq<char>, y: Seq<char>)
    requires
        y.len() > 0,
        y[0] != '\n',
    ensures
        collapse(x + y) == collapse(x) + collapse(y),
    decreases x.len(),
{
    if x.len() == 0 {
        assert(x + y =~= y);
        assert(collapse(x) + collapse(y) =~= collapse(y));
    } else {
        let s = x + y;
        assert(s.skip(1) =~= x.skip(1) + y);
        lemma_collapse_concat(x.skip(1), y);
        assert(triple_at(s, 0) == triple_at(x, 0));
        if !triple_at(x, 0) {
            assert(seq![s[0]] + (collapse(x.skip(1)) + collapse(y)) =~= (seq![x[0]] + collapse(
                x.skip(1),
            )) + collapse(y));
        }
    }
}

proof fn lemma_collapse_id(s: Seq<char>)
    requires
        no_triple(s),
    ensures
        collapse(s) == s,
    decreases s.len(),
{
    if s.len() > 0 {
        let t = s.skip(1);
        assert forall|i: int| !#[trigger] triple_at(t, i) by {
            assert(!triple_at(s, i + 1));
        }
        lemma_collapse_id(t);
        assert(!triple_at(s, 0));
        assert(seq![s[0]] + t =~= s);
    }
}

proof fn lemma_count_no_newline(c: Seq<char>)
    requires
        forall|i: int| 0 <= i < c.len() ==> #[trigger] c[i] != '\n',
    ensures
        count_breaks(c) == 0,
    decreases c.len(),
{
    if c.len() >= 2 {
        let t = c.skip(1);
        assert forall|i: int| 0 <= i < t.len() implies #[trigger] t[i] != '\n' by {
            assert(t[i] == c[i + 1]);
        }
        lemma_count_no_newline(t);
    }
}

proof fn lemma_count_concat(x: Seq<char>, y: Seq<char>)
    requires
        x.len() > 0,
        y.len() > 0,
    ensures
        count_breaks(x + y) == count_breaks(x) + count_breaks(y) + (if x.last() == '\n' && y[0]
            == '\n' {
            1nat
        } else {
            0nat
        }),
    decreases x.len(),
{
    let s = x + y;
    if x.len() == 1 {
        assert(s.skip(1) =~= y);
    } else {
        assert(s.skip(1) =~= x.skip(1) + y);
        lemma_count_concat(x.skip(1), y);
    }
}

/// The body grows by one separator and one paragraph.
proof fn lemma_body_step(b: Seq<char>, c: Seq<char>)
    requires
        b.len() > 0,
        b.last() != '\n',
        no_triple(b),
        single_paragraph(c),
    ensures
        no_triple(b + seq!['\n', '\n'] + c),
        count_breaks(b + seq!['\n', '\n'] + c) == count_breaks(b) + 1,
{
    let sep = seq!['\n', '\n'];
    let s = b + sep + c;
    assert forall|i: int| !#[trigger] triple_at(s, i) by {
        if triple_at(s, i) {
            if i + 2 < b.len() {
                assert(triple_at(b, i));
            } else if i + 2 == b.len() || i + 1 == b.len() {
                assert(s[b.len() - 1] == b.last());
            } else if i == b.len() || i == b.len() + 1 {
                assert(s[b.len() + 2int] == c[0]);
            } else {
                assert(s[i] == c[i - b.len() - 2]);
            }
        }
    }
    lemma_count_concat(b, sep);
    assert(count_breaks(sep) == 1) by {
        assert(sep[0] == '\n' && sep[1] == '\n');
        assert(count_breaks(sep.skip(1)) == 0);
    }
    lemma_count_concat(b + sep, c);
    lemma_count_no_newline(c);
    assert((b + sep).last() == '\n');
}

proof fn lemma_body(root: TextModel, replies: Seq<TextModel>)
    requires
        single_paragraph(root.markdown),
        forall|k: int| 0 <= k < replies.len() ==> single_paragraph(#[trigger] replies[k].markdown),
    ensures
        no_triple(root.markdown + joined_replies(replies)),
        count_breaks(root.markdown + joined_replies(replies)) == replies.len(),
        (root.markdown + joined_replies(replies)).len() > 0,
        !is_space((root.markdown + joined_replies(replies)).last()),
    decreases replies.len(),
{
    let r = root.markdown;
    if replies.len() == 0 {
        assert(r + joined_replies(replies) =~= r);
        assert forall|i: int| !#[trigger] triple_at(r, i) by {
            if 0 <= i < r.len() {
                assert(r[i] != '\n');
            }
        }
        lemma_count_no_newline(r);
    } else {
        let prev = replies.drop_last();
        lemma_body(root, prev);
        let b = r + joined_replies(prev);
        let c = replies.last().markdown;
        assert(single_paragraph(replies[replies.len() - 1].markdown));
        assert(r + joined_replies(replies) =~= b + seq!['\n', '\n'] + c);
        lemma_body_step(b, c);
    }
}

/// With each fragment a single paragraph, the assembled body holds the
/// fragments joined by blank lines, and exactly one blank-line separator
/// fewer than there are fragments: the body text has `replies.len()` of them
/// for `replies.len() + 1` fragments.
pub proof fn lemma_paragraph_breaks(
    fm: Seq<(Seq<char>, Seq<char>)>,
    root: TextModel,
    replies: Seq<TextModel>,
)
    requires
        single_paragraph(root.markdown),
        forall|k: int| 0 <= k < replies.len() ==> single_paragraph(#[trigger] replies[k].markdown),
    ensures
        document_of(fm, root, replies).markdown == collapse(front_matter_text(fm)) + (
        root.markdown + joined_replies(replies)).push('\n'),
        count_breaks(root.markdown + joined_replies(replies)) == replies.len(),
{
    let f = front_matter_text(fm);
    let b = root.markdown + joined_replies(replies);
    lemma_body(root, replies);
    assert(b[0] == root.markdown[0]);
    lemma_collapse_concat(f, b);
    lemma_collapse_id(b);
    assert(f + root.markdown + joined_replies(replies) =~= f + b);
    let c = collapse(f) + b;
    assert(c.last() == b.last());
    assert(trim_end(c) == c);
    assert(c.push('\n') =~= collapse(f) + b.push('\n'));
}

} // verus!
