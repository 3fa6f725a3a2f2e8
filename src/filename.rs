//! Local file names for media URLs.

use vstd::prelude::*;
use crate::post::ConvertError;
use crate::text::{chars_of, string_of};

verus! {

/// The final path segment of the URL `url`, where it parses as a URL with a path.
pub uninterp spec fn url_last_segment(url: Seq<char>) -> Option<Seq<char>>;

/// Relies on `url::Url::parse`, `Url::path_segments` and the last item of that
/// iterator: the final segment of the URL's path, as the url crate parses it.
#[verifier::external_body]
pub(crate) fn last_path_segment(url: &str) -> (r: Option<String>)
    ensures
        r is Some <==> url_last_segment(url@) is Some,
        r matches Some(t) ==> url_last_segment(url@) == Some(t@),
{
    let parsed = url::Url::parse(url).ok()?;
    let last = parsed.path_segments()?.last()?;
    Some(last.to_string())
}

/// Position of the last `.` in `s`, or -1.
pub open spec fn last_dot(s: Seq<char>) -> int
    decreases s.len(),
{
    if s.len() == 0 {
        -1
    } else if s.last() == '.' {
        s.len() - 1
    } else {
        last_dot(s.drop_last())
    }
}

/// `name` has an extension in the sense of `std::path::Path::extension`:
/// a `.` after its first character, and it is not `..`.
pub open spec fn has_extension(name: Seq<char>) -> bool {
    last_dot(name) > 0 && name != seq!['.', '.']
}

/// What follows the last `.`.
pub open spec fn extension(name: Seq<char>) -> Seq<char> {
    name.skip(last_dot(name) + 1)
}

/// What precedes the last `.`.
pub open spec fn stem(name: Seq<char>) -> Seq<char> {
    name.take(last_dot(name))
}

pub open spec fn jpeg() -> Seq<char> {
    seq!['j', 'p', 'e', 'g']
}

pub open spec fn dot_jpg() -> Seq<char> {
    seq!['.', 'j', 'p', 'g']
}

/// `name` with a `jpeg` extension written `jpg`; any other name unchanged.
pub open spec fn canonical_filename(name: Seq<char>) -> Seq<char> {
    if extension(name) == jpeg() {
        stem(name) + dot_jpg()
    } else {
        name
    }
}

/// The local file name for a URL's final path segment, if it has an extension.
pub open spec fn filename_of_segment(seg: Seq<char>) -> Option<Seq<char>> {
    if has_extension(seg) {
        Some(canonical_filename(seg))
    } else {
        None
    }
}

/// The local file name for the media URL `url`.
pub open spec fn filename_of_url(url: Seq<char>) -> Option<Seq<char>> {
    match url_last_segment(url) {
        Some(seg) => filename_of_segment(seg),
        None => None,
    }
}

proof fn lemma_last_dot_range(s: Seq<char>)
    ensures
        -1 <= last_dot(s) < s.len(),
        last_dot(s) >= 0 ==> s[last_dot(s)] == '.',
    decreases s.len(),
{
    if s.len() > 0 && s.last() != '.' {
        lemma_last_dot_range(s.drop_last());
    }
}

/// The local file name for a path segment: the segment itself, with a
/// `jpeg` extension rewritten to `jpg`; `None` where it has no extension.
pub fn filename_from_segment(seg: &str) -> (r: Option<String>)
    ensures
        r is Some <==> has_extension(seg@),
        r matches Some(f) ==> f@ == canonical_filename(seg@),
{
    let mut cs = chars_of(seg);
    let ghost s = cs@;
    let mut i: usize = cs.len();
    assert(s.take(s.len() as int) =~= s);
    while i > 0 && cs[i - 1] != '.'
        invariant
            cs@ == s,
            i <= s.len(),
            last_dot(s.take(i as int)) == last_dot(s),
        decreases i,
    {
        assert(s.take(i as int).drop_last() =~= s.take(i - 1));
        i = i - 1;
    }
    proof {
        assert(s.take(s.len() as int) =~= s);
        if i > 0 {
            assert(s.take(i as int).last() == '.');
        }
    }
    if i < 2 || (cs.len() == 2 && cs[0] == '.' && cs[1] == '.') {
        assert(i >= 2 ==> s =~= seq!['.', '.']);
        return None;
    }
    assert(s != seq!['.', '.']);
    if cs.len() - i == 4 && cs[i] == 'j' && cs[i + 1] == 'p' && cs[i + 2] == 'e' && cs[i + 3]
        == 'g' {
        assert(extension(s) =~= jpeg());
        cs.truncate(i);
        cs.push('j');
        cs.push('p');
        cs.push('g');
        assert(cs@ =~= stem(s) + dot_jpg());
    } else {
        proof {
            assert(last_dot(s) == i - 1);
            if extension(s) == jpeg() {
                assert(extension(s).len() == 4);
                assert(extension(s)[0] == s[i as int]);
                assert(extension(s)[1] == s[i + 1]);
                assert(extension(s)[2] == s[i + 2]);
                assert(extension(s)[3] == s[i + 3]);
            }
        }
    }
    Some(string_of(&cs))
}

/// The local file name for the media URL `url`: its final path segment,
/// with a `jpeg` extension rewritten to `jpg`.
pub fn filename_for(url: &str) -> (r: Result<String, ConvertError>)
    ensures
        r is Ok <==> filename_of_url(url@) is Some,
        r matches Ok(f) ==> filename_of_url(url@) == Some(f@),
        r matches Err(e) ==> e == ConvertError::MalformedUrl,
{
    match last_path_segment(url) {
        Some(seg) => match filename_from_segment(seg.as_str()) {
            Some(f) => Ok(f),
            None => Err(ConvertError::MalformedUrl),
        },
        None => Err(ConvertError::MalformedUrl),
    }
}

/// A derived file name derives to itself.
pub proof fn lemma_filename_idempotent(seg: Seq<char>)
    requires
        has_extension(seg),
    ensures
        filename_of_segment(canonical_filename(seg)) == Some(canonical_filename(seg)),
{
    if extension(seg) == jpeg() {
        let st = stem(seg);
        let n = st + dot_jpg();
        lemma_last_dot_range(seg);
        assert(st.len() > 0);
        let n1 = n.drop_last();
        let n2 = n1.drop_last();
        let n3 = n2.drop_last();
        assert(n1 =~= st + seq!['.', 'j', 'p']);
        assert(n2 =~= st + seq!['.', 'j']);
        assert(n3 =~= st + seq!['.']);
        assert(n.last() == 'g' && n1.last() == 'p' && n2.last() == 'j' && n3.last() == '.');
        assert(last_dot(n3) == st.len());
        assert(last_dot(n2) == st.len());
        assert(last_dot(n1) == st.len());
        assert(last_dot(n) == st.len());
        assert(extension(n) =~= seq!['j', 'p', 'g']);
        assert(n.len() == 5 || n.len() > 5);
        assert(n != seq!['.', '.']) by {
            assert(n.len() != 2);
        }
    }
}

/// A file name ending in `.jpeg`, with something before the dot, becomes the same name ending in `.jpg`.
pub proof fn lemma_jpeg_becomes_jpg(name_stem: Seq<char>)
    requires
        name_stem.len() > 0,
    ensures
        filename_of_segment(name_stem + seq!['.'] + jpeg()) == Some(name_stem + dot_jpg()),
{
    let n = name_stem + seq!['.'] + jpeg();
    let n1 = n.drop_last();
    let n2 = n1.drop_last();
    let n3 = n2.drop_last();
    let n4 = n3.drop_last();
    assert(n1 =~= name_stem + seq!['.', 'j', 'p', 'e']);
    assert(n2 =~= name_stem + seq!['.', 'j', 'p']);
    assert(n3 =~= name_stem + seq!['.', 'j']);
    assert(n4 =~= name_stem + seq!['.']);
    assert(n.last() == 'g' && n1.last() == 'e' && n2.last() == 'p' && n3.last() == 'j');
    assert(n4.last() == '.');
    assert(last_dot(n4) == name_stem.len());
    assert(last_dot(n3) == name_stem.len());
    assert(last_dot(n2) == name_stem.len());
    assert(last_dot(n1) == name_stem.len());
    assert(last_dot(n) == name_stem.len());
    assert(extension(n) =~= jpeg());
    assert(stem(n) =~= name_stem);
    assert(n.len() != 2);
}

/// Every other extension passes through unchanged.
pub proof fn lemma_other_extension_kept(seg: Seq<char>)
    requires
        has_extension(seg),
        extension(seg) != jpeg(),
    ensures
        filename_of_segment(seg) == Some(seg),
{
}

/// A URL whose final segment ends in `.jpeg` gets the same name ending in `.jpg`.
pub proof fn lemma_jpeg_url(url: Seq<char>, name_stem: Seq<char>)
    requires
        name_stem.len() > 0,
        url_last_segment(url) == Some(name_stem + seq!['.'] + jpeg()),
    ensures
        filename_of_url(url) == Some(name_stem + dot_jpg()),
{
    lemma_jpeg_becomes_jpg(name_stem);
}

} // verus!
