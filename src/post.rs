//! The records that the pipeline works on.

use vstd::prelude::*;
use crate::text::string_of;

verus! {

/// A calendar day, as the front matter shows it.
#[derive(Clone, Copy, Debug, PartialEq, Eq, Structural)]
pub struct Date {
    pub year: u16,
    pub month: u8,
    pub day: u8,
}

impl Date {
    /// Year in four digits, month 1 to 12, day 1 to 31.
    pub open spec fn wf(self) -> bool {
        self.year <= 9999 && 1 <= self.month <= 12 && 1 <= self.day <= 31
    }

    /// The day `year-month-day`, where those numbers make one.
    pub fn new(year: u16, month: u8, day: u8) -> (r: Option<Date>)
        ensures
            r is Some <==> (Date { year, month, day }).wf(),
            r matches Some(d) ==> d == (Date { year, month, day }),
    {
        let d = Date { year, month, day };
        if year <= 9999 && 1 <= month && month <= 12 && 1 <= day && day <= 31 {
            Some(d)
        } else {
            None
        }
    }
}

/// The decimal digit for `n`, below ten.
pub open spec fn digit(n: int) -> char {
    if n == 0 {
        '0'
    } else if n == 1 {
        '1'
    } else if n == 2 {
        '2'
    } else if n == 3 {
        '3'
    } else if n == 4 {
        '4'
    } else if n == 5 {
        '5'
    } else if n == 6 {
        '6'
    } else if n == 7 {
        '7'
    } else if n == 8 {
        '8'
    } else {
        '9'
    }
}

fn digit_char(n: u16) -> (r: char)
    requires
        n < 10,
    ensures
        r == digit(n as int),
{
    if n == 0 {
        '0'
    } else if n == 1 {
        '1'
    } else if n == 2 {
        '2'
    } else if n == 3 {
        '3'
    } else if n == 4 {
        '4'
    } else if n == 5 {
        '5'
    } else if n == 6 {
        '6'
    } else if n == 7 {
        '7'
    } else if n == 8 {
        '8'
    } else {
        '9'
    }
}

impl Date {
    /// `YYYY-MM-DD`, each number zero-padded.
    pub open spec fn text(self) -> Seq<char> {
        let y = self.year as int;
        let m = self.month as int;
        let d = self.day as int;
        seq![
            digit(y / 1000),
            digit(y / 100 % 10),
            digit(y / 10 % 10),
            digit(y % 10),
            '-',
            digit(m / 10),
            digit(m % 10),
            '-',
            digit(d / 10),
            digit(d % 10),
        ]
    }

    /// The day as `YYYY-MM-DD`.
    pub fn format(&self) -> (r: String)
        requires
            self.wf(),
        ensures
            r@ == self.text(),
    {
        let y = self.year;
        let m = self.month as u16;
        let d = self.day as u16;
        let mut r: Vec<char> = Vec::new();
        r.push(digit_char(y / 1000));
        r.push(digit_char(y / 100 % 10));
        r.push(digit_char(y / 10 % 10));
        r.push(digit_char(y % 10));
        r.push('-');
        r.push(digit_char(m / 10));
        r.push(digit_char(m % 10));
        r.push('-');
        r.push(digit_char(d / 10));
        r.push(digit_char(d % 10));
        assert(r@ =~= self.text());
        string_of(&r)
    }
}

/// A media object attached to a post.
#[derive(Clone, Debug)]
pub struct Attachment {
    pub source_url: String,
    pub alt_text: Option<String>,
}

/// One fetched post.
#[derive(Clone, Debug)]
pub struct PostRecord {
    pub id: String,
    pub author_id: String,
    pub created_at: Date,
    pub html_content: String,
    pub in_reply_to_author_id: Option<String>,
    pub attachments: Vec<Attachment>,
}

/// One media file that a document refers to: where it comes from and the
/// local name under which the document refers to it.
#[derive(Clone, Debug)]
pub struct MediaRef {
    pub source_url: String,
    pub local_filename: String,
}

/// A media reference as a pair of character sequences.
pub open spec fn media_view(m: MediaRef) -> (Seq<char>, Seq<char>) {
    (m.source_url@, m.local_filename@)
}

/// The Markdown of one post, and the media files it refers to.
#[derive(Clone, Debug)]
pub struct ConvertedFragment {
    pub markdown: String,
    pub media_refs: Vec<MediaRef>,
}

/// The assembled document: front matter and body, and every media file of the thread.
#[derive(Clone, Debug)]
pub struct Document {
    pub markdown: String,
    pub media_manifest: Vec<MediaRef>,
}

/// What a fragment or a document says, as plain sequences.
pub struct TextModel {
    pub markdown: Seq<char>,
    pub media: Seq<(Seq<char>, Seq<char>)>,
}

pub open spec fn media_seq(v: Seq<MediaRef>) -> Seq<(Seq<char>, Seq<char>)> {
    v.map_values(|m: MediaRef| media_view(m))
}

impl ConvertedFragment {
    pub open spec fn model(self) -> TextModel {
        TextModel { markdown: self.markdown@, media: media_seq(self.media_refs@) }
    }
}

impl Document {
    pub open spec fn model(self) -> TextModel {
        TextModel { markdown: self.markdown@, media: media_seq(self.media_manifest@) }
    }
}

} // verus!

verus! {

/// Why a post could not be converted.
#[derive(Clone, Copy, Debug, PartialEq, Eq, Structural)]
pub enum ConvertError {
    /// An attachment URL has no final path segment with a file extension.
    MalformedUrl,
}

} // verus!
