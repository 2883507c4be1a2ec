//! Records of an archive, and the lines of text in them.

use crate::text::{lemma_first_index, pop_char, push_char, str_eq, utf8_text};
use vstd::prelude::*;
use vstd::utf8::{decode_utf8, valid_utf8};

verus! {

/// A line has to have more characters than this to be classified: shorter
/// lines tell too little about their language.
pub const MIN_LINE_CHARS: usize = 100;

/// One header of a record: its name and its value as the archive holds it.
#[derive(Debug, Clone, PartialEq, Eq)]
pub struct Header {
    pub name: String,
    pub value: Vec<u8>,
}

/// A record of an archive: its headers in the order of the archive, and its
/// body as bytes.
#[derive(Debug, Clone, PartialEq, Eq)]
pub struct RawRecord {
    pub headers: Vec<Header>,
    pub body: Vec<u8>,
}

/// The names of `headers`, in the same order.
pub open spec fn header_names(headers: Seq<Header>) -> Seq<Seq<char>> {
    headers.map_values(|header: Header| header.name@)
}

/// The value of the first header of `headers` that is named `name`.
pub open spec fn header_value(headers: Seq<Header>, name: Seq<char>) -> Option<Seq<u8>> {
    match header_names(headers).index_of_first(name) {
        Some(i) => Some(headers[i].value@),
        None => None,
    }
}

/// The value of the first header of `headers` that is named `name`.
pub fn find_header<'a>(headers: &'a Vec<Header>, name: &str) -> (value: Option<&'a Vec<u8>>)
    ensures
        value is Some <==> header_value(headers@, name@) is Some,
        value is Some ==> Some(value->Some_0@) == header_value(headers@, name@),
{
    let ghost names = header_names(headers@);
    let mut i: usize = 0;
    while i < headers.len()
        invariant
            i <= headers.len(),
            names == header_names(headers@),
            forall|j: int| 0 <= j < i ==> names[j] != name@,
        decreases headers.len() - i,
    {
        if str_eq(headers[i].name.as_str(), name) {
            proof {
                lemma_first_index(names, name@, i as int);
            }
            return Some(&headers[i].value);
        }
        i = i + 1;
    }
    proof {
        names.index_of_first_ensures(name@);
    }
    None
}

impl RawRecord {
    /// The value of the first header that is named `name`.
    pub fn header(&self, name: &str) -> (value: Option<&Vec<u8>>)
        ensures
            value is Some <==> header_value(self.headers@, name@) is Some,
            value is Some ==> Some(value->Some_0@) == header_value(self.headers@, name@),
    {
        find_header(&self.headers, name)
    }
}

/// `line` without the carriage return at its end, if it has one.
pub open spec fn strip_cr(line: Seq<char>) -> Seq<char> {
    if line.len() > 0 && line.last() == '\r' {
        line.drop_last()
    } else {
        line
    }
}

/// The lines that `text` has completed, and what it holds of a line behind
/// the last line feed. A line ends at a line feed; a carriage return just
/// before the line feed belongs to the line ending.
pub open spec fn split_lines(text: Seq<char>) -> (Seq<Seq<char>>, Seq<char>)
    decreases text.len(),
{
    if text.len() == 0 {
        (Seq::empty(), Seq::empty())
    } else {
        let (done, open) = split_lines(text.drop_last());
        if text.last() == '\n' {
            (done.push(strip_cr(open)), Seq::empty())
        } else {
            (done, open.push(text.last()))
        }
    }
}

/// The lines of `text`, without their line endings. The last line needs no
/// line ending; a text that ends in one has no empty line behind it.
pub open spec fn lines_of(text: Seq<char>) -> Seq<Seq<char>> {
    let (done, open) = split_lines(text);
    if open.len() > 0 {
        done.push(open)
    } else {
        done
    }
}

/// Whether `line` is long enough to be classified.
pub open spec fn is_candidate(line: Seq<char>) -> bool {
    line.len() > MIN_LINE_CHARS
}

/// The lines of `text` that are long enough to be classified, in order.
pub open spec fn candidates_of(text: Seq<char>) -> Seq<Seq<char>> {
    lines_of(text).filter(|line: Seq<char>| is_candidate(line))
}

/// The views of `lines`, in the same order.
pub open spec fn line_views(lines: Seq<String>) -> Seq<Seq<char>> {
    lines.map_values(|line: String| line@)
}

/// The lines of `text`, without their line endings.
pub fn lines(text: &str) -> (lines: Vec<String>)
    ensures
        line_views(lines@) == lines_of(text@),
{
    let mut done: Vec<String> = Vec::new();
    let mut open = String::new();
    let mut open_is_empty = true;
    let mut ends_in_cr = false;
    for c in it: text.chars()
        invariant
            it.seq() == text@,
            (line_views(done@), open@) == split_lines(text@.take(it.index() as int)),
            open_is_empty == (open@.len() == 0),
            ends_in_cr == (open@.len() > 0 && open@.last() == '\r'),
    {
        proof {
            let k = it.index() as int;
            assert(text@.take(k + 1).drop_last() == text@.take(k));
        }
        if c == '\n' {
            if ends_in_cr {
                let _ = pop_char(&mut open);
            }
            done.push(open);
            open = String::new();
            open_is_empty = true;
            ends_in_cr = false;
        } else {
            push_char(&mut open, c);
            open_is_empty = false;
            ends_in_cr = c == '\r';
        }
    }
    proof {
        assert(text@.take(text@.len() as int) == text@);
    }
    if !open_is_empty {
        done.push(open);
    }
    done
}

/// The lines of `body` that are long enough to be classified, in order;
/// `None` where `body` is not text, that is, not valid UTF-8.
pub fn candidate_lines(body: Vec<u8>) -> (found: Option<Vec<String>>)
    ensures
        found is Some <==> valid_utf8(body@),
        found is Some ==> line_views(found->Some_0@) == candidates_of(decode_utf8(body@)),
{
    match utf8_text(body) {
        None => None,
        Some(text) => {
            let all = lines(text.as_str());
            let ghost pred = |line: Seq<char>| is_candidate(line);
            let mut kept: Vec<String> = Vec::new();
            let mut i: usize = 0;
            while i < all.len()
                invariant
                    i <= all.len(),
                    pred == |line: Seq<char>| is_candidate(line),
                    line_views(kept@) == line_views(all@).take(i as int).filter(pred),
                decreases all.len() - i,
            {
                proof {
                    let views = line_views(all@);
                    assert(views.take(i + 1).drop_last() == views.take(i as int));
                    reveal(Seq::filter);
                }
                if all[i].as_str().unicode_len() > MIN_LINE_CHARS {
                    kept.push(all[i].clone());
                }
                i = i + 1;
            }
            proof {
                assert(line_views(all@).take(all.len() as int) == line_views(all@));
            }
            Some(kept)
        },
    }
}

} // verus!
