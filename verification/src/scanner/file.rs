//! A scanned file and its computed metrics: line, word, character and byte
//! counts plus the language classification. Extraction works on content that
//! has already been read into memory as a sequence of lines; obtaining that
//! content (opening files, draining a stream) is the caller's concern.

use vstd::prelude::*;

use crate::language::{tag_of_path, LangTag, Language};
use crate::text::{byte_len, count_words, lemma_word_count_le_len, views, word_count};

verus! {

/// The mathematical model of a [`File`] record.
pub struct Rec {
    pub path: Seq<char>,
    pub lines: nat,
    pub words: nat,
    pub chars: nat,
    pub bytes: nat,
    pub language: LangTag,
    pub count: nat,
}

/// Represents a scanned file and its computed metrics.
///
/// The metrics include:
/// - `lines`: the number of logical lines.
/// - `words`: the number of whitespace-delimited words over all lines.
/// - `chars`: the number of Unicode scalar values, line terminators excluded.
/// - `bytes`: the size in bytes (from metadata for files, reconstructed for
///   streams).
/// - `language`: the classification detected from the file extension.
/// - `count`: how many source files the record stands for; 1 until records
///   are grouped.
#[derive(Debug)]
pub struct File {
    /// The path to the file
    pub path: String,
    /// The number of lines in the file
    pub lines: usize,
    /// The number of words in the file
    pub words: usize,
    /// The number of unicode characters in the file
    pub chars: usize,
    /// The size of the file in bytes
    pub bytes: u64,
    /// The language used in this file
    pub language: Language,
    /// The number of files this entry represents; 1 unless grouped
    pub count: usize,
}

impl View for File {
    type V = Rec;

    open spec fn view(&self) -> Rec {
        Rec {
            path: self.path@,
            lines: self.lines as nat,
            words: self.words as nat,
            chars: self.chars as nat,
            bytes: self.bytes as nat,
            language: self.language@,
            count: self.count as nat,
        }
    }
}

/// The models of a sequence of records.
pub open spec fn recs(v: Seq<File>) -> Seq<Rec> {
    v.map_values(|f: File| f@)
}

/// Total number of words over a sequence of lines.
pub open spec fn total_words(ls: Seq<Seq<char>>) -> nat
    decreases ls.len(),
{
    if ls.len() == 0 {
        0
    } else {
        total_words(ls.drop_last()) + word_count(ls.last())
    }
}

/// Total number of characters over a sequence of lines, terminators excluded.
pub open spec fn total_chars(ls: Seq<Seq<char>>) -> nat
    decreases ls.len(),
{
    if ls.len() == 0 {
        0
    } else {
        total_chars(ls.drop_last()) + ls.last().len()
    }
}

/// Total number of content bytes over a sequence of lines.
pub open spec fn total_bytes(ls: Seq<Seq<char>>) -> nat
    decreases ls.len(),
{
    if ls.len() == 0 {
        0
    } else {
        total_bytes(ls.drop_last()) + byte_len(ls.last())
    }
}

/// Byte size reconstructed for a stream read line by line: the content bytes
/// plus one terminator byte between consecutive lines, none trailing.
pub open spec fn stream_bytes(ls: Seq<Seq<char>>) -> nat {
    if ls.len() == 0 {
        0
    } else {
        (total_bytes(ls) + ls.len() - 1) as nat
    }
}

/// The record a stream source with the given lines extracts to.
pub open spec fn stream_rec(ls: Seq<Seq<char>>) -> Rec {
    Rec {
        path: "STDIN"@,
        lines: ls.len(),
        words: total_words(ls),
        chars: total_chars(ls),
        bytes: stream_bytes(ls),
        language: LangTag::Text,
        count: 1,
    }
}

/// The record a file source extracts to, given its path, content lines and
/// metadata byte size.
pub open spec fn file_rec(path: Seq<char>, ls: Seq<Seq<char>>, bytes: nat) -> Rec {
    Rec {
        path: path,
        lines: ls.len(),
        words: total_words(ls),
        chars: total_chars(ls),
        bytes: bytes,
        language: tag_of_path(path),
        count: 1,
    }
}

pub proof fn lemma_total_words_le_chars(ls: Seq<Seq<char>>)
    ensures
        total_words(ls) <= total_chars(ls),
    decreases ls.len(),
{
    if ls.len() > 0 {
        lemma_total_words_le_chars(ls.drop_last());
        lemma_word_count_le_len(ls.last());
    }
}

/// Counts lines, words and characters of in-memory content with a single
/// pass, leaving the byte count to the caller.
fn count_content(lines: &Vec<String>) -> (r: (usize, usize, usize))
    requires
        total_chars(views(lines@)) <= usize::MAX,
    ensures
        r.0 == lines@.len(),
        r.1 == total_words(views(lines@)),
        r.2 == total_chars(views(lines@)),
{
    let ghost all = views(lines@);
    let n = lines.len();
    let mut words: usize = 0;
    let mut chars: usize = 0;
    let mut i: usize = 0;
    while i < n
        invariant
            n == lines@.len(),
            all == views(lines@),
            total_chars(all) <= usize::MAX,
            0 <= i <= n,
            words == total_words(all.take(i as int)),
            chars == total_chars(all.take(i as int)),
        decreases n - i,
    {
        proof {
            assert(all.take(i + 1).drop_last() =~= all.take(i as int));
            assert(all.take(i + 1).last() == all[i as int]);
            lemma_prefix_chars_le(all, i + 1);
            lemma_total_words_le_chars(all.take(i + 1));
        }
        let line = &lines[i];
        words = words + count_words(line.as_str());
        chars = chars + line.as_str().unicode_len();
        i = i + 1;
    }
    proof {
        assert(all.take(n as int) =~= all);
    }
    (n, words, chars)
}

/// The totals of a prefix never exceed the totals of the whole.
pub proof fn lemma_prefix_chars_le(ls: Seq<Seq<char>>, i: int)
    requires
        0 <= i <= ls.len(),
    ensures
        total_chars(ls.take(i)) <= total_chars(ls),
        total_words(ls.take(i)) <= total_words(ls),
        total_bytes(ls.take(i)) <= total_bytes(ls),
    decreases ls.len(),
{
    if i < ls.len() {
        lemma_prefix_chars_le(ls.drop_last(), i);
        assert(ls.drop_last().take(i) =~= ls.take(i));
    } else {
        assert(ls.take(i) =~= ls);
    }
}

impl File {
    /// Computes the metrics of file-backed content that has been read line by
    /// line, with the byte size taken from the file's metadata.
    pub fn from_content(path: String, lines: &Vec<String>, bytes: u64) -> (r: File)
        requires
            total_chars(views(lines@)) <= usize::MAX,
        ensures
            r@ == file_rec(path@, views(lines@), bytes as nat),
    {
        let (nlines, words, chars) = count_content(lines);
        let language = Language::from_path(path.as_str());
        File { path, lines: nlines, words, chars, bytes, language, count: 1 }
    }

    /// Computes the metrics of stream-backed content that has been read line
    /// by line. With no metadata available, the byte size is reconstructed
    /// from the content: each line's byte length, plus one terminator byte
    /// between consecutive lines.
    pub fn scan_reader(lines: &Vec<String>) -> (r: File)
        requires
            total_chars(views(lines@)) <= usize::MAX,
            total_bytes(views(lines@)) + lines@.len() <= usize::MAX,
        ensures
            r@ == stream_rec(views(lines@)),
    {
        let ghost all = views(lines@);
        let (nlines, words, chars) = count_content(lines);
        let n = lines.len();
        let mut bytes: u64 = 0;
        let mut i: usize = 0;
        while i < n
            invariant
                n == lines@.len(),
                all == views(lines@),
                total_bytes(all) + lines@.len() <= usize::MAX,
                0 <= i <= n,
                bytes == total_bytes(all.take(i as int)),
            decreases n - i,
        {
            proof {
                assert(all.take(i + 1).drop_last() =~= all.take(i as int));
                assert(all.take(i + 1).last() == all[i as int]);
                lemma_prefix_chars_le(all, i + 1);
                assert(total_bytes(all.take(i + 1)) == total_bytes(all.take(i as int)) + byte_len(
                    all[i as int],
                ));
                assert(all[i as int] == lines@[i as int]@);
                assert(byte_len(all[i as int]) <= total_bytes(all.take(i + 1)));
            }
            let line_bytes = lines[i].as_str().len();
            proof {
                assert(line_bytes == byte_len(all[i as int]));
            }
            bytes = bytes + (line_bytes as u64);
            i = i + 1;
        }
        proof {
            assert(all.take(n as int) =~= all);
        }
        if n > 0 {
            bytes = bytes + ((n as u64) - 1);
        }
        File {
            path: "STDIN".to_owned(),
            lines: nlines,
            words,
            chars,
            bytes,
            language: Language::Text,
            count: 1,
        }
    }

    /// Combines two records into one: numeric fields and counts sum, path and
    /// classification come from the right-hand operand.
    pub fn add(self, rhs: File) -> (r: File)
        requires
            self@.lines + rhs@.lines <= usize::MAX,
            self@.words + rhs@.words <= usize::MAX,
            self@.chars + rhs@.chars <= usize::MAX,
            self@.bytes + rhs@.bytes <= u64::MAX,
            self@.count + rhs@.count <= usize::MAX,
        ensures
            r@ == rec_add(self@, rhs@),
    {
        File {
            path: rhs.path,
            lines: self.lines + rhs.lines,
            words: self.words + rhs.words,
            chars: self.chars + rhs.chars,
            bytes: self.bytes + rhs.bytes,
            language: rhs.language,
            count: self.count + rhs.count,
        }
    }

    /// A copy whose model is the same as this record's.
    pub fn dup(&self) -> (r: File)
        ensures
            r@ == self@,
    {
        File {
            path: self.path.clone(),
            lines: self.lines,
            words: self.words,
            chars: self.chars,
            bytes: self.bytes,
            language: self.language.dup(),
            count: self.count,
        }
    }
}

/// The binary combine used when grouping records: numeric fields sum
/// field-wise, the representative path and classification are the right
/// operand's.
pub open spec fn rec_add(a: Rec, b: Rec) -> Rec {
    Rec {
        path: b.path,
        lines: a.lines + b.lines,
        words: a.words + b.words,
        chars: a.chars + b.chars,
        bytes: a.bytes + b.bytes,
        language: b.language,
        count: a.count + b.count,
    }
}

} // verus!
