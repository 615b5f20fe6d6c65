//! The structured formatter: the full result set — every record with all of
//! its fields, plus the totals and the maxima — serialized losslessly as
//! JSON text, independent of the column selection. The text is compact, on
//! one line without indentation: consumers of this format parse structure,
//! not layout.

use vstd::prelude::*;

use crate::language::{ident_of, LangTag, Language};
use crate::scanner::accumulators::{MaxModel, TotalsModel};
use crate::scanner::file::{recs, Rec};
use crate::scanner::{File, ScanResults};
use crate::text::{dec_rep, join_strs, join_with, push_char, u64_to_string, usize_to_string,
    views};

use super::{Config, Formatter};

verus! {

/// The lowercase hexadecimal digit for `d` (0 through 15).
pub open spec fn hex_digit(d: nat) -> char {
    if d == 0 {
        '0'
    } else if d == 1 {
        '1'
    } else if d == 2 {
        '2'
    } else if d == 3 {
        '3'
    } else if d == 4 {
        '4'
    } else if d == 5 {
        '5'
    } else if d == 6 {
        '6'
    } else if d == 7 {
        '7'
    } else if d == 8 {
        '8'
    } else if d == 9 {
        '9'
    } else if d == 10 {
        'a'
    } else if d == 11 {
        'b'
    } else if d == 12 {
        'c'
    } else if d == 13 {
        'd'
    } else if d == 14 {
        'e'
    } else {
        'f'
    }
}

/// The JSON escape of one character: quotes and backslashes escaped, the
/// short escapes for the common control characters, a `\u00..` form for the
/// rest, and every other character itself.
pub open spec fn esc_char(c: char) -> Seq<char> {
    let u = c as u32;
    if c == '"' {
        "\\\""@
    } else if c == '\\' {
        "\\\\"@
    } else if u == 0x08 {
        "\\b"@
    } else if u == 0x09 {
        "\\t"@
    } else if u == 0x0a {
        "\\n"@
    } else if u == 0x0c {
        "\\f"@
    } else if u == 0x0d {
        "\\r"@
    } else if u < 0x20 {
        "\\u00"@ + seq![hex_digit((u / 16) as nat), hex_digit((u % 16) as nat)]
    } else {
        seq![c]
    }
}

/// The escaped body of a JSON string, from position `i` on.
pub open spec fn escape_str(s: Seq<char>, i: int) -> Seq<char>
    decreases s.len() - i,
{
    if i < 0 || i >= s.len() {
        Seq::empty()
    } else {
        esc_char(s[i]) + escape_str(s, i + 1)
    }
}

/// A JSON string literal for the characters of `s`.
pub open spec fn json_string(s: Seq<char>) -> Seq<char> {
    "\""@ + escape_str(s, 0) + "\""@
}

/// A classification in JSON: known tags as their identifier string, an
/// unknown extension as an object with the carried extension.
pub open spec fn json_lang(t: LangTag) -> Seq<char> {
    match t {
        LangTag::Unknown(e) => "{\"Unknown\":"@ + json_string(e) + "}"@,
        _ => json_string(ident_of(t)),
    }
}

/// One record in JSON, every field included.
pub open spec fn json_file(r: Rec) -> Seq<char> {
    "{\"path\":"@ + json_string(r.path) + ",\"lines\":"@ + dec_rep(r.lines) + ",\"words\":"@
        + dec_rep(r.words) + ",\"chars\":"@ + dec_rep(r.chars) + ",\"bytes\":"@ + dec_rep(r.bytes)
        + ",\"language\":"@ + json_lang(r.language) + ",\"count\":"@ + dec_rep(r.count) + "}"@
}

/// The totals in JSON.
pub open spec fn json_totals(t: TotalsModel) -> Seq<char> {
    "{\"files\":"@ + dec_rep(t.files) + ",\"lines\":"@ + dec_rep(t.lines) + ",\"words\":"@
        + dec_rep(t.words) + ",\"chars\":"@ + dec_rep(t.chars) + ",\"bytes\":"@ + dec_rep(t.bytes)
        + "}"@
}

/// The maxima in JSON.
pub open spec fn json_max(m: MaxModel) -> Seq<char> {
    "{\"lines\":"@ + dec_rep(m.lines) + ",\"words\":"@ + dec_rep(m.words) + ",\"chars\":"@
        + dec_rep(m.chars) + ",\"bytes\":"@ + dec_rep(m.bytes) + "}"@
}

/// The whole result set in JSON: the record array, the totals, the maxima.
pub open spec fn json_results(files: Seq<Rec>, t: TotalsModel, m: MaxModel) -> Seq<char> {
    "{\"files\":["@ + join_with(files.map_values(|r: Rec| json_file(r)), ","@) + "],\"total\":"@
        + json_totals(t) + ",\"max\":"@ + json_max(m) + "}"@
}

fn hex_digit_exec(d: u32) -> (c: char)
    requires
        d < 16,
    ensures
        c == hex_digit(d as nat),
{
    if d == 0 {
        '0'
    } else if d == 1 {
        '1'
    } else if d == 2 {
        '2'
    } else if d == 3 {
        '3'
    } else if d == 4 {
        '4'
    } else if d == 5 {
        '5'
    } else if d == 6 {
        '6'
    } else if d == 7 {
        '7'
    } else if d == 8 {
        '8'
    } else if d == 9 {
        '9'
    } else if d == 10 {
        'a'
    } else if d == 11 {
        'b'
    } else if d == 12 {
        'c'
    } else if d == 13 {
        'd'
    } else if d == 14 {
        'e'
    } else {
        'f'
    }
}

/// Write `s` as a JSON string literal with its characters escaped.
fn json_string_exec(s: &str) -> (r: String)
    ensures
        r@ == json_string(s@),
{
    let n = s.unicode_len();
    let mut r = "\"".to_owned();
    let mut i: usize = 0;
    let ghost head = "\""@;
    proof {
        assert(r@ + escape_str(s@, 0) =~= head + escape_str(s@, 0));
    }
    while i < n
        invariant
            n == s@.len(),
            0 <= i <= n,
            r@ + escape_str(s@, i as int) == head + escape_str(s@, 0),
        decreases n - i,
    {
        let ghost r0 = r@;
        let c = s.get_char(i);
        let u = c as u32;
        if c == '"' {
            r.append("\\\"");
        } else if c == '\\' {
            r.append("\\\\");
        } else if u == 0x08 {
            r.append("\\b");
        } else if u == 0x09 {
            r.append("\\t");
        } else if u == 0x0a {
            r.append("\\n");
        } else if u == 0x0c {
            r.append("\\f");
        } else if u == 0x0d {
            r.append("\\r");
        } else if u < 0x20 {
            r.append("\\u00");
            push_char(&mut r, hex_digit_exec(u / 16));
            push_char(&mut r, hex_digit_exec(u % 16));
            proof {
                assert(r@ =~= r0 + esc_char(c));
            }
        } else {
            push_char(&mut r, c);
            proof {
                assert(r@ =~= r0 + esc_char(c));
            }
        }
        proof {
            assert(r@ =~= r0 + esc_char(c));
            assert(r@ + escape_str(s@, i + 1) =~= r0 + escape_str(s@, i as int));
        }
        i = i + 1;
    }
    r.append("\"");
    proof {
        assert(escape_str(s@, n as int) =~= Seq::<char>::empty());
        assert(r@ =~= json_string(s@));
    }
    r
}

/// Write a classification in JSON form.
fn json_lang_exec(l: &Language) -> (r: String)
    ensures
        r@ == json_lang(l@),
{
    match l {
        Language::Unknown(e) => {
            let mut r = "{\"Unknown\":".to_owned();
            r.append(json_string_exec(e.as_str()).as_str());
            r.append("}");
            proof {
                assert(r@ =~= json_lang(l@));
            }
            r
        },
        _ => {
            let id = l.ident();
            let r = json_string_exec(id.as_str());
            r
        },
    }
}

/// Write one record in JSON form.
fn json_file_exec(f: &File) -> (r: String)
    ensures
        r@ == json_file(f@),
{
    let mut r = "{\"path\":".to_owned();
    r.append(json_string_exec(f.path.as_str()).as_str());
    r.append(",\"lines\":");
    r.append(usize_to_string(f.lines).as_str());
    r.append(",\"words\":");
    r.append(usize_to_string(f.words).as_str());
    r.append(",\"chars\":");
    r.append(usize_to_string(f.chars).as_str());
    r.append(",\"bytes\":");
    r.append(u64_to_string(f.bytes).as_str());
    r.append(",\"language\":");
    r.append(json_lang_exec(&f.language).as_str());
    r.append(",\"count\":");
    r.append(usize_to_string(f.count).as_str());
    r.append("}");
    proof {
        assert(r@ =~= json_file(f@));
    }
    r
}

#[derive(Debug)]
pub struct JSONFormatter {}

impl Default for JSONFormatter {
    /// The formatter is stateless.
    fn default() -> (r: JSONFormatter) {
        JSONFormatter {  }
    }
}

impl JSONFormatter {
    /// Serialize the full result set as JSON text: the contract pins the
    /// exact text produced for every record list.
    pub fn render(&self, results: &ScanResults) -> (r: String)
        ensures
            r@ == json_results(recs(results.files@), results.total@, results.max@),
    {
        let ghost frecs = recs(results.files@);
        let mut parts: Vec<String> = Vec::new();
        let n = results.files.len();
        let mut i: usize = 0;
        proof {
            assert(views(parts@) =~= frecs.take(0).map_values(|r: Rec| json_file(r)));
        }
        while i < n
            invariant
                n == results.files@.len(),
                frecs == recs(results.files@),
                0 <= i <= n,
                views(parts@) == frecs.take(i as int).map_values(|r: Rec| json_file(r)),
            decreases n - i,
        {
            let ghost parts0 = parts@;
            parts.push(json_file_exec(&results.files[i]));
            proof {
                let f = |r: Rec| json_file(r);
                assert(frecs.take(i + 1).drop_last() =~= frecs.take(i as int));
                assert(frecs.take(i + 1).last() == frecs[i as int]);
                assert(frecs[i as int] == results.files@[i as int]@);
                assert(frecs.take(i as int).push(frecs[i as int]) =~= frecs.take(i + 1));
                assert(frecs.take(i + 1).map_values(f) =~= frecs.take(i as int).map_values(f).push(
                    f(frecs[i as int]),
                ));
                assert(views(parts@) =~= views(parts0).push(parts@.last()@));
            }
            i = i + 1;
        }
        proof {
            assert(frecs.take(n as int) =~= frecs);
            assert(frecs.take(n as int).map_values(|r: Rec| json_file(r)) =~= frecs.map_values(
                |r: Rec| json_file(r),
            ));
        }
        let body = join_strs(&parts, ",");
        let mut r = "{\"files\":[".to_owned();
        r.append(body.as_str());
        r.append("],\"total\":");
        let t = &results.total;
        let mut tj = "{\"files\":".to_owned();
        tj.append(usize_to_string(t.files).as_str());
        tj.append(",\"lines\":");
        tj.append(usize_to_string(t.lines).as_str());
        tj.append(",\"words\":");
        tj.append(usize_to_string(t.words).as_str());
        tj.append(",\"chars\":");
        tj.append(usize_to_string(t.chars).as_str());
        tj.append(",\"bytes\":");
        tj.append(u64_to_string(t.bytes).as_str());
        tj.append("}");
        proof {
            assert(tj@ =~= json_totals(results.total@));
        }
        r.append(tj.as_str());
        r.append(",\"max\":");
        let m = &results.max;
        let mut mj = "{\"lines\":".to_owned();
        mj.append(usize_to_string(m.lines).as_str());
        mj.append(",\"words\":");
        mj.append(usize_to_string(m.words).as_str());
        mj.append(",\"chars\":");
        mj.append(usize_to_string(m.chars).as_str());
        mj.append(",\"bytes\":");
        mj.append(u64_to_string(m.bytes).as_str());
        mj.append("}");
        proof {
            assert(mj@ =~= json_max(results.max@));
        }
        r.append(mj.as_str());
        r.append("}");
        proof {
            assert(r@ =~= json_results(frecs, results.total@, results.max@));
        }
        r
    }
}

impl Formatter for JSONFormatter {
    open spec fn format_spec(&self, results: &ScanResults, _config: &Config) -> Seq<char> {
        json_results(recs(results.files@), results.total@, results.max@)
    }

    fn format(&self, results: &ScanResults, _config: &Config) -> (r: String) {
        self.render(results)
    }
}

} // verus!
