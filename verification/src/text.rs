//! Shared text utilities: byte-length and whitespace specifications, word
//! counting, decimal rendering of counters, and small string helpers that the
//! scanner and the rendering engine both use.

use vstd::prelude::*;

verus! {

/// Number of bytes a character sequence occupies under UTF-8.
pub open spec fn byte_len(s: Seq<char>) -> nat {
    vstd::utf8::encode_utf8(s).len()
}

/// The byte length as `str::len` reports it.
pub open spec fn blen(s: Seq<char>) -> nat {
    (byte_len(s) as usize) as nat
}

/// The characters with the Unicode `White_Space` property, i.e. exactly those
/// on which `char::is_whitespace` reports true.
pub open spec fn is_space_spec(c: char) -> bool {
    let u = c as u32;
    ||| u == 0x20
    ||| (0x09 <= u && u <= 0x0D)
    ||| u == 0x85
    ||| u == 0xA0
    ||| u == 0x1680
    ||| (0x2000 <= u && u <= 0x200A)
    ||| u == 0x2028
    ||| u == 0x2029
    ||| u == 0x202F
    ||| u == 0x205F
    ||| u == 0x3000
}

/// Runtime test for `is_space_spec`.
pub fn is_space(c: char) -> (r: bool)
    ensures
        r == is_space_spec(c),
{
    let u = c as u32;
    u == 0x20 || (0x09 <= u && u <= 0x0D) || u == 0x85 || u == 0xA0 || u == 0x1680 || (0x2000 <= u
        && u <= 0x200A) || u == 0x2028 || u == 0x2029 || u == 0x202F || u == 0x205F || u == 0x3000
}

/// Number of whitespace-delimited words in `s[i..]`, given whether position
/// `i` is already inside a word.
pub open spec fn word_count_from(s: Seq<char>, i: int, in_word: bool) -> nat
    decreases s.len() - i,
{
    if i < 0 || i >= s.len() {
        0
    } else if is_space_spec(s[i]) {
        word_count_from(s, i + 1, false)
    } else {
        (if in_word {
            0nat
        } else {
            1nat
        }) + word_count_from(s, i + 1, true)
    }
}

/// Number of whitespace-delimited words in `s`, as `str::split_whitespace`
/// would yield them.
pub open spec fn word_count(s: Seq<char>) -> nat {
    word_count_from(s, 0, false)
}

pub proof fn lemma_word_count_from_bound(s: Seq<char>, i: int, in_word: bool)
    requires
        0 <= i <= s.len(),
    ensures
        word_count_from(s, i, in_word) <= s.len() - i,
    decreases s.len() - i,
{
    if i < s.len() {
        if is_space_spec(s[i]) {
            lemma_word_count_from_bound(s, i + 1, false);
        } else {
            lemma_word_count_from_bound(s, i + 1, true);
        }
    }
}

/// A word never starts inside a word that has already been counted, so
/// counting with `in_word` true can only drop the first word.
pub proof fn lemma_word_count_le_len(s: Seq<char>)
    ensures
        word_count(s) <= s.len(),
{
    lemma_word_count_from_bound(s, 0, false);
}

/// Count the words of `s` exactly as `str::split_whitespace().count()` does.
pub fn count_words(s: &str) -> (w: usize)
    ensures
        w == word_count(s@),
{
    let n = s.unicode_len();
    let mut w: usize = 0;
    let mut in_word = false;
    let mut i: usize = 0;
    while i < n
        invariant
            n == s@.len(),
            0 <= i <= n,
            w <= i,
            word_count(s@) == w + word_count_from(s@, i as int, in_word),
        decreases n - i,
    {
        let c = s.get_char(i);
        if is_space(c) {
            in_word = false;
        } else {
            if !in_word {
                w = w + 1;
            }
            in_word = true;
        }
        i = i + 1;
    }
    w
}

/// The decimal digit character for `d` (0 through 9).
pub open spec fn dec_digit(d: nat) -> char {
    if d == 0 {
        '0'
    } else if d == 1 {
        '1'
    } else if d == 2 {
        '2'
    } else if d == 3 {
        '3'
    } else if d == 4 {
        '4'
    } else if d == 5 {
        '5'
    } else if d == 6 {
        '6'
    } else if d == 7 {
        '7'
    } else if d == 8 {
        '8'
    } else {
        '9'
    }
}

/// The decimal representation of `n`, without leading zeroes.
pub open spec fn dec_rep(n: nat) -> Seq<char>
    decreases n,
{
    if n < 10 {
        seq![dec_digit(n)]
    } else {
        dec_rep(n / 10).push(dec_digit(n % 10))
    }
}

fn digit_char(d: u64) -> (c: char)
    requires
        d < 10,
    ensures
        c == dec_digit(d as nat),
{
    if d == 0 {
        '0'
    } else if d == 1 {
        '1'
    } else if d == 2 {
        '2'
    } else if d == 3 {
        '3'
    } else if d == 4 {
        '4'
    } else if d == 5 {
        '5'
    } else if d == 6 {
        '6'
    } else if d == 7 {
        '7'
    } else if d == 8 {
        '8'
    } else {
        '9'
    }
}

/// Relies on String::push: appends exactly the one given character.
#[verifier::external_body]
pub fn push_char(s: &mut String, c: char)
    ensures
        final(s)@ == old(s)@.push(c),
{
    s.push(c)
}

/// Render `n` in decimal, as `u64::to_string` would.
pub fn u64_to_string(n: u64) -> (r: String)
    ensures
        r@ == dec_rep(n as nat),
{
    let mut digits: Vec<char> = Vec::new();
    let mut m = n;
    while m >= 10
        invariant
            dec_rep(n as nat) == dec_rep(m as nat) + digits@.reverse(),
        decreases m,
    {
        proof {
            assert(dec_rep(m as nat) == dec_rep(m as nat / 10).push(dec_digit(m as nat % 10)));
            assert(dec_rep(m as nat / 10).push(dec_digit(m as nat % 10)) + digits@.reverse()
                =~= dec_rep(m as nat / 10) + digits@.push(dec_digit(m as nat % 10)).reverse());
        }
        digits.push(digit_char(m % 10));
        m = m / 10;
    }
    proof {
        assert(dec_rep(m as nat) == seq![dec_digit(m as nat)]);
        assert(seq![dec_digit(m as nat)] + digits@.reverse() =~= digits@.push(
            dec_digit(m as nat),
        ).reverse());
    }
    digits.push(digit_char(m));
    let ghost all = digits@;
    let mut r = String::new();
    let mut i = digits.len();
    while i > 0
        invariant
            digits@ == all,
            0 <= i <= all.len(),
            r@.len() == all.len() - i,
            forall|k: int| 0 <= k < r@.len() ==> r@[k] == all[all.len() - 1 - k],
        decreases i,
    {
        i = i - 1;
        push_char(&mut r, digits[i]);
    }
    proof {
        assert(r@ =~= all.reverse());
        assert(dec_rep(n as nat) =~= dec_rep(n as nat) + Seq::<char>::empty());
    }
    r
}

/// Render `n` in decimal, as `usize::to_string` would.
pub fn usize_to_string(n: usize) -> (r: String)
    ensures
        r@ == dec_rep(n as nat),
{
    u64_to_string(n as u64)
}

/// Character-by-character string equality.
pub fn str_eq(a: &str, b: &str) -> (r: bool)
    ensures
        r == (a@ == b@),
{
    let an = a.unicode_len();
    let bn = b.unicode_len();
    if an != bn {
        return false;
    }
    let mut i: usize = 0;
    while i < an
        invariant
            an == a@.len(),
            bn == b@.len(),
            an == bn,
            0 <= i <= an,
            forall|j: int| 0 <= j < i ==> a@[j] == b@[j],
        decreases an - i,
    {
        if a.get_char(i) != b.get_char(i) {
            return false;
        }
        i = i + 1;
    }
    proof {
        assert(a@ =~= b@);
    }
    true
}

/// The views of a sequence of strings.
pub open spec fn views(v: Seq<String>) -> Seq<Seq<char>> {
    v.map_values(|s: String| s@)
}

/// The views of a sequence of rows of strings.
pub open spec fn views2(rows: Seq<Vec<String>>) -> Seq<Seq<Seq<char>>> {
    rows.map_values(|r: Vec<String>| views(r@))
}

/// `n` space characters.
pub open spec fn spaces(n: nat) -> Seq<char>
    decreases n,
{
    if n == 0 {
        Seq::empty()
    } else {
        spaces((n - 1) as nat).push(' ')
    }
}

/// Append `n` spaces to `s`.
pub fn push_spaces(s: &mut String, n: usize)
    ensures
        final(s)@ == old(s)@ + spaces(n as nat),
{
    let mut k: usize = 0;
    proof {
        assert(old(s)@ + spaces(0) =~= old(s)@);
    }
    while k < n
        invariant
            0 <= k <= n,
            s@ == old(s)@ + spaces(k as nat),
        decreases n - k,
    {
        push_char(s, ' ');
        k = k + 1;
    }
}

/// `s` repeated `n` times.
pub open spec fn repeat_seq(s: Seq<char>, n: nat) -> Seq<char>
    decreases n,
{
    if n == 0 {
        Seq::empty()
    } else {
        repeat_seq(s, (n - 1) as nat) + s
    }
}

/// Repeat a string `n` times, as `str::repeat` does.
pub fn repeat_str(s: &str, n: usize) -> (r: String)
    ensures
        r@ == repeat_seq(s@, n as nat),
{
    let mut r = String::new();
    let mut k: usize = 0;
    proof {
        assert(r@ =~= repeat_seq(s@, 0));
    }
    while k < n
        invariant
            0 <= k <= n,
            r@ == repeat_seq(s@, k as nat),
        decreases n - k,
    {
        r.append(s);
        k = k + 1;
    }
    r
}

/// The pieces joined with `sep` between consecutive pieces.
pub open spec fn join_with(v: Seq<Seq<char>>, sep: Seq<char>) -> Seq<char>
    decreases v.len(),
{
    if v.len() == 0 {
        Seq::empty()
    } else if v.len() == 1 {
        v[0]
    } else {
        join_with(v.drop_last(), sep) + sep + v.last()
    }
}

/// Join strings with a separator, as `[String]::join` does.
pub fn join_strs(parts: &Vec<String>, sep: &str) -> (r: String)
    ensures
        r@ == join_with(views(parts@), sep@),
{
    let mut r = String::new();
    let n = parts.len();
    let mut i: usize = 0;
    while i < n
        invariant
            n == parts@.len(),
            0 <= i <= n,
            r@ == join_with(views(parts@).take(i as int), sep@),
        decreases n - i,
    {
        proof {
            assert(views(parts@).take(i + 1).drop_last() =~= views(parts@).take(i as int));
            assert(views(parts@).take(i + 1).last() == parts@[i as int]@);
        }
        if i > 0 {
            r.append(sep);
        }
        r.append(parts[i].as_str());
        i = i + 1;
    }
    proof {
        assert(views(parts@).take(n as int) =~= views(parts@));
    }
    r
}

/// One trailing carriage return removed, as a `\r\n` line ending leaves it.
pub open spec fn strip_cr(s: Seq<char>) -> Seq<char> {
    if s.len() > 0 && s.last() == '\r' {
        s.drop_last()
    } else {
        s
    }
}

/// The lines of `s[i..]`, with `cur` the content accumulated for the line in
/// progress; a final line ending produces no trailing empty line.
pub open spec fn lines_from(s: Seq<char>, i: int, cur: Seq<char>) -> Seq<Seq<char>>
    decreases s.len() - i,
{
    if i < 0 || i >= s.len() {
        if cur.len() == 0 {
            Seq::empty()
        } else {
            seq![cur]
        }
    } else if s[i] == '\n' {
        seq![strip_cr(cur)] + lines_from(s, i + 1, Seq::empty())
    } else {
        lines_from(s, i + 1, cur.push(s[i]))
    }
}

/// The lines of `s`, as `str::lines` yields them.
pub open spec fn split_lines(s: Seq<char>) -> Seq<Seq<char>> {
    lines_from(s, 0, Seq::empty())
}

/// Split `s` into its lines.
pub fn split_lines_exec(s: &str) -> (r: Vec<String>)
    ensures
        views(r@) == split_lines(s@),
{
    let n = s.unicode_len();
    let mut out: Vec<String> = Vec::new();
    let mut cur = String::new();
    let mut last_was_cr = false;
    let mut i: usize = 0;
    proof {
        assert(views(out@) =~= Seq::<Seq<char>>::empty());
        assert(split_lines(s@) =~= views(out@) + lines_from(s@, 0, cur@));
    }
    while i < n
        invariant
            n == s@.len(),
            0 <= i <= n,
            last_was_cr == (cur@.len() > 0 && cur@.last() == '\r'),
            split_lines(s@) == views(out@) + lines_from(s@, i as int, cur@),
        decreases n - i,
    {
        let c = s.get_char(i);
        if c == '\n' {
            let ghost cur0 = cur@;
            let line = if last_was_cr {
                let m = cur.as_str().unicode_len();
                let t = cur.as_str().substring_char(0, m - 1).to_owned();
                proof {
                    assert(t@ =~= strip_cr(cur0));
                }
                t
            } else {
                cur
            };
            out.push(line);
            cur = String::new();
            last_was_cr = false;
            proof {
                assert(line@ == strip_cr(cur0));
                assert(views(out@) =~= views(out@.drop_last()) + seq![strip_cr(cur0)]);
                assert(split_lines(s@) =~= views(out@) + lines_from(s@, i + 1, cur@));
            }
        } else {
            push_char(&mut cur, c);
            last_was_cr = c == '\r';
        }
        i = i + 1;
    }
    if cur.as_str().unicode_len() > 0 {
        out.push(cur);
        proof {
            assert(views(out@) =~= views(out@.drop_last()) + seq![out@.last()@]);
        }
    }
    proof {
        assert(views(out@) =~= split_lines(s@));
    }
    out
}

/// The pieces of `s[i..]` split on the delimiter, with `cur` the piece in
/// progress; empty pieces are kept, and the final piece is always produced.
pub open spec fn split_from(s: Seq<char>, d: char, i: int, cur: Seq<char>) -> Seq<Seq<char>>
    decreases s.len() - i,
{
    if i < 0 || i >= s.len() {
        seq![cur]
    } else if s[i] == d {
        seq![cur] + split_from(s, d, i + 1, Seq::empty())
    } else {
        split_from(s, d, i + 1, cur.push(s[i]))
    }
}

/// The pieces of `s` split on the delimiter, as `str::split` yields them.
pub open spec fn split_on(s: Seq<char>, d: char) -> Seq<Seq<char>> {
    split_from(s, d, 0, Seq::empty())
}

/// Split `s` on a delimiter character.
pub fn split_char(s: &str, d: char) -> (r: Vec<String>)
    ensures
        views(r@) == split_on(s@, d),
{
    let n = s.unicode_len();
    let mut out: Vec<String> = Vec::new();
    let mut cur = String::new();
    let mut i: usize = 0;
    proof {
        assert(views(out@) =~= Seq::<Seq<char>>::empty());
        assert(split_on(s@, d) =~= views(out@) + split_from(s@, d, 0, cur@));
    }
    while i < n
        invariant
            n == s@.len(),
            0 <= i <= n,
            split_on(s@, d) == views(out@) + split_from(s@, d, i as int, cur@),
        decreases n - i,
    {
        let c = s.get_char(i);
        if c == d {
            out.push(cur);
            cur = String::new();
            proof {
                assert(views(out@) =~= views(out@.drop_last()) + seq![out@.last()@]);
                assert(split_on(s@, d) =~= views(out@) + split_from(s@, d, i + 1, cur@));
            }
        } else {
            push_char(&mut cur, c);
        }
        i = i + 1;
    }
    out.push(cur);
    proof {
        assert(views(out@) =~= views(out@.drop_last()) + seq![out@.last()@]);
        assert(views(out@) =~= split_on(s@, d));
    }
    out
}

/// The leading whitespace removed.
pub open spec fn drop_leading_spaces(s: Seq<char>) -> Seq<char>
    decreases s.len(),
{
    if s.len() > 0 && is_space_spec(s.first()) {
        drop_leading_spaces(s.drop_first())
    } else {
        s
    }
}

/// The trailing whitespace removed.
pub open spec fn drop_trailing_spaces(s: Seq<char>) -> Seq<char>
    decreases s.len(),
{
    if s.len() > 0 && is_space_spec(s.last()) {
        drop_trailing_spaces(s.drop_last())
    } else {
        s
    }
}

/// Whitespace removed from both ends, as `str::trim` leaves it.
pub open spec fn trim_spec(s: Seq<char>) -> Seq<char> {
    drop_trailing_spaces(drop_leading_spaces(s))
}

proof fn lemma_drop_leading(s: Seq<char>, a: int)
    requires
        0 <= a <= s.len(),
        forall|j: int| 0 <= j < a ==> is_space_spec(#[trigger] s[j]),
        a < s.len() ==> !is_space_spec(s[a]),
    ensures
        drop_leading_spaces(s) == s.skip(a),
    decreases a,
{
    if a == 0 {
        assert(s.skip(0) =~= s);
    } else {
        assert(is_space_spec(s.first()));
        let t = s.drop_first();
        assert forall|j: int| 0 <= j < a - 1 implies is_space_spec(#[trigger] t[j]) by {
            assert(t[j] == s[j + 1]);
        }
        lemma_drop_leading(t, a - 1);
        assert(t.skip(a - 1) =~= s.skip(a));
    }
}

proof fn lemma_drop_trailing(s: Seq<char>, b: int)
    requires
        0 <= b <= s.len(),
        forall|j: int| b <= j < s.len() ==> is_space_spec(#[trigger] s[j]),
        b > 0 ==> !is_space_spec(s[b - 1]),
    ensures
        drop_trailing_spaces(s) == s.take(b),
    decreases s.len() - b,
{
    if b == s.len() {
        assert(s.take(b) =~= s);
    } else {
        assert(is_space_spec(s.last()));
        let t = s.drop_last();
        lemma_drop_trailing(t, b);
        assert(t.take(b) =~= s.take(b));
    }
}

/// Remove whitespace from both ends, as `str::trim` does.
pub fn trim(s: &str) -> (r: String)
    ensures
        r@ == trim_spec(s@),
{
    let n = s.unicode_len();
    let mut a: usize = 0;
    while a < n && is_space(s.get_char(a))
        invariant
            n == s@.len(),
            0 <= a <= n,
            forall|j: int| 0 <= j < a ==> is_space_spec(#[trigger] s@[j]),
        decreases n - a,
    {
        a = a + 1;
    }
    let mut b: usize = n;
    while b > a && is_space(s.get_char(b - 1))
        invariant
            n == s@.len(),
            a <= b <= n,
            forall|j: int| b <= j < n ==> is_space_spec(#[trigger] s@[j]),
        decreases b,
    {
        b = b - 1;
    }
    let r = s.substring_char(a, b).to_owned();
    proof {
        lemma_drop_leading(s@, a as int);
        let u = s@.skip(a as int);
        if b == a {
            assert forall|j: int| 0 <= j < u.len() implies is_space_spec(#[trigger] u[j]) by {
                assert(u[j] == s@[j + a]);
            }
            lemma_drop_trailing(u, 0);
        } else {
            assert forall|j: int| b - a <= j < u.len() implies is_space_spec(#[trigger] u[j]) by {
                assert(u[j] == s@[j + a]);
            }
            assert(u[b - a - 1] == s@[b - 1]);
            lemma_drop_trailing(u, b - a);
        }
        assert(u.take(b - a) =~= s@.subrange(a as int, b as int));
        assert(r@ == trim_spec(s@));
    }
    r
}

} // verus!
