//! Character and substring primitives shared by the protocol parsers:
//! whitespace classes, ASCII upper-casing, leftmost substring search,
//! whitespace splitting, line splitting, trimming and decimal rendering.
//!
//! Throughout the library "whitespace" means ASCII whitespace (space, tab,
//! line feed, vertical tab, form feed, carriage return): the headers and
//! URLs of the protocol never carry the more exotic Unicode spaces.

use vstd::prelude::*;

verus! {

// ---------------------------------------------------------------------------
// character classes
// ---------------------------------------------------------------------------

pub open spec fn is_space(c: char) -> bool {
    c == ' ' || c == '\t' || c == '\n' || c == '\u{b}' || c == '\u{c}' || c == '\r'
}

pub fn is_space_char(c: char) -> (r: bool)
    ensures
        r == is_space(c),
{
    c == ' ' || c == '\t' || c == '\n' || c == '\u{b}' || c == '\u{c}' || c == '\r'
}

pub open spec fn is_digit(c: char) -> bool {
    48 <= c as u32 && c as u32 <= 57
}

pub fn is_digit_char(c: char) -> (r: bool)
    ensures
        r == is_digit(c),
{
    let u = c as u32;
    48 <= u && u <= 57
}

/// The numeric value of a decimal digit character.
pub open spec fn digit_val(c: char) -> int {
    c as u32 - 48
}

/// The decimal digit character for a value below ten.
pub open spec fn digit_char(d: int) -> char {
    if d == 0 {
        '0'
    } else if d == 1 {
        '1'
    } else if d == 2 {
        '2'
    } else if d == 3 {
        '3'
    } else if d == 4 {
        '4'
    } else if d == 5 {
        '5'
    } else if d == 6 {
        '6'
    } else if d == 7 {
        '7'
    } else if d == 8 {
        '8'
    } else {
        '9'
    }
}

/// ASCII upper-casing of one character; anything but a lower-case ASCII
/// letter passes through unchanged.
pub open spec fn upper_char(c: char) -> char {
    if 97 <= c as u32 && c as u32 <= 122 {
        (c as u32 - 32) as char
    } else {
        c
    }
}

pub open spec fn upper_seq(s: Seq<char>) -> Seq<char> {
    Seq::new(s.len(), |i: int| upper_char(s[i]))
}

pub fn upper_char_exec(c: char) -> (r: char)
    ensures
        r == upper_char(c),
{
    let u = c as u32;
    if 97 <= u && u <= 122 {
        let r = ((u - 32) as u8) as char;
        proof {
            vstd::utf8::char_u32_cast(r, r as u32);
            vstd::utf8::char_u32_cast(upper_char(c), upper_char(c) as u32);
        }
        r
    } else {
        c
    }
}

// ---------------------------------------------------------------------------
// substring matching and leftmost search
// ---------------------------------------------------------------------------

/// The pattern `p` occurs in `s` at position `i`.
pub open spec fn match_at(s: Seq<char>, p: Seq<char>, i: int) -> bool {
    0 <= i && i + p.len() <= s.len() && s.subrange(i, i + p.len() as int) == p
}

/// The leftmost occurrence of `p` in `s` at or after `from`, if any.
pub open spec fn find_from_spec(s: Seq<char>, p: Seq<char>, from: int) -> Option<int>
    decreases s.len() + 1 - from,
{
    if from < 0 || from + p.len() > s.len() {
        None
    } else if match_at(s, p, from) {
        Some(from)
    } else {
        find_from_spec(s, p, from + 1)
    }
}

/// The leftmost occurrence of `p` in `s`, if any.
pub open spec fn find_spec(s: Seq<char>, p: Seq<char>) -> Option<int> {
    find_from_spec(s, p, 0)
}

pub proof fn lemma_find_from_found(s: Seq<char>, p: Seq<char>, from: int, i: int)
    requires
        find_from_spec(s, p, from) == Some(i),
    ensures
        from <= i,
        match_at(s, p, i),
        forall|j: int| from <= j < i ==> !match_at(s, p, j),
    decreases s.len() + 1 - from,
{
    if !(from < 0 || from + p.len() > s.len()) && !match_at(s, p, from) {
        lemma_find_from_found(s, p, from + 1, i);
    }
}

fn match_at_exec(s: &str, p: &str, i: usize) -> (r: bool)
    requires
        i + p@.len() <= s@.len(),
    ensures
        r == match_at(s@, p@, i as int),
{
    let n = s.unicode_len();
    let m = p.unicode_len();
    let mut j: usize = 0;
    while j < m
        invariant
            j <= m,
            n == s@.len(),
            m == p@.len(),
            i + m <= n,
            forall|k: int| 0 <= k < j ==> s@[i + k] == p@[k],
        decreases m - j,
    {
        if s.get_char(i + j) != p.get_char(j) {
            assert(!match_at(s@, p@, i as int)) by {
                if match_at(s@, p@, i as int) {
                    assert(s@.subrange(i as int, i + m)[j as int] == p@[j as int]);
                }
            }
            return false;
        }
        j += 1;
    }
    assert(s@.subrange(i as int, i + m) =~= p@);
    true
}

/// Leftmost occurrence of `p` in `s` at or after `from`, by character index.
pub fn find_in(s: &str, p: &str, from: usize) -> (r: Option<usize>)
    requires
        from <= s@.len(),
    ensures
        match r {
            Some(i) => find_from_spec(s@, p@, from as int) == Some(i as int),
            None => find_from_spec(s@, p@, from as int) is None,
        },
{
    let n = s.unicode_len();
    let m = p.unicode_len();
    let mut i: usize = from;
    while m <= n && i <= n - m
        invariant
            from <= i,
            i <= n,
            n == s@.len(),
            m == p@.len(),
            find_from_spec(s@, p@, from as int) == find_from_spec(s@, p@, i as int),
        decreases n - i,
    {
        if match_at_exec(s, p, i) {
            return Some(i);
        }
        proof {
            // an empty pattern matches at every position, so a failed
            // match means the pattern is non-empty and i stays below n
            if m == 0 {
                assert(s@.subrange(i as int, i as int) =~= p@);
                assert(false);
            }
        }
        i += 1;
    }
    None
}

// ---------------------------------------------------------------------------
// prefixes
// ---------------------------------------------------------------------------

pub open spec fn starts_with(s: Seq<char>, p: Seq<char>) -> bool {
    p.len() <= s.len() && s.subrange(0, p.len() as int) == p
}

// ---------------------------------------------------------------------------
// whitespace-separated words
// ---------------------------------------------------------------------------

/// Length of the run of non-whitespace characters at the front of `s`.
pub open spec fn word_len(s: Seq<char>) -> nat
    decreases s.len(),
{
    if s.len() == 0 || is_space(s[0]) {
        0
    } else {
        (1 + word_len(s.skip(1))) as nat
    }
}

/// The whitespace-separated words of `s`, in order, leading and trailing
/// whitespace ignored, as `str::split_whitespace` walks them.
pub open spec fn split_ws(s: Seq<char>) -> Seq<Seq<char>>
    decreases s.len() via split_ws_decreases
{
    if s.len() == 0 {
        Seq::empty()
    } else if is_space(s[0]) {
        split_ws(s.skip(1))
    } else {
        seq![s.take(word_len(s) as int)] + split_ws(s.skip(word_len(s) as int))
    }
}

#[via_fn]
proof fn split_ws_decreases(s: Seq<char>) {
    if s.len() > 0 && !is_space(s[0]) {
        lemma_word_len_le(s);
    }
}

pub proof fn lemma_word_len_le(s: Seq<char>)
    ensures
        word_len(s) <= s.len(),
    decreases s.len(),
{
    if s.len() > 0 && !is_space(s[0]) {
        lemma_word_len_le(s.skip(1));
    }
}

pub proof fn lemma_split_ws_count(s: Seq<char>)
    ensures
        split_ws(s).len() <= s.len(),
    decreases s.len(),
{
    if s.len() > 0 {
        if is_space(s[0]) {
            lemma_split_ws_count(s.skip(1));
        } else {
            lemma_word_len_le(s);
            lemma_split_ws_count(s.skip(word_len(s) as int));
        }
    }
}

/// Every word that the split yields is non-empty.
pub proof fn lemma_words_nonempty(s: Seq<char>)
    ensures
        forall|i: int| 0 <= i < split_ws(s).len() ==> (#[trigger] split_ws(s)[i]).len() > 0,
    decreases s.len(),
{
    if s.len() > 0 {
        if is_space(s[0]) {
            lemma_words_nonempty(s.skip(1));
            assert(split_ws(s) == split_ws(s.skip(1)));
            assert forall|i: int| 0 <= i < split_ws(s).len() implies (#[trigger] split_ws(
                s,
            )[i]).len() > 0 by {
                assert(split_ws(s)[i] == split_ws(s.skip(1))[i]);
            }
        } else {
            lemma_word_len_le(s);
            lemma_words_nonempty(s.skip(word_len(s) as int));
            let rest = split_ws(s.skip(word_len(s) as int));
            assert forall|i: int| 0 <= i < split_ws(s).len() implies (#[trigger] split_ws(
                s,
            )[i]).len() > 0 by {
                if i == 0 {
                    assert(split_ws(s)[0] == s.take(word_len(s) as int));
                } else {
                    assert(split_ws(s)[i] == rest[i - 1]);
                }
            }
        }
    }
}

fn word_len_str(s: &str) -> (w: usize)
    ensures
        w as nat == word_len(s@),
    decreases s@.len(),
{
    let n = s.unicode_len();
    if n == 0 || is_space_char(s.get_char(0)) {
        0
    } else {
        let rest = s.substring_char(1, n);
        proof {
            assert(rest@ =~= s@.skip(1));
            lemma_word_len_le(s@.skip(1));
        }
        1 + word_len_str(rest)
    }
}

/// The word at index `k` of the whitespace split of `s`.
pub fn nth_word(s: &str, k: usize) -> (r: Option<String>)
    ensures
        match r {
            Some(w) => k < split_ws(s@).len() && w@ == split_ws(s@)[k as int],
            None => split_ws(s@).len() <= k,
        },
    decreases s@.len(),
{
    let n = s.unicode_len();
    if n == 0 {
        return None;
    }
    if is_space_char(s.get_char(0)) {
        let rest = s.substring_char(1, n);
        proof {
            assert(rest@ =~= s@.skip(1));
        }
        return nth_word(rest, k);
    }
    let w = word_len_str(s);
    proof {
        lemma_word_len_le(s@);
    }
    if k == 0 {
        Some(String::from_str(s.substring_char(0, w)))
    } else {
        let rest = s.substring_char(w, n);
        proof {
            assert(rest@ =~= s@.skip(word_len(s@) as int));
        }
        nth_word(rest, k - 1)
    }
}

/// How many words the whitespace split of `s` yields.
pub fn count_words(s: &str) -> (c: usize)
    ensures
        c as nat == split_ws(s@).len(),
    decreases s@.len(),
{
    let n = s.unicode_len();
    if n == 0 {
        return 0;
    }
    if is_space_char(s.get_char(0)) {
        let rest = s.substring_char(1, n);
        proof {
            assert(rest@ =~= s@.skip(1));
        }
        return count_words(rest);
    }
    let w = word_len_str(s);
    proof {
        lemma_word_len_le(s@);
    }
    let rest = s.substring_char(w, n);
    proof {
        assert(rest@ =~= s@.skip(word_len(s@) as int));
        lemma_split_ws_count(rest@);
    }
    1 + count_words(rest)
}

/// The last whitespace-separated word of `s`, if there is one.
pub fn last_word(s: &str) -> (r: Option<String>)
    ensures
        match r {
            Some(w) => split_ws(s@).len() > 0 && w@ == split_ws(s@).last(),
            None => split_ws(s@).len() == 0,
        },
{
    let c = count_words(s);
    if c == 0 {
        return None;
    }
    match nth_word(s, c - 1) {
        Some(w) => Some(w),
        None => {
            proof {
                assert(false);
            }
            vstd::pervasive::unreached()
        },
    }
}

// ---------------------------------------------------------------------------
// trimming and prefix stripping
// ---------------------------------------------------------------------------

pub open spec fn trim_start_spec(s: Seq<char>) -> Seq<char>
    decreases s.len(),
{
    if s.len() > 0 && is_space(s[0]) {
        trim_start_spec(s.skip(1))
    } else {
        s
    }
}

pub open spec fn trim_end_spec(s: Seq<char>) -> Seq<char>
    decreases s.len(),
{
    if s.len() > 0 && is_space(s[s.len() - 1]) {
        trim_end_spec(s.drop_last())
    } else {
        s
    }
}

/// `s` with whitespace removed from both ends.
pub open spec fn trim_spec(s: Seq<char>) -> Seq<char> {
    trim_end_spec(trim_start_spec(s))
}

/// Whitespace trimmed from both ends, as `str::trim` does.
pub fn trim_str(s: &str) -> (r: String)
    ensures
        r@ == trim_spec(s@),
    decreases s@.len(),
{
    let n = s.unicode_len();
    if n > 0 && is_space_char(s.get_char(0)) {
        let rest = s.substring_char(1, n);
        proof {
            assert(rest@ =~= s@.skip(1));
        }
        trim_str(rest)
    } else if n > 0 && is_space_char(s.get_char(n - 1)) {
        let rest = s.substring_char(0, n - 1);
        proof {
            assert(rest@ =~= s@.drop_last());
            assert(trim_start_spec(s@) == s@);
            if rest@.len() > 0 {
                assert(rest@[0] == s@[0]);
            }
            assert(trim_start_spec(rest@) == rest@);
            assert(trim_spec(s@) == trim_end_spec(s@.drop_last()));
        }
        trim_str(rest)
    } else {
        proof {
            assert(trim_start_spec(s@) == s@);
            assert(trim_end_spec(s@) == s@);
        }
        String::from_str(s)
    }
}

// ---------------------------------------------------------------------------
// upper-casing
// ---------------------------------------------------------------------------

/// ASCII upper-casing of a whole string.
pub fn upper_str(s: &str) -> (r: String)
    ensures
        r@ == upper_seq(s@),
{
    let letters = "ABCDEFGHIJKLMNOPQRSTUVWXYZ";
    proof {
        reveal_strlit("ABCDEFGHIJKLMNOPQRSTUVWXYZ");
    }
    let n = s.unicode_len();
    let mut r = String::new();
    let mut i: usize = 0;
    while i < n
        invariant
            i <= n,
            n == s@.len(),
            letters@.len() == 26,
            forall|k: int| 0 <= k < 26 ==> letters@[k] as u32 == 65 + k,
            r@ =~= upper_seq(s@).take(i as int),
        decreases n - i,
    {
        let c = s.get_char(i);
        let u = c as u32;
        if 97 <= u && u <= 122 {
            let k = (u - 97) as usize;
            let piece = letters.substring_char(k, k + 1);
            proof {
                let lc = letters@[k as int];
                vstd::utf8::char_u32_cast(lc, lc as u32);
                vstd::utf8::char_u32_cast(upper_char(c), upper_char(c) as u32);
                assert(piece@ =~= seq![upper_char(c)]);
            }
            r.append(piece);
        } else {
            let piece = s.substring_char(i, i + 1);
            assert(piece@ =~= seq![upper_char(c)]);
            r.append(piece);
        }
        proof {
            assert(r@ =~= upper_seq(s@).take(i + 1));
        }
        i += 1;
    }
    proof {
        assert(upper_seq(s@).take(n as int) =~= upper_seq(s@));
    }
    r
}

// ---------------------------------------------------------------------------
// decimal rendering
// ---------------------------------------------------------------------------

/// The decimal digits of `n`, most significant first, no sign and no
/// leading zero (a single `'0'` for zero itself).
pub open spec fn dec_digits(n: nat) -> Seq<char>
    decreases n,
{
    if n < 10 {
        seq![digit_char(n as int)]
    } else {
        dec_digits(n / 10) + seq![digit_char((n % 10) as int)]
    }
}

fn digit_str(d: u64) -> (r: &'static str)
    requires
        d < 10,
    ensures
        r@ =~= seq![digit_char(d as int)],
{
    let r = if d == 0 {
        "0"
    } else if d == 1 {
        "1"
    } else if d == 2 {
        "2"
    } else if d == 3 {
        "3"
    } else if d == 4 {
        "4"
    } else if d == 5 {
        "5"
    } else if d == 6 {
        "6"
    } else if d == 7 {
        "7"
    } else if d == 8 {
        "8"
    } else {
        "9"
    };
    proof {
        reveal_strlit("0");
        reveal_strlit("1");
        reveal_strlit("2");
        reveal_strlit("3");
        reveal_strlit("4");
        reveal_strlit("5");
        reveal_strlit("6");
        reveal_strlit("7");
        reveal_strlit("8");
        reveal_strlit("9");
    }
    r
}

/// `x` rendered in decimal.
pub fn dec_str(x: u64) -> (r: String)
    ensures
        r@ == dec_digits(x as nat),
    decreases x,
{
    let d = digit_str(x % 10);
    if x < 10 {
        String::from_str(d)
    } else {
        let r = dec_str(x / 10).concat(d);
        proof {
            assert(r@ =~= dec_digits(x as nat));
        }
        r
    }
}

// ---------------------------------------------------------------------------
// first-occurrence replacement
// ---------------------------------------------------------------------------

/// `s` with the leftmost occurrence of `p` (if any) replaced by `rep`.
pub open spec fn replace_first(s: Seq<char>, p: Seq<char>, rep: Seq<char>) -> Seq<char> {
    match find_spec(s, p) {
        Some(i) => s.take(i) + rep + s.skip(i + p.len()),
        None => s,
    }
}

pub fn replace_first_str(s: &str, p: &str, rep: &str) -> (r: String)
    ensures
        r@ == replace_first(s@, p@, rep@),
{
    let n = s.unicode_len();
    match find_in(s, p, 0) {
        None => String::from_str(s),
        Some(i) => {
            proof {
                lemma_find_from_found(s@, p@, 0, i as int);
            }
            let pl = p.unicode_len();
            let head = s.substring_char(0, i);
            let tail = s.substring_char(i + pl, n);
            let r = String::from_str(head).concat(rep).concat(tail);
            proof {
                assert(r@ =~= replace_first(s@, p@, rep@));
            }
            r
        },
    }
}

// ---------------------------------------------------------------------------
// lines
// ---------------------------------------------------------------------------

/// Length of the run of characters at the front of `s` up to the first
/// line feed, or all of `s` without one.
pub open spec fn line_len(s: Seq<char>) -> nat
    decreases s.len(),
{
    if s.len() == 0 || s[0] == '\n' {
        0
    } else {
        (1 + line_len(s.skip(1))) as nat
    }
}

pub proof fn lemma_line_len_le(s: Seq<char>)
    ensures
        line_len(s) <= s.len(),
    decreases s.len(),
{
    if s.len() > 0 && s[0] != '\n' {
        lemma_line_len_le(s.skip(1));
    }
}

/// One carriage return stripped from the end, as `str::lines` strips it
/// from a line that ended in `\r\n`.
pub open spec fn strip_cr(l: Seq<char>) -> Seq<char> {
    if l.len() > 0 && l[l.len() - 1] == '\r' {
        l.drop_last()
    } else {
        l
    }
}

/// The lines of `s`, split at line feeds, each line's trailing `\r`
/// stripped, the final line ending optional — as `str::lines` walks them.
pub open spec fn lines_of(s: Seq<char>) -> Seq<Seq<char>>
    decreases s.len() via lines_of_decreases
{
    if s.len() == 0 {
        Seq::empty()
    } else {
        let n = line_len(s) as int;
        if n == s.len() {
            seq![s]
        } else {
            seq![strip_cr(s.take(n))] + lines_of(s.skip(n + 1))
        }
    }
}

#[via_fn]
proof fn lines_of_decreases(s: Seq<char>) {
    if s.len() > 0 {
        lemma_line_len_le(s);
    }
}

pub fn line_len_str(s: &str) -> (w: usize)
    ensures
        w as nat == line_len(s@),
    decreases s@.len(),
{
    let n = s.unicode_len();
    if n == 0 || s.get_char(0) == '\n' {
        0
    } else {
        let rest = s.substring_char(1, n);
        proof {
            assert(rest@ =~= s@.skip(1));
            lemma_line_len_le(s@.skip(1));
        }
        1 + line_len_str(rest)
    }
}

} // verus!
