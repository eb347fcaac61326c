//! Verified text utilities: token splitting, decimal parsing and formatting,
//! and substring search over `&str` views.

use vstd::prelude::*;

verus! {

/// Whether `c` is a decimal digit.
pub open spec fn is_digit(c: char) -> bool {
    '0' <= c && c <= '9'
}

/// The numeric value of a decimal digit.
pub open spec fn digit_val(c: char) -> int {
    c as int - '0' as int
}

/// The digit character for a value below ten.
pub open spec fn digit_char(d: int) -> char {
    if d == 0 {
        '0'
    } else if d == 1 {
        '1'
    } else if d == 2 {
        '2'
    } else if d == 3 {
        '3'
    } else if d == 4 {
        '4'
    } else if d == 5 {
        '5'
    } else if d == 6 {
        '6'
    } else if d == 7 {
        '7'
    } else if d == 8 {
        '8'
    } else {
        '9'
    }
}

/// The decimal representation of a non-negative integer, most significant
/// digit first.
pub open spec fn dec_rep(n: int) -> Seq<char>
    decreases n,
{
    if n < 10 {
        seq![digit_char(n)]
    } else {
        dec_rep(n / 10).push(digit_char(n % 10))
    }
}

/// The decimal representation of a signed integer.
pub open spec fn int_rep(v: int) -> Seq<char> {
    if v < 0 {
        seq!['-'].add(dec_rep(-v))
    } else {
        dec_rep(v)
    }
}

/// The value of a sequence of digit characters, most significant first.
pub open spec fn digits_val(s: Seq<char>) -> int
    decreases s.len(),
{
    if s.len() == 0 {
        0
    } else {
        digits_val(s.drop_last()) * 10 + digit_val(s.last())
    }
}

/// Whether every character of `s` is a decimal digit and `s` is non-empty.
pub open spec fn all_digits(s: Seq<char>) -> bool {
    s.len() > 0 && forall|i: int| 0 <= i < s.len() ==> is_digit(#[trigger] s[i])
}

/// Whether `s` is a well-formed decimal integer literal: an optional sign
/// followed by at least one digit.
pub open spec fn is_int_literal(s: Seq<char>) -> bool {
    if s.len() > 0 && (s[0] == '-' || s[0] == '+') {
        all_digits(s.skip(1))
    } else {
        all_digits(s)
    }
}

/// The value of a well-formed decimal integer literal.
pub open spec fn int_literal_val(s: Seq<char>) -> int {
    if s.len() > 0 && s[0] == '-' {
        -digits_val(s.skip(1))
    } else if s.len() > 0 && s[0] == '+' {
        digits_val(s.skip(1))
    } else {
        digits_val(s)
    }
}

/// Appending digits to a digit string never shrinks its value.
proof fn lemma_digits_val_prefix(s: Seq<char>, i: int)
    requires
        all_digits(s),
        0 <= i <= s.len(),
    ensures
        digits_val(s) >= digits_val(s.take(i)),
        digits_val(s.take(i)) >= 0,
    decreases s.len() - i,
{
    if i == s.len() {
        assert(s.take(i) =~= s);
        lemma_digits_val_nonneg(s);
    } else {
        lemma_digits_val_prefix(s, i + 1);
        assert(s.take(i + 1).drop_last() =~= s.take(i));
        assert(s.take(i + 1).last() == s[i]);
        lemma_digits_val_nonneg(s.take(i));
    }
}

/// The value of a digit string is non-negative.
proof fn lemma_digits_val_nonneg(s: Seq<char>)
    requires
        forall|i: int| 0 <= i < s.len() ==> is_digit(#[trigger] s[i]),
    ensures
        digits_val(s) >= 0,
    decreases s.len(),
{
    if s.len() > 0 {
        assert(forall|i: int|
            0 <= i < s.drop_last().len() ==> is_digit(#[trigger] s.drop_last()[i]));
        lemma_digits_val_nonneg(s.drop_last());
    }
}

/// Compares two string slices by their character sequences.
pub fn str_eq(a: &str, b: &str) -> (r: bool)
    ensures
        r == (a@ == b@),
{
    let sa = String::from_str(a);
    let sb = String::from_str(b);
    sa == sb
}

/// Whether `s` is non-empty and consists only of decimal digits.
pub fn is_digits(s: &str) -> (r: bool)
    ensures
        r == all_digits(s@),
{
    let n = s.unicode_len();
    if n == 0 {
        return false;
    }
    let mut i: usize = 0;
    while i < n
        invariant
            0 <= i <= n,
            n == s@.len(),
            forall|j: int| 0 <= j < i ==> is_digit(#[trigger] s@[j]),
        decreases n - i,
    {
        let c = s.get_char(i);
        if !('0' <= c && c <= '9') {
            return false;
        }
        i += 1;
    }
    true
}

/// Parses a decimal integer with optional sign, exactly when `s` is a
/// well-formed literal whose value fits in `i32`.
pub fn parse_i32(s: &str) -> (r: Option<i32>)
    ensures
        r is Some <==> is_int_literal(s@) && i32::MIN <= int_literal_val(s@) <= i32::MAX,
        r matches Some(v) ==> v as int == int_literal_val(s@),
{
    let n = s.unicode_len();
    if n == 0 {
        return None;
    }
    let first = s.get_char(0);
    let neg = first == '-';
    let signed = neg || first == '+';
    let start: usize = if signed { 1 } else { 0 };
    let ghost digits: Seq<char> = if signed { s@.skip(1) } else { s@ };
    if start >= n {
        return None;
    }
    let mut i: usize = start;
    let mut acc: i64 = 0;
    while i < n
        invariant
            start <= i <= n,
            0 < n == s@.len(),
            neg == (s@[0] == '-'),
            signed == (s@[0] == '-' || s@[0] == '+'),
            start == if signed { 1int } else { 0int },
            digits == if signed { s@.skip(1) } else { s@ },
            digits.len() == n - start,
            forall|j: int| 0 <= j < i - start ==> is_digit(#[trigger] digits[j]),
            acc == digits_val(digits.take(i - start)),
            0 <= acc <= 0x8000_0000,
        decreases n - i,
    {
        let c = s.get_char(i);
        assert(digits[i - start] == c);
        if !('0' <= c && c <= '9') {
            assert(!is_digit(digits[i - start]));
            return None;
        }
        let d = (c as u32 - '0' as u32) as i64;
        proof {
            assert(digits.take(i - start + 1).drop_last() =~= digits.take(i - start));
            assert(digits.take(i - start + 1).last() == digits[i - start]);
        }
        if acc > 0x0CCC_CCCC_CCCC_CCCC {
            proof {
                lemma_overflow_stays(digits, i - start);
            }
            return None;
        }
        acc = acc * 10 + d;
        assert(acc == digits_val(digits.take(i - start + 1)));
        if acc > 0x8000_0000 {
            proof {
                lemma_overflow_stays(digits, i - start + 1);
            }
            return None;
        }
        i += 1;
    }
    proof {
        assert(digits.take(n - start) =~= digits);
    }
    if neg {
        Some((-acc) as i32)
    } else {
        if acc > 0x7FFF_FFFF {
            return None;
        }
        Some(acc as i32)
    }
}

/// Once a digit prefix exceeds the `i32` range, the whole digit string does.
proof fn lemma_overflow_stays(digits: Seq<char>, i: int)
    requires
        0 <= i <= digits.len(),
        forall|j: int| 0 <= j < i ==> is_digit(#[trigger] digits[j]),
        digits_val(digits.take(i)) > 0x8000_0000,
    ensures
        !(all_digits(digits) && -0x8000_0000 <= digits_val(digits) <= 0x7FFF_FFFF)
            && !(all_digits(digits) && -0x8000_0000 <= -digits_val(digits) <= 0x7FFF_FFFF),
{
    if all_digits(digits) {
        lemma_digits_val_prefix(digits, i);
    }
}

/// The string slice holding one decimal digit.
fn digit_str(d: u32) -> (r: &'static str)
    requires
        d < 10,
    ensures
        r@ =~= seq![digit_char(d as int)],
{
    proof {
        reveal_strlit("0");
        reveal_strlit("1");
        reveal_strlit("2");
        reveal_strlit("3");
        reveal_strlit("4");
        reveal_strlit("5");
        reveal_strlit("6");
        reveal_strlit("7");
        reveal_strlit("8");
        reveal_strlit("9");
    }
    match d {
        0 => "0",
        1 => "1",
        2 => "2",
        3 => "3",
        4 => "4",
        5 => "5",
        6 => "6",
        7 => "7",
        8 => "8",
        _ => "9",
    }
}

/// Formats a non-negative integer in decimal.
pub fn u32_to_string(n: u32) -> (s: String)
    ensures
        s@ == dec_rep(n as int),
    decreases n,
{
    if n < 10 {
        String::from_str(digit_str(n))
    } else {
        let mut s = u32_to_string(n / 10);
        s.append(digit_str(n % 10));
        proof {
            assert(s@ =~= dec_rep(n as int));
        }
        s
    }
}

/// Formats a signed integer in decimal.
pub fn i32_to_string(v: i32) -> (s: String)
    ensures
        s@ == int_rep(v as int),
{
    if v < 0 {
        proof {
            reveal_strlit("-");
        }
        let mut s = String::from_str("-");
        let m: u32 = (-(v as i64)) as u32;
        let d = u32_to_string(m);
        s.append(d.as_str());
        proof {
            assert(s@ =~= int_rep(v as int));
        }
        s
    } else {
        u32_to_string(v as u32)
    }
}

/// Whether the characters of `hay` starting at `at` spell `needle`.
pub open spec fn matches_at(hay: Seq<char>, needle: Seq<char>, at: int) -> bool {
    0 <= at && at + needle.len() <= hay.len() && hay.subrange(at, at + needle.len()) =~= needle
}

/// Whether `needle` occurs anywhere in `hay`.
pub open spec fn contains_seq(hay: Seq<char>, needle: Seq<char>) -> bool {
    exists|at: int| matches_at(hay, needle, at)
}

/// Substring search: true exactly when `needle` occurs in `hay`.
pub fn contains_str(hay: &str, needle: &str) -> (r: bool)
    ensures
        r == contains_seq(hay@, needle@),
{
    let n = hay.unicode_len();
    let m = needle.unicode_len();
    if m > n {
        assert(forall|at: int| !matches_at(hay@, needle@, at));
        return false;
    }
    let mut at: usize = 0;
    while at <= n - m
        invariant
            0 <= at <= n - m + 1,
            m <= n,
            n == hay@.len(),
            m == needle@.len(),
            forall|k: int| 0 <= k < at ==> !matches_at(hay@, needle@, k),
        decreases n - m + 1 - at,
    {
        let mut j: usize = 0;
        let mut hit = true;
        while j < m
            invariant
                0 <= j <= m,
                at + m <= n,
                n == hay@.len(),
                m == needle@.len(),
                hit == (forall|k: int| 0 <= k < j ==> hay@[at + k] == needle@[k]),
            decreases m - j,
        {
            let hc = hay.get_char(at + j);
            let nc = needle.get_char(j);
            if hc != nc {
                hit = false;
                j = m;
            } else {
                j += 1;
            }
        }
        if hit {
            assert(hay@.subrange(at as int, at + m) =~= needle@);
            assert(matches_at(hay@, needle@, at as int));
            return true;
        }
        assert(!matches_at(hay@, needle@, at as int));
        at += 1;
    }
    assert(forall|k: int| k > n - m ==> !matches_at(hay@, needle@, k));
    false
}


/// The segments of `s` split on `sep`, with empty segments kept: splitting
/// the empty sequence gives one empty segment.
pub open spec fn segs_of(s: Seq<char>, sep: char) -> Seq<Seq<char>>
    decreases s.len(),
{
    if s.len() == 0 {
        seq![Seq::<char>::empty()]
    } else if s.last() == sep {
        segs_of(s.drop_last(), sep).push(Seq::<char>::empty())
    } else {
        let t = segs_of(s.drop_last(), sep);
        t.update(t.len() - 1, t.last().push(s.last()))
    }
}

/// Splitting always yields at least one segment.
pub proof fn lemma_segs_nonempty(s: Seq<char>, sep: char)
    ensures
        segs_of(s, sep).len() >= 1,
    decreases s.len(),
{
    if s.len() > 0 {
        lemma_segs_nonempty(s.drop_last(), sep);
    }
}

/// `s` with every period removed.
pub open spec fn drop_dots(s: Seq<char>) -> Seq<char>
    decreases s.len(),
{
    if s.len() == 0 {
        Seq::<char>::empty()
    } else if s.last() == '.' {
        drop_dots(s.drop_last())
    } else {
        drop_dots(s.drop_last()).push(s.last())
    }
}

/// `ts` with every empty element removed.
pub open spec fn drop_empty(ts: Seq<Seq<char>>) -> Seq<Seq<char>>
    decreases ts.len(),
{
    if ts.len() == 0 {
        Seq::<Seq<char>>::empty()
    } else if ts.last().len() == 0 {
        drop_empty(ts.drop_last())
    } else {
        drop_empty(ts.drop_last()).push(ts.last())
    }
}

/// The whitespace-separated words of `s`, empty words dropped.
pub open spec fn words_of(s: Seq<char>) -> Seq<Seq<char>> {
    drop_empty(segs_of(s, ' '))
}

/// The move tokens of a catalogue text: periods removed, then the
/// whitespace-separated words.
pub open spec fn tokens_of(s: Seq<char>) -> Seq<Seq<char>> {
    words_of(drop_dots(s))
}

/// Over a separator-free stretch, splitting only extends the last segment.
proof fn lemma_segs_run(s: Seq<char>, sep: char, a: int, b: int)
    requires
        0 <= a <= b <= s.len(),
        forall|k: int| a <= k < b ==> s[k] != sep,
    ensures
        segs_of(s.take(b), sep) =~= segs_of(s.take(a), sep).drop_last().push(
            segs_of(s.take(a), sep).last() + s.subrange(a, b),
        ),
    decreases b - a,
{
    lemma_segs_nonempty(s.take(a), sep);
    if a == b {
        assert(s.subrange(a, b) =~= Seq::<char>::empty());
        assert(segs_of(s.take(a), sep).last() + s.subrange(a, a) =~= segs_of(
            s.take(a),
            sep,
        ).last());
        assert(segs_of(s.take(a), sep).drop_last().push(segs_of(s.take(a), sep).last()) =~= segs_of(
            s.take(a),
            sep,
        ));
    } else {
        lemma_segs_run(s, sep, a, b - 1);
        lemma_segs_nonempty(s.take(b - 1), sep);
        assert(s.take(b).drop_last() =~= s.take(b - 1));
        assert(s.take(b).last() == s[b - 1]);
        assert(segs_of(s.take(a), sep).last() + s.subrange(a, b) =~= (segs_of(
            s.take(a),
            sep,
        ).last() + s.subrange(a, b - 1)).push(s[b - 1]));
    }
}

/// Splitting past a separator closes the last segment and opens an empty one.
proof fn lemma_segs_sep(s: Seq<char>, sep: char, i: int)
    requires
        0 <= i < s.len(),
        s[i] == sep,
    ensures
        segs_of(s.take(i + 1), sep) =~= segs_of(s.take(i), sep).push(Seq::<char>::empty()),
{
    assert(s.take(i + 1).drop_last() =~= s.take(i));
    assert(s.take(i + 1).last() == s[i]);
}

/// Splits `s` on the given separator, keeping empty segments.
pub fn split_char(s: &str, sep: char) -> (r: Vec<String>)
    ensures
        r.deep_view() == segs_of(s@, sep),
        r.len() >= 1,
{
    let n = s.unicode_len();
    let mut out: Vec<String> = Vec::new();
    let mut seg_start: usize = 0;
    let mut i: usize = 0;
    proof {
        assert(s@.take(0) =~= Seq::<char>::empty());
        assert(s@.subrange(0, 0) =~= Seq::<char>::empty());
        assert(out.deep_view() =~= Seq::<Seq<char>>::empty());
        assert(segs_of(s@.take(0), sep) =~= out.deep_view().push(s@.subrange(0, 0)));
    }
    while i < n
        invariant
            0 <= seg_start <= i <= n,
            n == s@.len(),
            forall|k: int| seg_start <= k < i ==> s@[k] != sep,
            segs_of(s@.take(i as int), sep) =~= out.deep_view().push(
                s@.subrange(seg_start as int, i as int),
            ),
        decreases n - i,
    {
        let c = s.get_char(i);
        if c == sep {
            let piece = s.substring_char(seg_start, i);
            out.push(String::from_str(piece));
            proof {
                lemma_segs_sep(s@, sep, i as int);
                assert(out.deep_view() =~= segs_of(s@.take(i as int), sep));
                assert(s@.subrange(i + 1, i + 1) =~= Seq::<char>::empty());
                assert(segs_of(s@.take(i + 1), sep) =~= out.deep_view().push(
                    s@.subrange(i + 1, i + 1),
                ));
            }
            seg_start = i + 1;
        } else {
            proof {
                assert(segs_of(s@.take(i as int), sep).last() == s@.subrange(
                    seg_start as int,
                    i as int,
                ));
                assert(segs_of(s@.take(i as int), sep).drop_last() =~= out.deep_view());
                lemma_segs_run(s@, sep, i as int, i + 1);
                assert(segs_of(s@.take(i as int), sep).last() + s@.subrange(i as int, i + 1)
                    =~= s@.subrange(seg_start as int, i + 1));
                assert(segs_of(s@.take(i + 1), sep) =~= out.deep_view().push(
                    s@.subrange(seg_start as int, i + 1),
                ));
            }
        }
        i += 1;
    }
    let piece = s.substring_char(seg_start, n);
    out.push(String::from_str(piece));
    proof {
        assert(s@.take(n as int) =~= s@);
        assert(s@.subrange(seg_start as int, n as int) == piece@);
        assert(out.deep_view() =~= segs_of(s@, sep));
    }
    out
}

/// The `idx`-th segment of `s` split on `sep`, if there are that many.
pub fn nth_segment(s: &str, sep: char, idx: usize) -> (r: Option<String>)
    ensures
        r is Some <==> idx < segs_of(s@, sep).len(),
        r matches Some(v) ==> v@ == segs_of(s@, sep)[idx as int],
{
    let segs = split_char(s, sep);
    if idx < segs.len() {
        let v = String::from_str(segs[idx].as_str());
        assert(v@ == segs.deep_view()[idx as int]);
        Some(v)
    } else {
        None
    }
}

/// Copies `s` with every period removed.
pub fn strip_dots(s: &str) -> (r: String)
    ensures
        r@ == drop_dots(s@),
{
    let n = s.unicode_len();
    let mut out = String::new();
    let mut run_start: usize = 0;
    let mut i: usize = 0;
    while i < n
        invariant
            0 <= run_start <= i <= n,
            n == s@.len(),
            forall|k: int| run_start <= k < i ==> s@[k] != '.',
            out@ + s@.subrange(run_start as int, i as int) =~= drop_dots(s@.take(i as int)),
        decreases n - i,
    {
        let c = s.get_char(i);
        proof {
            assert(s@.take(i + 1).drop_last() =~= s@.take(i as int));
            assert(s@.take(i + 1).last() == s@[i as int]);
        }
        if c == '.' {
            let piece = s.substring_char(run_start, i);
            out.append(piece);
            proof {
                assert(out@ =~= drop_dots(s@.take(i as int)));
                assert(s@.subrange(i + 1, i + 1) =~= Seq::<char>::empty());
                assert(out@ + s@.subrange(i + 1, i + 1) =~= drop_dots(s@.take(i + 1)));
            }
            run_start = i + 1;
        } else {
            proof {
                assert(out@ + s@.subrange(run_start as int, i + 1) =~= drop_dots(s@.take(i + 1)));
            }
        }
        i += 1;
    }
    let piece = s.substring_char(run_start, n);
    out.append(piece);
    proof {
        assert(s@.take(n as int) =~= s@);
        assert(out@ =~= drop_dots(s@));
    }
    out
}

/// Splits `s` into whitespace-separated words, dropping empty words.
pub fn split_words(s: &str) -> (r: Vec<String>)
    ensures
        r.deep_view() == words_of(s@),
{
    let segs = split_char(s, ' ');
    let mut out: Vec<String> = Vec::new();
    let mut i: usize = 0;
    while i < segs.len()
        invariant
            0 <= i <= segs.len(),
            segs.deep_view() == segs_of(s@, ' '),
            out.deep_view() =~= drop_empty(segs.deep_view().take(i as int)),
        decreases segs.len() - i,
    {
        proof {
            assert(segs.deep_view().take(i + 1).drop_last() =~= segs.deep_view().take(i as int));
            assert(segs.deep_view().take(i + 1).last() == segs.deep_view()[i as int]);
        }
        if !segs[i].as_str().is_empty() {
            let w = String::from_str(segs[i].as_str());
            out.push(w);
            proof {
                assert(out.deep_view() =~= drop_empty(segs.deep_view().take(i + 1)));
            }
        }
        i += 1;
    }
    proof {
        assert(segs.deep_view().take(segs.deep_view().len() as int) =~= segs.deep_view());
    }
    out
}

/// Splits a catalogue move text into tokens: periods removed, then the
/// whitespace-separated words.
pub fn tokenize(s: &str) -> (r: Vec<String>)
    ensures
        r.deep_view() == tokens_of(s@),
{
    let cleaned = strip_dots(s);
    split_words(cleaned.as_str())
}

} // verus!
