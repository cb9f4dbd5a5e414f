//! Small text helpers used by configuration, monitor naming and command
//! parsing, each stated over the characters of the string.
use vstd::prelude::*;

verus! {

/// Characters of `s` after `str::to_lowercase` (Unicode case mapping).
pub uninterp spec fn lowercase(s: Seq<char>) -> Seq<char>;

/// Characters of `s` after `str::to_uppercase` (Unicode case mapping).
pub uninterp spec fn uppercase(s: Seq<char>) -> Seq<char>;

/// Whether `c` has the Unicode White_Space property (`char::is_whitespace`).
pub uninterp spec fn white_space(c: char) -> bool;

/// `str::to_lowercase`: the Unicode lowercase of `s`. The result is named,
/// not described: it depends on `s` alone.
#[verifier::external_body]
pub(crate) fn to_lowercase(s: &str) -> (r: String)
    ensures
        r@ == lowercase(s@),
{
    s.to_lowercase()
}

/// `str::to_uppercase`: the Unicode uppercase of `s`, named as for `to_lowercase`.
#[verifier::external_body]
pub(crate) fn to_uppercase(s: &str) -> (r: String)
    ensures
        r@ == uppercase(s@),
{
    s.to_uppercase()
}

/// `char::is_whitespace`, named: whether `c` is Unicode white space.
#[verifier::external_body]
pub(crate) fn is_whitespace(c: char) -> (r: bool)
    ensures
        r == white_space(c),
{
    c.is_whitespace()
}

/// `String::push`: append one character.
#[verifier::external_body]
pub(crate) fn push_char(s: &mut String, c: char)
    ensures
        final(s)@ == old(s)@.push(c),
{
    s.push(c);
}

/// `s` without its leading white space.
pub open spec fn trim_start(s: Seq<char>) -> Seq<char>
    decreases s.len(),
{
    if s.len() > 0 && white_space(s[0]) {
        trim_start(s.drop_first())
    } else {
        s
    }
}

/// `s` without its trailing white space.
pub open spec fn trim_end(s: Seq<char>) -> Seq<char>
    decreases s.len(),
{
    if s.len() > 0 && white_space(s.last()) {
        trim_end(s.drop_last())
    } else {
        s
    }
}

/// `s` without leading and trailing white space (`str::trim`).
pub open spec fn trim(s: Seq<char>) -> Seq<char> {
    trim_end(trim_start(s))
}

/// `s` with every leading copy of `pat` removed (`str::trim_start_matches`).
pub open spec fn strip_all_prefix(s: Seq<char>, pat: Seq<char>) -> Seq<char>
    decreases s.len(),
{
    if pat.len() > 0 && s.len() >= pat.len() && s.subrange(0, pat.len() as int) == pat {
        strip_all_prefix(s.skip(pat.len() as int), pat)
    } else {
        s
    }
}

proof fn lemma_trim_start_suffix(s: Seq<char>, i: int)
    requires
        0 <= i <= s.len(),
        forall|k: int| 0 <= k < i ==> white_space(s[k]),
    ensures
        trim_start(s) == trim_start(s.skip(i)),
    decreases i,
{
    if i > 0 {
        assert(s.skip(1) =~= s.drop_first());
        lemma_trim_start_suffix(s.drop_first(), i - 1);
        assert(s.drop_first().skip(i - 1) =~= s.skip(i));
    } else {
        assert(s.skip(0) =~= s);
    }
}

proof fn lemma_trim_end_prefix(s: Seq<char>, j: int)
    requires
        0 <= j <= s.len(),
        forall|k: int| j <= k < s.len() ==> white_space(s[k]),
    ensures
        trim_end(s) == trim_end(s.take(j)),
    decreases s.len() - j,
{
    if j < s.len() {
        assert(s.take(s.len() - 1) =~= s.drop_last());
        lemma_trim_end_prefix(s.drop_last(), j);
        assert(s.drop_last().take(j) =~= s.take(j));
    } else {
        assert(s.take(j) =~= s);
    }
}

/// `str::trim`: the slice of `s` without leading and trailing white space.
pub fn trim_str(s: &str) -> (r: &str)
    ensures
        r@ == trim(s@),
{
    let n = s.unicode_len();
    let mut a: usize = 0;
    while a < n && is_whitespace(s.get_char(a))
        invariant
            n == s@.len(),
            a <= n,
            forall|k: int| 0 <= k < a ==> white_space(s@[k]),
        decreases n - a,
    {
        a = a + 1;
    }
    proof {
        lemma_trim_start_suffix(s@, a as int);
    }
    let ghost rest = s@.skip(a as int);
    assert(a == n || !white_space(rest[0]));
    assert(trim_start(s@) == rest) by {
        if rest.len() > 0 {
            assert(!white_space(rest[0]));
        }
    }
    let mut b: usize = n;
    while b > a && is_whitespace(s.get_char(b - 1))
        invariant
            n == s@.len(),
            a <= b <= n,
            rest == s@.skip(a as int),
            forall|k: int| b <= k < n ==> white_space(s@[k]),
        decreases b - a,
    {
        b = b - 1;
    }
    proof {
        lemma_trim_end_prefix(rest, (b - a) as int);
        let kept = rest.take((b - a) as int);
        assert(kept =~= s@.subrange(a as int, b as int));
        if kept.len() > 0 {
            assert(kept.last() == s@[b - 1]);
        }
    }
    s.substring_char(a, b)
}

/// `str::trim_start_matches` with a string pattern: remove every leading copy of `pat`.
pub fn strip_all_prefix_str<'a>(s: &'a str, pat: &str) -> (r: &'a str)
    ensures
        r@ == strip_all_prefix(s@, pat@),
{
    let n = s.unicode_len();
    let m = pat.unicode_len();
    if m == 0 {
        return s;
    }
    let mut a: usize = 0;
    assert(s@.skip(0) =~= s@);
    loop
        invariant
            n == s@.len(),
            m == pat@.len(),
            m > 0,
            a <= n,
            strip_all_prefix(s@, pat@) == strip_all_prefix(s@.skip(a as int), pat@),
        decreases n - a,
    {
        let ghost rest = s@.skip(a as int);
        if n - a < m {
            return s.substring_char(a, n);
        }
        let mut k: usize = 0;
        let mut same = true;
        while k < m
            invariant
                n == s@.len(),
                m == pat@.len(),
                a + m <= n,
                k <= m,
                same == (forall|i: int| 0 <= i < k ==> s@[a + i] == pat@[i]),
            decreases m - k,
        {
            if s.get_char(a + k) != pat.get_char(k) {
                same = false;
            }
            k = k + 1;
        }
        if same {
            assert(rest.subrange(0, m as int) =~= pat@);
            assert(rest.skip(m as int) =~= s@.skip(a + m));
        } else {
            assert(rest.subrange(0, m as int) != pat@) by {
                let i = choose|i: int| 0 <= i < m && s@[a + i] != pat@[i];
                assert(rest.subrange(0, m as int)[i] == s@[a + i]);
            }
            assert(s@.subrange(a as int, n as int) =~= rest);
            return s.substring_char(a, n);
        }
        a = a + m;
    }
}

/// Whether `c` is an ASCII decimal digit.
pub open spec fn is_digit(c: char) -> bool {
    '0' <= c <= '9'
}

/// Decimal digits of `n`, most significant first, without leading zeros
/// (a single `'0'` for zero).
pub open spec fn decimal(n: nat) -> Seq<char>
    decreases n,
{
    if n < 10 {
        seq![(n + 48) as char]
    } else {
        decimal(n / 10).push(((n % 10) + 48) as char)
    }
}

/// Append the decimal digits of `n` (as `u64`'s `Display` writes them).
pub fn push_decimal(s: &mut String, n: u64)
    ensures
        final(s)@ == old(s)@ + decimal(n as nat),
    decreases n,
{
    if n >= 10 {
        push_decimal(s, n / 10);
    }
    let d = n % 10;
    let c = if d == 0 { '0' } else if d == 1 { '1' } else if d == 2 { '2' } else if d == 3 { '3' }
        else if d == 4 { '4' } else if d == 5 { '5' } else if d == 6 { '6' } else if d == 7 { '7' }
        else if d == 8 { '8' } else { '9' };
    assert(c == ((n % 10) + 48) as char);
    push_char(s, c);
    proof {
        if n >= 10 {
            assert(decimal(n as nat) == decimal((n / 10) as nat).push(((n % 10) + 48) as char));
        }
    }
    assert(final(s)@ =~= old(s)@ + decimal(n as nat)) by {
        if n < 10 {
            assert(decimal(n as nat) =~= seq![(n + 48) as char]);
        }
    };
}

/// Append the decimal form of a signed value (a `'-'` before negatives).
pub open spec fn signed_decimal(v: int) -> Seq<char> {
    if v < 0 {
        seq!['-'] + decimal((-v) as nat)
    } else {
        decimal(v as nat)
    }
}

/// Append `v` as `i32`'s `Display` writes it.
pub fn push_i32(s: &mut String, v: i32)
    ensures
        final(s)@ == old(s)@ + signed_decimal(v as int),
{
    if v < 0 {
        push_char(s, '-');
        let m: u64 = (0i64 - v as i64) as u64;
        push_decimal(s, m);
        assert(final(s)@ =~= old(s)@ + signed_decimal(v as int));
    } else {
        push_decimal(s, v as u64);
    }
}

/// Value of the digit sequence `d` (most significant first).
pub open spec fn digits_value(d: Seq<char>) -> nat
    decreases d.len(),
{
    if d.len() == 0 {
        0
    } else {
        digits_value(d.drop_last()) * 10 + ((d.last() as nat) - 48) as nat
    }
}

/// Whether every character of `d` is an ASCII digit.
pub open spec fn all_digits(d: Seq<char>) -> bool {
    forall|k: int| 0 <= k < d.len() ==> is_digit(#[trigger] d[k])
}

/// Length of an optional leading sign.
pub open spec fn sign_len(s: Seq<char>) -> int {
    if s.len() > 0 && (s[0] == '-' || s[0] == '+') { 1 } else { 0 }
}

/// `i32`'s `FromStr`: an optional `+` or `-`, then one or more ASCII digits,
/// whose value must fit an `i32`.
pub open spec fn parse_i32(s: Seq<char>) -> Option<i32> {
    let d = s.skip(sign_len(s));
    let v: int = if s.len() > 0 && s[0] == '-' { -(digits_value(d) as int) } else { digits_value(d) as int };
    if d.len() == 0 || !all_digits(d) || v < i32::MIN || v > i32::MAX {
        None
    } else {
        Some(v as i32)
    }
}

proof fn lemma_digits_value_step(d: Seq<char>, i: int)
    requires
        0 <= i < d.len(),
    ensures
        digits_value(d.take(i + 1)) == digits_value(d.take(i)) * 10 + ((d[i] as nat) - 48) as nat,
{
    assert(d.take(i + 1).drop_last() =~= d.take(i));
}

/// Parse a whole string as an `i32` (`str::parse::<i32>`).
pub fn parse_i32_str(s: &str) -> (r: Option<i32>)
    ensures
        r == parse_i32(s@),
{
    let n = s.unicode_len();
    if n == 0 {
        return None;
    }
    let c0 = s.get_char(0);
    let neg = c0 == '-';
    let start: usize = if c0 == '-' || c0 == '+' { 1 } else { 0 };
    let ghost d = s@.skip(start as int);
    if n == start {
        return None;
    }
    // Accumulate the magnitude; stop as soon as it leaves the i32 range.
    let limit: i64 = if neg { 2147483648 } else { 2147483647 };
    let mut acc: i64 = 0;
    let mut i: usize = start;
    let mut in_range = true;
    while i < n
        invariant
            n == s@.len(),
            start <= i <= n,
            d == s@.skip(start as int),
            limit == (if neg { 2147483648i64 } else { 2147483647i64 }),
            neg == (s@.len() > 0 && s@[0] == '-'),
            start as int == sign_len(s@),
            forall|k: int| 0 <= k < i - start ==> is_digit(#[trigger] d[k]),
            in_range ==> acc == digits_value(d.take(i - start)) && 0 <= acc <= limit,
            !in_range ==> digits_value(d.take(i - start)) > limit,
        decreases n - i,
    {
        let c = s.get_char(i);
        if !('0' <= c && c <= '9') {
            assert(d[i - start] == s@[i as int]);
            assert(!is_digit(d[i - start]));
            return None;
        }
        proof {
            lemma_digits_value_step(d, i - start);
        }
        if in_range {
            let next = acc * 10 + (c as u32 - 48) as i64;
            if next > limit {
                in_range = false;
            } else {
                acc = next;
            }
        } else {
            assert(digits_value(d.take(i - start + 1)) >= digits_value(d.take(i - start)) * 10);
        }
        i = i + 1;
    }
    assert(d.take(n - start) =~= d);
    if !in_range {
        return None;
    }
    if neg {
        Some((0 - acc) as i32)
    } else {
        Some(acc as i32)
    }
}

} // verus!

verus! {

/// Whether two strings hold the same characters.
pub fn str_eq(a: &str, b: &str) -> (r: bool)
    ensures
        r == (a@ == b@),
{
    let n = a.unicode_len();
    if n != b.unicode_len() {
        return false;
    }
    let mut i: usize = 0;
    while i < n
        invariant
            n == a@.len(),
            n == b@.len(),
            i <= n,
            forall|k: int| 0 <= k < i ==> a@[k] == b@[k],
        decreases n - i,
    {
        if a.get_char(i) != b.get_char(i) {
            return false;
        }
        i = i + 1;
    }
    assert(a@ =~= b@);
    true
}

/// Whether `s` starts with the character `c`.
pub fn starts_with_char(s: &str, c: char) -> (r: bool)
    ensures
        r == (s@.len() > 0 && s@[0] == c),
{
    s.unicode_len() > 0 && s.get_char(0) == c
}

} // verus!

verus! {

/// A line without the line feed: one carriage return before the feed is dropped too.
pub open spec fn line_body(piece: Seq<char>, had_newline: bool) -> Seq<char> {
    if had_newline && piece.len() > 0 && piece.last() == '\r' {
        piece.drop_last()
    } else {
        piece
    }
}

/// Index of the first line feed at or after `i`, or the length if none.
pub open spec fn next_newline(s: Seq<char>, i: int) -> int
    decreases s.len() - i,
{
    if i < 0 || i >= s.len() {
        s.len() as int
    } else if s[i] == '\n' {
        i
    } else {
        next_newline(s, i + 1)
    }
}

/// The lines of `s` from position `i` on, as `str::lines` yields them:
/// split after each line feed, a final piece without one kept when not
/// empty, and `\r\n` endings removed whole.
pub open spec fn lines_from(s: Seq<char>, i: int) -> Seq<Seq<char>>
    decreases s.len() - i,
{
    if i < 0 || i >= s.len() {
        Seq::empty()
    } else {
        let j = next_newline(s, i);
        if j >= s.len() {
            seq![s.subrange(i, s.len() as int)]
        } else {
            proof {
                lemma_next_newline_bounds(s, i);
            }
            seq![line_body(s.subrange(i, j), true)] + lines_from(s, j + 1)
        }
    }
}

/// The lines of `s` (`str::lines`).
pub open spec fn lines(s: Seq<char>) -> Seq<Seq<char>> {
    lines_from(s, 0)
}

/// Where the next line feed lies, and that none comes before it.
pub proof fn lemma_next_newline_bounds(s: Seq<char>, i: int)
    requires
        0 <= i <= s.len(),
    ensures
        i <= next_newline(s, i) <= s.len(),
        next_newline(s, i) < s.len() ==> s[next_newline(s, i)] == '\n',
        forall|k: int| i <= k < next_newline(s, i) ==> s[k] != '\n',
    decreases s.len() - i,
{
    if i < s.len() && s[i] != '\n' {
        lemma_next_newline_bounds(s, i + 1);
    }
}

/// Split `s` into lines (`str::lines`).
pub fn split_lines(s: &str) -> (r: Vec<String>)
    ensures
        r@.len() == lines(s@).len(),
        forall|k: int| 0 <= k < r@.len() ==> #[trigger] r@[k]@ == lines(s@)[k],
{
    let n = s.unicode_len();
    let mut out: Vec<String> = Vec::new();
    let mut i: usize = 0;
    while i < n
        invariant
            n == s@.len(),
            i <= n,
            out@.len() + lines_from(s@, i as int).len() == lines(s@).len(),
            forall|k: int| 0 <= k < out@.len() ==> #[trigger] out@[k]@ == lines(s@)[k],
            forall|k: int| 0 <= k < lines_from(s@, i as int).len() ==> lines_from(s@, i as int)[k] == lines(s@)[out@.len() + k],
        decreases n - i,
    {
        let mut j: usize = i;
        while j < n && s.get_char(j) != '\n'
            invariant
                n == s@.len(),
                i <= j <= n,
                forall|k: int| i <= k < j ==> s@[k] != '\n',
            decreases n - j,
        {
            j = j + 1;
        }
        proof {
            lemma_next_newline_bounds(s@, i as int);
            assert(next_newline(s@, i as int) == j) by {
                if next_newline(s@, i as int) < j {
                    assert(s@[next_newline(s@, i as int)] == '\n');
                }
            }
        }
        let ghost rest = lines_from(s@, i as int);
        let ghost old_len = out@.len();
        assert(rest.len() > 0);
        assert(rest[0] == lines(s@)[old_len as int]);
        if j >= n {
            let piece = s.substring_char(i, n);
            out.push(piece.to_owned());
            proof {
                assert(rest =~= seq![s@.subrange(i as int, n as int)]);
                assert(lines_from(s@, n as int) =~= Seq::<Seq<char>>::empty());
                assert(out@[old_len as int]@ == lines(s@)[old_len as int]);
            }
            i = n;
        } else {
            let end = if j > i && s.get_char(j - 1) == '\r' { j - 1 } else { j };
            let piece = s.substring_char(i, end);
            out.push(piece.to_owned());
            proof {
                let p = s@.subrange(i as int, j as int);
                if j > i && s@[j - 1] == '\r' {
                    assert(p.drop_last() =~= s@.subrange(i as int, end as int));
                } else {
                    assert(p =~= s@.subrange(i as int, end as int));
                }
                assert(rest == seq![line_body(p, true)] + lines_from(s@, j + 1));
                assert(rest[0] == line_body(p, true));
                assert(out@[old_len as int]@ == lines(s@)[old_len as int]);
                assert forall|k: int| 0 <= k < lines_from(s@, j + 1).len() implies #[trigger] lines_from(s@, j + 1)[k] == lines(s@)[out@.len() + k] by {
                    assert(lines_from(s@, j + 1)[k] == rest[k + 1]);
                }
            }
            i = j + 1;
        }
    }
    proof {
        assert(lines_from(s@, i as int).len() == 0);
    }
    out
}

/// `parts` joined with `sep` between consecutive parts.
pub open spec fn join(parts: Seq<Seq<char>>, sep: Seq<char>) -> Seq<char>
    decreases parts.len(),
{
    if parts.len() == 0 {
        Seq::empty()
    } else if parts.len() == 1 {
        parts[0]
    } else {
        join(parts.drop_last(), sep) + sep + parts.last()
    }
}

/// Join the strings `parts[from..to]` with `sep` (`[T]::join`).
pub fn join_strings(parts: &Vec<String>, from: usize, to: usize, sep: &str) -> (r: String)
    requires
        from <= to <= parts@.len(),
    ensures
        r@ == join(parts@.subrange(from as int, to as int).map_values(|p: String| p@), sep@),
{
    let mut out = String::new();
    let mut i: usize = from;
    while i < to
        invariant
            from <= i <= to,
            to <= parts@.len(),
            out@ == join(parts@.subrange(from as int, i as int).map_values(|p: String| p@), sep@),
        decreases to - i,
    {
        let ghost before = parts@.subrange(from as int, i as int).map_values(|p: String| p@);
        let ghost after = parts@.subrange(from as int, i + 1).map_values(|p: String| p@);
        assert(after.drop_last() =~= before);
        if i > from {
            out.append(sep);
        } else {
            assert(before.len() == 0);
            assert(out@ =~= Seq::<char>::empty());
        }
        out.append(parts[i].as_str());
        i = i + 1;
        assert(out@ =~= join(after, sep@));
    }
    out
}

} // verus!

verus! {

/// Index of the first `c` in `s` at or after `i`, or the length if none.
pub open spec fn next_char(s: Seq<char>, c: char, i: int) -> int
    decreases s.len() - i,
{
    if i < 0 || i >= s.len() {
        s.len() as int
    } else if s[i] == c {
        i
    } else {
        next_char(s, c, i + 1)
    }
}

/// Where the next `c` lies, and that none comes before it.
pub proof fn lemma_next_char_bounds(s: Seq<char>, c: char, i: int)
    requires
        0 <= i <= s.len(),
    ensures
        i <= next_char(s, c, i) <= s.len(),
        next_char(s, c, i) < s.len() ==> s[next_char(s, c, i)] == c,
        forall|k: int| i <= k < next_char(s, c, i) ==> s[k] != c,
    decreases s.len() - i,
{
    if i < s.len() && s[i] != c {
        lemma_next_char_bounds(s, c, i + 1);
    }
}

/// Index of the first `c` in `s` at or after `from` (the length if none).
pub fn find_char(s: &str, c: char, from: usize) -> (r: usize)
    requires
        from <= s@.len(),
    ensures
        r == next_char(s@, c, from as int),
{
    let n = s.unicode_len();
    let mut j: usize = from;
    while j < n && s.get_char(j) != c
        invariant
            n == s@.len(),
            from <= j <= n,
            forall|k: int| from <= k < j ==> s@[k] != c,
        decreases n - j,
    {
        j = j + 1;
    }
    proof {
        lemma_next_char_bounds(s@, c, from as int);
        let t = next_char(s@, c, from as int);
        if t < j {
            assert(s@[t] == c);
        }
        if t > j {
            assert(s@[j as int] != c);
        }
    }
    j
}

/// Whether `needle` occurs in `hay` (`str::contains`; an empty needle always does).
pub open spec fn contains_seq(hay: Seq<char>, needle: Seq<char>) -> bool {
    exists|i: int| 0 <= i && i + needle.len() <= hay.len() && #[trigger] hay.subrange(i, i + needle.len()) == needle
}

/// Whether `needle` occurs at position `i` of `hay`.
fn occurs_at(hay: &str, needle: &str, i: usize) -> (r: bool)
    requires
        i + needle@.len() <= hay@.len(),
    ensures
        r == (hay@.subrange(i as int, i + needle@.len()) == needle@),
{
    let n = hay.unicode_len();
    let m = needle.unicode_len();
    let mut k: usize = 0;
    while k < m
        invariant
            m == needle@.len(),
            n == hay@.len(),
            i + m <= n,
            k <= m,
            forall|t: int| 0 <= t < k ==> hay@[i + t] == needle@[t],
        decreases m - k,
    {
        if hay.get_char(i + k) != needle.get_char(k) {
            assert(hay@.subrange(i as int, i + m)[k as int] != needle@[k as int]);
            return false;
        }
        k = k + 1;
    }
    assert(hay@.subrange(i as int, i + m) =~= needle@);
    true
}

/// `str::contains` with a string pattern.
pub fn str_contains(hay: &str, needle: &str) -> (r: bool)
    ensures
        r == contains_seq(hay@, needle@),
{
    let n = hay.unicode_len();
    let m = needle.unicode_len();
    if m > n {
        return false;
    }
    if m == 0 {
        assert(hay@.subrange(0int, 0int + needle@.len()) =~= needle@);
        return true;
    }
    let mut i: usize = 0;
    while i <= n - m
        invariant
            n == hay@.len(),
            m == needle@.len(),
            1 <= m <= n,
            i <= n - m + 1,
            forall|t: int| 0 <= t < i ==> #[trigger] hay@.subrange(t, t + m) != needle@,
        decreases n - m + 1 - i,
    {
        if occurs_at(hay, needle, i) {
            return true;
        }
        i = i + 1;
    }
    assert forall|t: int| 0 <= t && t + m <= n implies #[trigger] hay@.subrange(t, t + m) != needle@ by {
        assert(t < i);
    }
    false
}

/// The characters of each string.
pub open spec fn views(v: Seq<String>) -> Seq<Seq<char>> {
    v.map_values(|a: String| a@)
}

} // verus!
