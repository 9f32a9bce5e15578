//! Character and string utilities shared by the rest of the library:
//! whitespace trimming and substring search, each specified over the
//! `Seq<char>` view of a string.
use vstd::prelude::*;

verus! {

/// The characters stripped by whitespace trimming: the Unicode
/// `White_Space` set.
pub open spec fn is_space_char(c: char) -> bool {
    let u = c as u32;
    (9 <= u && u <= 13) || u == 32 || u == 0x85 || u == 0xA0 || u == 0x1680 || (0x2000 <= u
        && u <= 0x200A) || u == 0x2028 || u == 0x2029 || u == 0x202F || u == 0x205F || u == 0x3000
}

/// `s` without its leading whitespace.
pub open spec fn trim_start(s: Seq<char>) -> Seq<char>
    decreases s.len(),
{
    if s.len() > 0 && is_space_char(s[0]) {
        trim_start(s.drop_first())
    } else {
        s
    }
}

/// `s` without its trailing whitespace.
pub open spec fn trim_end(s: Seq<char>) -> Seq<char>
    decreases s.len(),
{
    if s.len() > 0 && is_space_char(s[s.len() - 1]) {
        trim_end(s.drop_last())
    } else {
        s
    }
}

/// `s` without leading and trailing whitespace.
pub open spec fn trimmed(s: Seq<char>) -> Seq<char> {
    trim_end(trim_start(s))
}

/// Whitespace test on a single character.
pub fn is_space(c: char) -> (r: bool)
    ensures
        r == is_space_char(c),
{
    let u = c as u32;
    (9 <= u && u <= 13) || u == 32 || u == 0x85 || u == 0xA0 || u == 0x1680 || (0x2000 <= u
        && u <= 0x200A) || u == 0x2028 || u == 0x2029 || u == 0x202F || u == 0x205F || u == 0x3000
}

/// A sequence whose first `i` characters are whitespace and whose
/// character at `i`, if any, is not, trims at the front exactly to its
/// suffix from `i`.
proof fn lemma_trim_start_at(s: Seq<char>, i: int)
    requires
        0 <= i <= s.len(),
        forall|k: int| 0 <= k < i ==> is_space_char(s[k]),
        i == s.len() || !is_space_char(s[i]),
    ensures
        trim_start(s) == s.subrange(i, s.len() as int),
    decreases i,
{
    if i == 0 {
        assert(s.subrange(0, s.len() as int) =~= s);
    } else {
        assert(is_space_char(s[0]));
        lemma_trim_start_at(s.drop_first(), i - 1);
        assert(s.drop_first().subrange(i - 1, s.drop_first().len() as int) =~= s.subrange(
            i,
            s.len() as int,
        ));
    }
}

/// A sequence whose characters from `j` on are whitespace and whose
/// character before `j`, if any, is not, trims at the back exactly to its
/// prefix up to `j`.
proof fn lemma_trim_end_at(s: Seq<char>, j: int)
    requires
        0 <= j <= s.len(),
        forall|k: int| j <= k < s.len() ==> is_space_char(s[k]),
        j == 0 || !is_space_char(s[j - 1]),
    ensures
        trim_end(s) == s.subrange(0, j),
    decreases s.len() - j,
{
    if j == s.len() {
        assert(s.subrange(0, s.len() as int) =~= s);
    } else {
        assert(is_space_char(s[s.len() - 1]));
        lemma_trim_end_at(s.drop_last(), j);
        assert(s.drop_last().subrange(0, j) =~= s.subrange(0, j));
    }
}

/// Whitespace trimming at both ends.
pub fn trim(s: &str) -> (r: String)
    ensures
        r@ == trimmed(s@),
{
    let n = s.unicode_len();
    let mut i: usize = 0;
    while i < n && is_space(s.get_char(i))
        invariant
            0 <= i <= n,
            n == s@.len(),
            forall|k: int| 0 <= k < i ==> is_space_char(s@[k]),
        decreases n - i,
    {
        i = i + 1;
    }
    let mut j: usize = n;
    while j > i && is_space(s.get_char(j - 1))
        invariant
            i <= j <= n,
            n == s@.len(),
            forall|k: int| j <= k < n ==> is_space_char(s@[k]),
        decreases j,
    {
        j = j - 1;
    }
    proof {
        lemma_trim_start_at(s@, i as int);
        let t = s@.subrange(i as int, s@.len() as int);
        assert(forall|k: int|
            j - i <= k < t.len() ==> is_space_char(#[trigger] t[k]) == is_space_char(
                s@[k + i],
            ));
        lemma_trim_end_at(t, j - i);
        assert(t.subrange(0, j - i) =~= s@.subrange(i as int, j as int));
    }
    let cut = s.substring_char(i, j);
    cut.to_owned()
}

/// `trim_start` leaves no leading whitespace.
proof fn lemma_trim_start_no_lead(s: Seq<char>)
    ensures
        trim_start(s).len() > 0 ==> !is_space_char(trim_start(s)[0]),
    decreases s.len(),
{
    if s.len() > 0 && is_space_char(s[0]) {
        lemma_trim_start_no_lead(s.drop_first());
    }
}

/// `trim_end` leaves no trailing whitespace.
proof fn lemma_trim_end_no_trail(s: Seq<char>)
    ensures
        trim_end(s).len() > 0 ==> !is_space_char(trim_end(s)[trim_end(s).len() - 1]),
    decreases s.len(),
{
    if s.len() > 0 && is_space_char(s[s.len() - 1]) {
        lemma_trim_end_no_trail(s.drop_last());
    }
}

/// `trim_end` returns a prefix of its input.
proof fn lemma_trim_end_prefix(s: Seq<char>)
    ensures
        trim_end(s).len() <= s.len(),
        forall|k: int| 0 <= k < trim_end(s).len() ==> trim_end(s)[k] == s[k],
    decreases s.len(),
{
    if s.len() > 0 && is_space_char(s[s.len() - 1]) {
        lemma_trim_end_prefix(s.drop_last());
        assert(forall|k: int|
            0 <= k < s.drop_last().len() ==> s.drop_last()[k] == s[k]);
    }
}

/// Trimming is idempotent: a trimmed sequence trims to itself.
pub proof fn lemma_trimmed_idempotent(s: Seq<char>)
    ensures
        trimmed(trimmed(s)) == trimmed(s),
{
    let t1 = trim_start(s);
    let t = trim_end(t1);
    lemma_trim_start_no_lead(s);
    lemma_trim_end_no_trail(t1);
    lemma_trim_end_prefix(t1);
    if t.len() > 0 {
        assert(t[0] == t1[0]);
        assert(!is_space_char(t[0]));
        assert(trim_start(t) == t);
        assert(trim_end(t) == t);
    } else {
        assert(trim_start(t) == t);
        assert(trim_end(t) == t);
    }
}

/// The UTF-8 byte length of a string.
pub fn utf8_len(s: &str) -> (r: usize)
    ensures
        r == crate::byte_len(s@),
{
    let b = s.as_bytes();
    b.len()
}

/// `needle` occurs in `hay` starting at position `i`.
pub open spec fn matches_at(hay: Seq<char>, needle: Seq<char>, i: int) -> bool {
    0 <= i && i + needle.len() <= hay.len() && hay.subrange(i, i + needle.len()) == needle
}

/// `needle` is a contiguous, character-exact substring of `hay`.
pub open spec fn is_substring(needle: Seq<char>, hay: Seq<char>) -> bool {
    exists|i: int| matches_at(hay, needle, i)
}

/// Substring search; no normalization of any kind is applied.
pub fn contains_str(hay: &str, needle: &str) -> (r: bool)
    ensures
        r == is_substring(needle@, hay@),
{
    let n = hay.unicode_len();
    let m = needle.unicode_len();
    if m > n {
        assert(forall|i: int| !matches_at(hay@, needle@, i));
        return false;
    }
    let mut i: usize = 0;
    loop
        invariant
            0 <= i <= n - m,
            m <= n,
            n == hay@.len(),
            m == needle@.len(),
            forall|q: int| 0 <= q < i ==> !matches_at(hay@, needle@, q),
        decreases n - m - i,
    {
        let mut j: usize = 0;
        while j < m && hay.get_char(i + j) == needle.get_char(j)
            invariant
                0 <= j <= m,
                i + m <= n,
                n == hay@.len(),
                m == needle@.len(),
                forall|k: int| 0 <= k < j ==> hay@[i + k] == needle@[k],
            decreases m - j,
        {
            j = j + 1;
        }
        if j == m {
            assert(hay@.subrange(i as int, i + m) =~= needle@);
            assert(matches_at(hay@, needle@, i as int));
            return true;
        }
        assert(hay@.subrange(i as int, i + m)[j as int] == hay@[i + j]);
        assert(!matches_at(hay@, needle@, i as int));
        if i == n - m {
            assert(forall|q: int| q > n - m ==> !matches_at(hay@, needle@, q));
            return false;
        }
        i = i + 1;
    }
}

/// `p` is a prefix of `s`.
pub open spec fn is_prefix(p: Seq<char>, s: Seq<char>) -> bool {
    p.len() <= s.len() && s.subrange(0, p.len() as int) == p
}

/// Prefix test.
pub fn starts_with_str(s: &str, p: &str) -> (r: bool)
    ensures
        r == is_prefix(p@, s@),
{
    let n = s.unicode_len();
    let m = p.unicode_len();
    if m > n {
        return false;
    }
    let mut j: usize = 0;
    while j < m && s.get_char(j) == p.get_char(j)
        invariant
            0 <= j <= m <= n,
            n == s@.len(),
            m == p@.len(),
            forall|k: int| 0 <= k < j ==> s@[k] == p@[k],
        decreases m - j,
    {
        j = j + 1;
    }
    if j == m {
        assert(s@.subrange(0, m as int) =~= p@);
        true
    } else {
        assert(s@.subrange(0, m as int)[j as int] == s@[j as int]);
        false
    }
}

/// ASCII lower-casing of one character; all others are left alone.
pub open spec fn lower_char(c: char) -> char {
    if 65 <= c as u32 <= 90 {
        ((c as u32 + 32) as u8) as char
    } else {
        c
    }
}

/// ASCII lower-casing of a character sequence.
pub open spec fn lower(s: Seq<char>) -> Seq<char> {
    s.map_values(|c: char| lower_char(c))
}

/// ASCII lower-casing of one character.
pub fn to_lower(c: char) -> (r: char)
    ensures
        r == lower_char(c),
{
    let u = c as u32;
    if 65 <= u && u <= 90 {
        ((u + 32) as u8) as char
    } else {
        c
    }
}

/// Case-insensitive match of the region `[start, end)` of `s` against the
/// lower-case keyword `kw`.
pub fn region_eq_lower(s: &str, start: usize, end: usize, kw: &str) -> (r: bool)
    requires
        start <= end <= s@.len(),
        lower(kw@) == kw@,
    ensures
        r == (lower(s@.subrange(start as int, end as int)) == kw@),
{
    let m = kw.unicode_len();
    if end - start != m {
        assert(lower(s@.subrange(start as int, end as int)).len() == end - start);
        return false;
    }
    let mut j: usize = 0;
    while j < m && to_lower(s.get_char(start + j)) == kw.get_char(j)
        invariant
            0 <= j <= m,
            start + m == end <= s@.len(),
            m == kw@.len(),
            forall|k: int| 0 <= k < j ==> lower_char(s@[start + k]) == kw@[k],
        decreases m - j,
    {
        j = j + 1;
    }
    if j == m {
        assert(lower(s@.subrange(start as int, end as int)) =~= kw@);
        true
    } else {
        assert(lower(s@.subrange(start as int, end as int))[j as int] == lower_char(
            s@[start + j],
        ));
        assert(lower(kw@)[j as int] == lower_char(kw@[j as int]));
        false
    }
}

/// The parts interleaved with `sep`: the inverse of splitting.
pub open spec fn join_with(parts: Seq<Seq<char>>, sep: char) -> Seq<char>
    decreases parts.len(),
{
    if parts.len() == 0 {
        Seq::empty()
    } else if parts.len() == 1 {
        parts[0]
    } else {
        parts[0] + seq![sep] + join_with(parts.drop_first(), sep)
    }
}

/// Joining after appending one more part appends a separator and that part.
pub proof fn lemma_join_push(parts: Seq<Seq<char>>, sep: char, last: Seq<char>)
    ensures
        parts.len() == 0 ==> join_with(parts.push(last), sep) == last,
        parts.len() > 0 ==> join_with(parts.push(last), sep) == join_with(parts, sep)
            + seq![sep] + last,
    decreases parts.len(),
{
    if parts.len() == 0 {
        assert(parts.push(last)[0] == last);
    } else {
        lemma_join_push(parts.drop_first(), sep, last);
        assert(parts.push(last).drop_first() =~= parts.drop_first().push(last));
        assert(parts.push(last)[0] == parts[0]);
        assert(join_with(parts.push(last), sep) == parts[0] + seq![sep] + join_with(
            parts.drop_first().push(last),
            sep,
        ));
        if parts.len() == 1 {
            assert(join_with(parts.drop_first().push(last), sep) == last);
        } else {
            assert(parts[0] + seq![sep] + (join_with(parts.drop_first(), sep) + seq![sep]
                + last) =~= (parts[0] + seq![sep] + join_with(parts.drop_first(), sep))
                + seq![sep] + last);
        }
    }
}

/// The parts joined with `':'` between them.
pub fn join_colon(parts: &Vec<String>) -> (r: String)
    ensures
        r@ == join_with(parts.deep_view(), ':'),
{
    proof {
        reveal_strlit(":");
    }
    let mut r = String::new();
    let mut i: usize = 0;
    while i < parts.len()
        invariant
            0 <= i <= parts.deep_view().len(),
            parts.deep_view().len() == parts@.len(),
            r@ == join_with(parts.deep_view().subrange(0, i as int), ':'),
        decreases parts@.len() - i,
    {
        proof {
            reveal_strlit(":");
            lemma_join_push(parts.deep_view().subrange(0, i as int), ':', parts@[i as int]@);
            assert(parts.deep_view().subrange(0, i + 1) =~= parts.deep_view().subrange(
                0,
                i as int,
            ).push(parts@[i as int]@));
        }
        if i > 0 {
            r.append(":");
        }
        r.append(parts[i].as_str());
        i = i + 1;
    }
    proof {
        assert(parts.deep_view().subrange(0, parts@.len() as int) =~= parts.deep_view());
    }
    r
}

/// Splitting on `':'`: at least one part comes back, no part holds a
/// `':'`, and joining the parts with `':'` restores the input; those three
/// facts determine the parts uniquely.
pub fn split_colon(s: &str) -> (r: Vec<String>)
    ensures
        r.deep_view().len() >= 1,
        join_with(r.deep_view(), ':') == s@,
        forall|q: int, k: int|
            0 <= q < r.deep_view().len() && 0 <= k < r.deep_view()[q].len()
                ==> r.deep_view()[q][k] != ':',
{
    let n = s.unicode_len();
    let mut r: Vec<String> = Vec::new();
    let mut pos: usize = 0;
    loop
        invariant
            0 <= pos <= n,
            n == s@.len(),
            r.deep_view().len() == r@.len(),
            r@.len() == 0 ==> pos == 0,
            r@.len() > 0 ==> join_with(r.deep_view(), ':') + seq![':'] == s@.subrange(
                0,
                pos as int,
            ),
            forall|q: int, k: int|
                0 <= q < r.deep_view().len() && 0 <= k < r.deep_view()[q].len()
                    ==> r.deep_view()[q][k] != ':',
        decreases n - pos,
    {
        let mut j: usize = pos;
        while j < n && s.get_char(j) != ':'
            invariant
                pos <= j <= n,
                n == s@.len(),
                forall|k: int| pos <= k < j ==> s@[k] != ':',
            decreases n - j,
        {
            j = j + 1;
        }
        let chunk = s.substring_char(pos, j).to_owned();
        let ghost old_parts = r.deep_view();
        r.push(chunk);
        proof {
            assert(r.deep_view() =~= old_parts.push(s@.subrange(pos as int, j as int)));
            lemma_join_push(old_parts, ':', s@.subrange(pos as int, j as int));
        }
        if j == n {
            proof {
                if old_parts.len() == 0 {
                    assert(s@.subrange(0, n as int) =~= s@);
                } else {
                    assert(s@.subrange(0, pos as int) + s@.subrange(pos as int, n as int)
                        =~= s@);
                }
            }
            return r;
        }
        proof {
            assert(s@[j as int] == ':');
            if old_parts.len() == 0 {
                assert(s@.subrange(0, j as int).push(':') =~= s@.subrange(0, j + 1));
            } else {
                assert((join_with(old_parts, ':') + seq![':'] + s@.subrange(
                    pos as int,
                    j as int,
                )) + seq![':'] =~= s@.subrange(0, j + 1));
            }
        }
        pos = j + 1;
    }
}

/// The decimal digit character for `n % 10`.
pub open spec fn dec_digit(n: nat) -> char {
    let d = n % 10;
    if d == 0 {
        '0'
    } else if d == 1 {
        '1'
    } else if d == 2 {
        '2'
    } else if d == 3 {
        '3'
    } else if d == 4 {
        '4'
    } else if d == 5 {
        '5'
    } else if d == 6 {
        '6'
    } else if d == 7 {
        '7'
    } else if d == 8 {
        '8'
    } else {
        '9'
    }
}

/// The decimal rendering of `n`, most significant digit first, no leading
/// zeros except for `n == 0` itself.
pub open spec fn dec_rep(n: nat) -> Seq<char>
    decreases n,
{
    if n < 10 {
        seq![dec_digit(n)]
    } else {
        dec_rep(n / 10).push(dec_digit(n % 10))
    }
}

/// The one-character string for a single decimal digit.
fn digit_str(d: usize) -> (r: &'static str)
    requires
        d < 10,
    ensures
        r@ == seq![dec_digit(d as nat)],
{
    if d == 0 {
        proof {
            reveal_strlit("0");
        }
        assert("0"@ =~= seq![dec_digit(0)]);
        "0"
    } else if d == 1 {
        proof {
            reveal_strlit("1");
        }
        assert("1"@ =~= seq![dec_digit(1)]);
        "1"
    } else if d == 2 {
        proof {
            reveal_strlit("2");
        }
        assert("2"@ =~= seq![dec_digit(2)]);
        "2"
    } else if d == 3 {
        proof {
            reveal_strlit("3");
        }
        assert("3"@ =~= seq![dec_digit(3)]);
        "3"
    } else if d == 4 {
        proof {
            reveal_strlit("4");
        }
        assert("4"@ =~= seq![dec_digit(4)]);
        "4"
    } else if d == 5 {
        proof {
            reveal_strlit("5");
        }
        assert("5"@ =~= seq![dec_digit(5)]);
        "5"
    } else if d == 6 {
        proof {
            reveal_strlit("6");
        }
        assert("6"@ =~= seq![dec_digit(6)]);
        "6"
    } else if d == 7 {
        proof {
            reveal_strlit("7");
        }
        assert("7"@ =~= seq![dec_digit(7)]);
        "7"
    } else if d == 8 {
        proof {
            reveal_strlit("8");
        }
        assert("8"@ =~= seq![dec_digit(8)]);
        "8"
    } else {
        proof {
            reveal_strlit("9");
        }
        assert("9"@ =~= seq![dec_digit(9)]);
        "9"
    }
}

/// The decimal rendering of `n`.
pub fn dec_string(n: usize) -> (r: String)
    ensures
        r@ == dec_rep(n as nat),
    decreases n,
{
    if n < 10 {
        digit_str(n).to_owned()
    } else {
        let mut r = dec_string(n / 10);
        r.append(digit_str(n % 10));
        proof {
            assert(dec_rep((n / 10) as nat) + seq![dec_digit((n % 10) as nat)] =~= dec_rep(
                (n / 10) as nat,
            ).push(dec_digit((n % 10) as nat)));
        }
        r
    }
}

} // verus!
