use vstd::prelude::*;

verus! {

// Paths, remote commands and discovery output are all modelled as character
// sequences. This module holds the spec-level vocabulary for that model
// (prefixes, suffixes, character search, decimal numerals) together with the
// verified executable operations the rest of the library builds on.

/// `p` is an initial segment of `s`.
pub open spec fn is_prefix(p: Seq<char>, s: Seq<char>) -> bool {
    p.len() <= s.len() && s.take(p.len() as int) == p
}

/// `x` is a final segment of `s`.
pub open spec fn is_suffix(x: Seq<char>, s: Seq<char>) -> bool {
    x.len() <= s.len() && s.skip(s.len() - x.len()) == x
}

/// Index of the first occurrence of `c` in `s`; `s.len()` when `c` is absent.
pub open spec fn first_index(s: Seq<char>, c: char) -> int
    decreases s.len(),
{
    if s.len() == 0 {
        0
    } else if s[0] == c {
        0
    } else {
        1 + first_index(s.drop_first(), c)
    }
}

pub proof fn lemma_first_index(s: Seq<char>, c: char)
    ensures
        0 <= first_index(s, c) <= s.len(),
        first_index(s, c) < s.len() ==> s[first_index(s, c)] == c,
        forall|j: int| 0 <= j < first_index(s, c) ==> s[j] != c,
    decreases s.len(),
{
    if s.len() > 0 && s[0] != c {
        lemma_first_index(s.drop_first(), c);
        assert forall|j: int| 0 <= j < first_index(s, c) implies s[j] != c by {
            if j > 0 {
                assert(s.drop_first()[j - 1] == s[j]);
            }
        }
    }
}

/// `first_index` is the only position that is preceded by no occurrence of `c`
/// and either holds `c` or is the end of `s`.
pub proof fn lemma_first_index_is(s: Seq<char>, c: char, k: int)
    requires
        0 <= k <= s.len(),
        k < s.len() ==> s[k] == c,
        forall|j: int| 0 <= j < k ==> s[j] != c,
    ensures
        first_index(s, c) == k,
    decreases s.len(),
{
    if s.len() == 0 {
    } else if s[0] == c {
        assert(k == 0) by {
            if k > 0 {
                assert(s[0] != c);
            }
        }
    } else {
        assert(k >= 1) by {
            if k == 0 {
                assert(s[0] == c);
            }
        }
        assert forall|j: int| 0 <= j < k - 1 implies s.drop_first()[j] != c by {
            assert(s.drop_first()[j] == s[j + 1]);
        }
        assert(k - 1 < s.drop_first().len() ==> s.drop_first()[k - 1] == c);
        lemma_first_index_is(s.drop_first(), c, k - 1);
    }
}

/// Position of the first occurrence of `c` in `s` at or after `from`;
/// the length of `s` when there is none.
pub fn find_char_from(s: &str, c: char, from: usize) -> (r: usize)
    requires
        from <= s@.len(),
    ensures
        from <= r <= s@.len(),
        r - from == first_index(s@.skip(from as int), c),
        r < s@.len() ==> s@[r as int] == c,
        forall|j: int| from <= j < r ==> s@[j] != c,
{
    let n = s.unicode_len();
    let mut i = from;
    while i < n
        invariant
            from <= i <= n,
            n == s@.len(),
            forall|j: int| from <= j < i ==> s@[j] != c,
        decreases n - i,
    {
        if s.get_char(i) == c {
            proof {
                assert forall|j: int| 0 <= j < i - from implies s@.skip(from as int)[j] != c by {
                    assert(s@.skip(from as int)[j] == s@[j + from]);
                }
                lemma_first_index_is(s@.skip(from as int), c, i - from);
            }
            return i;
        }
        i += 1;
    }
    proof {
        assert forall|j: int| 0 <= j < n - from implies s@.skip(from as int)[j] != c by {
            assert(s@.skip(from as int)[j] == s@[j + from]);
        }
        lemma_first_index_is(s@.skip(from as int), c, n - from);
    }
    n
}

/// Whether `p` is a prefix of `s`, decided character by character.
pub fn starts_with(s: &str, p: &str) -> (r: bool)
    ensures
        r == is_prefix(p@, s@),
{
    let n = s.unicode_len();
    let m = p.unicode_len();
    if m > n {
        return false;
    }
    let mut j: usize = 0;
    while j < m
        invariant
            0 <= j <= m,
            m <= n,
            n == s@.len(),
            m == p@.len(),
            forall|k: int| 0 <= k < j ==> s@[k] == p@[k],
        decreases m - j,
    {
        if s.get_char(j) != p.get_char(j) {
            assert(s@.take(p@.len() as int)[j as int] != p@[j as int]);
            return false;
        }
        j += 1;
    }
    assert(s@.take(p@.len() as int) =~= p@);
    true
}

/// Whether `x` is a suffix of `s`, decided character by character.
pub fn ends_with(s: &str, x: &str) -> (r: bool)
    ensures
        r == is_suffix(x@, s@),
{
    let n = s.unicode_len();
    let m = x.unicode_len();
    if m > n {
        return false;
    }
    let off = n - m;
    let mut j: usize = 0;
    while j < m
        invariant
            0 <= j <= m,
            m <= n,
            off == n - m,
            n == s@.len(),
            m == x@.len(),
            forall|k: int| 0 <= k < j ==> s@[off + k] == x@[k],
        decreases m - j,
    {
        if s.get_char(off + j) != x.get_char(j) {
            assert(s@.skip(s@.len() - x@.len())[j as int] != x@[j as int]);
            return false;
        }
        j += 1;
    }
    assert(s@.skip(s@.len() - x@.len()) =~= x@);
    true
}

/// `s` contains `x` as a contiguous segment.
pub open spec fn contains_seq(s: Seq<char>, x: Seq<char>) -> bool {
    exists|i: int| 0 <= i <= s.len() - x.len() && #[trigger] s.subrange(i, i + x.len()) == x
}

/// Whether the segment of `s` starting at `at` equals `x`.
fn matches_at(s: &str, x: &str, at: usize) -> (r: bool)
    requires
        at + x@.len() <= s@.len(),
    ensures
        r == (s@.subrange(at as int, at + x@.len()) == x@),
{
    let n = s.unicode_len();
    let m = x.unicode_len();
    let mut j: usize = 0;
    while j < m
        invariant
            0 <= j <= m,
            at + m <= n,
            n == s@.len(),
            m == x@.len(),
            forall|k: int| 0 <= k < j ==> s@[at + k] == x@[k],
        decreases m - j,
    {
        if s.get_char(at + j) != x.get_char(j) {
            assert(s@.subrange(at as int, at + x@.len())[j as int] != x@[j as int]);
            return false;
        }
        j += 1;
    }
    assert(s@.subrange(at as int, at + x@.len()) =~= x@);
    true
}

/// Whether `s` contains `x` as a contiguous segment.
pub fn contains_sub(s: &str, x: &str) -> (r: bool)
    ensures
        r == contains_seq(s@, x@),
{
    let n = s.unicode_len();
    let m = x.unicode_len();
    if m > n {
        return false;
    }
    if m == 0 {
        proof {
            let ghost z: int = 0;
            assert(s@.subrange(z, z + x@.len()) =~= x@);
        }
        return true;
    }
    let mut i: usize = 0;
    while i <= n - m
        invariant
            0 <= i <= n - m + 1,
            1 <= m <= n,
            n == s@.len(),
            m == x@.len(),
            forall|k: int| 0 <= k < i ==> #[trigger] s@.subrange(k, k + x@.len()) != x@,
        decreases n - m + 1 - i,
    {
        if matches_at(s, x, i) {
            return true;
        }
        i += 1;
    }
    false
}

/// `a`, a separator slash, then `b`.
pub open spec fn path_join(a: Seq<char>, b: Seq<char>) -> Seq<char> {
    a + seq!['/'] + b
}

/// Joins a directory path and a name with a single separator slash.
pub fn join_path(dir: &str, name: &str) -> (r: String)
    ensures
        r@ == path_join(dir@, name@),
{
    let mut out = dir.to_owned();
    out.append("/");
    out.append(name);
    proof {
        reveal_strlit("/");
        assert(out@ =~= path_join(dir@, name@));
    }
    out
}

/// `p` with every trailing separator slash removed.
pub open spec fn trim_slashes(p: Seq<char>) -> Seq<char>
    decreases p.len(),
{
    if p.len() > 0 && p.last() == '/' {
        trim_slashes(p.drop_last())
    } else {
        p
    }
}

/// Removes the trailing separator slashes of `s`.
pub fn trim_trailing_slashes(s: &str) -> (r: &str)
    ensures
        r@ == trim_slashes(s@),
{
    let mut n = s.unicode_len();
    proof {
        assert(s@.take(n as int) =~= s@);
    }
    while n > 0 && s.get_char(n - 1) == '/'
        invariant
            n <= s@.len(),
            trim_slashes(s@) == trim_slashes(s@.take(n as int)),
        decreases n,
    {
        proof {
            assert(s@.take(n as int).last() == s@[n - 1]);
            assert(s@.take(n as int).drop_last() =~= s@.take(n - 1));
        }
        n -= 1;
    }
    let r = s.substring_char(0, n);
    proof {
        if n > 0 {
            assert(s@.take(n as int).last() == s@[n - 1]);
        }
        assert(trim_slashes(s@.take(n as int)) == s@.take(n as int));
        assert(r@ =~= s@.take(n as int));
    }
    r
}

/// The final path component of `p`: the characters after the last slash.
pub open spec fn base_of(p: Seq<char>) -> Seq<char>
    decreases p.len(),
{
    if p.len() == 0 {
        p
    } else if p.last() == '/' {
        Seq::empty()
    } else {
        base_of(p.drop_last()).push(p.last())
    }
}

/// `base_of(p)` is exactly the segment after the last slash: if nothing at or
/// after position `i` is a slash and `i` is either the start or preceded by a
/// slash, the base is the segment from `i` on.
pub proof fn lemma_base_of_from(p: Seq<char>, i: int)
    requires
        0 <= i <= p.len(),
        forall|j: int| i <= j < p.len() ==> p[j] != '/',
        i > 0 ==> p[i - 1] == '/',
    ensures
        base_of(p) == p.skip(i),
    decreases p.len(),
{
    if p.len() == i {
        if i == 0 {
            assert(base_of(p) =~= p.skip(i));
        } else {
            assert(p.last() == p[i - 1]);
            assert(base_of(p) =~= p.skip(i));
        }
    } else {
        assert(p.last() == p[p.len() - 1]);
        assert forall|j: int| i <= j < p.drop_last().len() implies p.drop_last()[j] != '/' by {
            assert(p.drop_last()[j] == p[j]);
        }
        assert(i > 0 ==> p.drop_last()[i - 1] == p[i - 1]);
        lemma_base_of_from(p.drop_last(), i);
        assert(base_of(p) =~= p.skip(i));
    }
}

/// The final path component of `s`.
pub fn base_name(s: &str) -> (r: &str)
    ensures
        r@ == base_of(s@),
{
    let n = s.unicode_len();
    let mut i = n;
    while i > 0 && s.get_char(i - 1) != '/'
        invariant
            i <= n,
            n == s@.len(),
            forall|j: int| i <= j < n ==> s@[j] != '/',
        decreases i,
    {
        i -= 1;
    }
    let r = s.substring_char(i, n);
    proof {
        lemma_base_of_from(s@, i as int);
        assert(r@ =~= s@.skip(i as int));
    }
    r
}

/// The name a directory path denotes: its final component once trailing
/// slashes are ignored.
pub open spec fn dir_name_of(p: Seq<char>) -> Seq<char> {
    base_of(trim_slashes(p))
}

/// The final component of the directory path `s`, ignoring trailing slashes.
pub fn dir_name(s: &str) -> (r: &str)
    ensures
        r@ == dir_name_of(s@),
{
    base_name(trim_trailing_slashes(s))
}

/// The decimal digit character for `d`.
pub open spec fn dec_digit(d: int) -> char {
    "0123456789"@[d]
}

/// The decimal numeral of `n`, most significant digit first, no leading zero.
pub open spec fn dec_rep(n: nat) -> Seq<char>
    decreases n,
{
    if n < 10 {
        seq![dec_digit(n as int)]
    } else {
        dec_rep(n / 10).push(dec_digit((n % 10) as int))
    }
}

/// The decimal numeral of `n` as an owned string.
pub fn u16_string(n: u16) -> (r: String)
    ensures
        r@ == dec_rep(n as nat),
    decreases n,
{
    let digits = "0123456789";
    proof {
        reveal_strlit("0123456789");
    }
    if n >= 10 {
        let mut r = u16_string(n / 10);
        let d = (n % 10) as usize;
        let c = digits.substring_char(d, d + 1);
        r.append(c);
        proof {
            assert(c@ =~= seq![dec_digit((n % 10) as int)]);
            assert(dec_rep((n / 10) as nat) + c@ =~= dec_rep(n as nat));
        }
        r
    } else {
        let d = n as usize;
        let c = digits.substring_char(d, d + 1);
        let r = c.to_owned();
        proof {
            assert(r@ =~= seq![dec_digit(n as int)]);
        }
        r
    }
}

/// `c` is a decimal digit character.
pub open spec fn is_dec_digit(c: char) -> bool {
    48 <= c as int <= 57
}

/// The numeric value of the digit character `c`.
pub open spec fn dec_digit_val(c: char) -> int {
    c as int - 48
}

/// Every character of `s` is a decimal digit.
pub open spec fn all_dec_digits(s: Seq<char>) -> bool {
    forall|i: int| 0 <= i < s.len() ==> is_dec_digit(#[trigger] s[i])
}

/// The number the digit string `s` denotes, read most significant digit first.
pub open spec fn dec_value(s: Seq<char>) -> int
    decreases s.len(),
{
    if s.len() == 0 {
        0
    } else {
        dec_value(s.drop_last()) * 10 + dec_digit_val(s.last())
    }
}

pub proof fn lemma_dec_value_nonneg(s: Seq<char>)
    requires
        all_dec_digits(s),
    ensures
        dec_value(s) >= 0,
    decreases s.len(),
{
    if s.len() > 0 {
        assert forall|j: int| 0 <= j < s.drop_last().len() implies is_dec_digit(
            #[trigger] s.drop_last()[j],
        ) by {
            assert(s.drop_last()[j] == s[j]);
        }
        lemma_dec_value_nonneg(s.drop_last());
        assert(s.last() == s[s.len() - 1]);
    }
}

/// Extending a digit string never decreases its value.
pub proof fn lemma_dec_value_prefix_le(s: Seq<char>, i: int)
    requires
        all_dec_digits(s),
        0 <= i <= s.len(),
    ensures
        dec_value(s.take(i)) <= dec_value(s),
    decreases s.len(),
{
    if i < s.len() {
        assert forall|j: int| 0 <= j < s.drop_last().len() implies is_dec_digit(
            #[trigger] s.drop_last()[j],
        ) by {
            assert(s.drop_last()[j] == s[j]);
        }
        assert(s.drop_last().take(i) =~= s.take(i));
        lemma_dec_value_prefix_le(s.drop_last(), i);
        lemma_dec_value_nonneg(s.drop_last());
        assert(s.last() == s[s.len() - 1]);
    } else {
        assert(s.take(i) =~= s);
    }
}

/// Reads `s` as a decimal number if it is a nonempty digit string whose value
/// fits; rejects everything else.
pub fn parse_u16(s: &str) -> (r: Option<u16>)
    ensures
        match r {
            Some(v) => s@.len() > 0 && all_dec_digits(s@) && dec_value(s@) == v as int,
            None => s@.len() == 0 || !all_dec_digits(s@) || dec_value(s@) > u16::MAX,
        },
{
    let n = s.unicode_len();
    if n == 0 {
        return None;
    }
    let mut i: usize = 0;
    let mut v: u32 = 0;
    while i < n
        invariant
            0 <= i <= n,
            n == s@.len(),
            all_dec_digits(s@.take(i as int)),
            v == dec_value(s@.take(i as int)),
            v <= 0xFFFF,
        decreases n - i,
    {
        let c = s.get_char(i);
        let u = c as u32;
        if u < 48 || u > 57 {
            assert(!is_dec_digit(s@[i as int]));
            return None;
        }
        let d = u - 48;
        let nv: u32 = v * 10 + d;
        proof {
            assert(s@.take(i + 1).drop_last() =~= s@.take(i as int));
            assert(s@.take(i + 1).last() == s@[i as int]);
            assert forall|j: int| 0 <= j < i + 1 implies is_dec_digit(
                #[trigger] s@.take(i + 1)[j],
            ) by {
                assert(s@.take(i + 1)[j] == s@[j]);
            }
        }
        if nv > 0xFFFF {
            proof {
                if all_dec_digits(s@) {
                    lemma_dec_value_prefix_le(s@, i + 1);
                }
            }
            return None;
        }
        v = nv;
        i += 1;
    }
    proof {
        assert(s@.take(n as int) =~= s@);
    }
    Some(v as u16)
}

/// The pieces of `s` between occurrences of the separator `c`: one more piece
/// than there are separators, in order, each piece free of `c`.
pub open spec fn split_seq(s: Seq<char>, c: char) -> Seq<Seq<char>>
    decreases s.len(),
{
    let i = first_index(s, c);
    if 0 <= i < s.len() {
        seq![s.take(i)] + split_seq(s.skip(i + 1), c)
    } else {
        seq![s]
    }
}

fn split_push(s: &str, c: char, from: usize, out: &mut Vec<String>)
    requires
        from <= s@.len(),
    ensures
        final(out)@.map_values(|t: String| t@) == old(out)@.map_values(|t: String| t@)
            + split_seq(s@.skip(from as int), c),
    decreases s@.len() - from,
{
    let n = s.unicode_len();
    let j = find_char_from(s, c, from);
    let piece = s.substring_char(from, j).to_owned();
    let ghost rest = s@.skip(from as int);
    proof {
        lemma_first_index(rest, c);
        assert(piece@ =~= rest.take(j - from));
    }
    out.push(piece);
    if j < n {
        split_push(s, c, j + 1, out);
        proof {
            assert(s@.skip(j + 1) =~= rest.skip(j - from + 1));
            assert(final(out)@.map_values(|t: String| t@) =~= old(out)@.map_values(
                |t: String| t@,
            ) + split_seq(rest, c));
        }
    } else {
        proof {
            assert(piece@ =~= rest);
            assert(final(out)@.map_values(|t: String| t@) =~= old(out)@.map_values(
                |t: String| t@,
            ) + split_seq(rest, c));
        }
    }
}

/// Splits `s` at every occurrence of the separator `c`.
pub fn split_char(s: &str, c: char) -> (parts: Vec<String>)
    ensures
        parts@.map_values(|t: String| t@) == split_seq(s@, c),
{
    let mut parts: Vec<String> = Vec::new();
    split_push(s, c, 0, &mut parts);
    proof {
        assert(s@.skip(0) =~= s@);
    }
    parts
}

} // verus!
