//! Character-level text utilities: conversions between strings and
//! character vectors, trimming, splitting, joining, decimal rendering of
//! integers, and ASCII case folding. All parsing in the crate works over
//! `Vec<char>` so that the logic is checked character by character.

use vstd::prelude::*;

verus! {

/// Relies on str::chars: yields exactly the characters of the string,
/// in order.
#[verifier::external_body]
pub(crate) fn str_chars(s: &str) -> (r: Vec<char>)
    ensures
        r@ == s@,
{
    s.chars().collect()
}

/// Relies on String: FromIterator<char>: collecting characters builds the
/// string of exactly those characters.
#[verifier::external_body]
pub(crate) fn chars_string(v: &Vec<char>) -> (r: String)
    ensures
        r@ == v@,
{
    v.iter().collect()
}

/// ASCII whitespace, the only whitespace this crate's parsers recognize.
pub open spec fn spec_is_space(c: char) -> bool {
    c == ' ' || c == '\t' || c == '\n' || c == '\r'
}

pub fn is_space(c: char) -> (r: bool)
    ensures
        r == spec_is_space(c),
{
    c == ' ' || c == '\t' || c == '\n' || c == '\r'
}

/// The sequence without its leading whitespace.
pub open spec fn spec_trim_start(s: Seq<char>) -> Seq<char>
    decreases s.len(),
{
    if s.len() > 0 && spec_is_space(s[0]) {
        spec_trim_start(s.drop_first())
    } else {
        s
    }
}

/// The sequence without its trailing whitespace.
pub open spec fn spec_trim_end(s: Seq<char>) -> Seq<char>
    decreases s.len(),
{
    if s.len() > 0 && spec_is_space(s.last()) {
        spec_trim_end(s.drop_last())
    } else {
        s
    }
}

/// The sequence without leading and trailing whitespace.
pub open spec fn spec_trim(s: Seq<char>) -> Seq<char> {
    spec_trim_end(spec_trim_start(s))
}

/// Trimming the start keeps a suffix: if the first `i` characters are
/// whitespace and the character at `i` (if any) is not, the result is the
/// suffix from `i`.
proof fn lemma_trim_start_scan(s: Seq<char>, i: int)
    requires
        0 <= i <= s.len(),
        forall|j: int| 0 <= j < i ==> spec_is_space(s[j]),
        i < s.len() ==> !spec_is_space(s[i]),
    ensures
        spec_trim_start(s) == s.skip(i),
    decreases i,
{
    if i == 0 {
        assert(s.skip(0) =~= s);
        if s.len() > 0 && spec_is_space(s[0]) {
        } else {
        }
    } else {
        assert(spec_is_space(s[0]));
        lemma_trim_start_scan(s.drop_first(), i - 1);
        assert(s.drop_first().skip(i - 1) =~= s.skip(i));
    }
}

/// Trimming the end keeps a prefix: if everything from `k` on is whitespace
/// and the character before `k` (if any) is not, the result is the prefix up
/// to `k`.
proof fn lemma_trim_end_scan(s: Seq<char>, k: int)
    requires
        0 <= k <= s.len(),
        forall|j: int| k <= j < s.len() ==> spec_is_space(s[j]),
        k > 0 ==> !spec_is_space(s[k - 1]),
    ensures
        spec_trim_end(s) == s.take(k),
    decreases s.len() - k,
{
    if k == s.len() {
        assert(s.take(k) =~= s);
        if s.len() > 0 && spec_is_space(s.last()) {
            lemma_trim_end_scan(s.drop_last(), k - 1);
            assert(s.drop_last() =~= s.take(k - 1));
        }
    } else {
        assert(spec_is_space(s.last()));
        lemma_trim_end_scan(s.drop_last(), k);
        assert(s.drop_last().take(k) =~= s.take(k));
    }
}

/// Copies the characters `v[from..to]`.
pub fn subrange_chars(v: &Vec<char>, from: usize, to: usize) -> (r: Vec<char>)
    requires
        0 <= from <= to <= v@.len(),
    ensures
        r@ == v@.subrange(from as int, to as int),
{
    let mut r: Vec<char> = Vec::new();
    let mut i: usize = from;
    while i < to
        invariant
            from <= i <= to <= v@.len(),
            r@ == v@.subrange(from as int, i as int),
        decreases to - i,
    {
        r.push(v[i]);
        proof {
            assert(v@.subrange(from as int, i + 1) =~= v@.subrange(from as int, i as int).push(
                v@[i as int],
            ));
        }
        i = i + 1;
    }
    r
}

/// Removes leading and trailing whitespace.
pub fn trim_chars(v: &Vec<char>) -> (r: Vec<char>)
    ensures
        r@ == spec_trim(v@),
{
    let n = v.len();
    let mut a: usize = 0;
    while a < n && is_space(v[a])
        invariant
            0 <= a <= n,
            n == v@.len(),
            forall|j: int| 0 <= j < a ==> spec_is_space(v@[j]),
        decreases n - a,
    {
        a = a + 1;
    }
    let mut b: usize = n;
    while b > a && is_space(v[b - 1])
        invariant
            a <= b <= n,
            n == v@.len(),
            forall|j: int| b <= j < n ==> spec_is_space(v@[j]),
        decreases b,
    {
        b = b - 1;
    }
    let r = subrange_chars(v, a, b);
    proof {
        lemma_trim_start_scan(v@, a as int);
        let t = v@.skip(a as int);
        lemma_trim_end_scan(t, b - a);
        assert(t.take(b - a) =~= v@.subrange(a as int, b as int));
    }
    r
}

/// Removes leading whitespace only.
pub fn trim_start_chars(v: &Vec<char>) -> (r: Vec<char>)
    ensures
        r@ == spec_trim_start(v@),
{
    let n = v.len();
    let mut a: usize = 0;
    while a < n && is_space(v[a])
        invariant
            0 <= a <= n,
            n == v@.len(),
            forall|j: int| 0 <= j < a ==> spec_is_space(v@[j]),
        decreases n - a,
    {
        a = a + 1;
    }
    let r = subrange_chars(v, a, n);
    proof {
        lemma_trim_start_scan(v@, a as int);
        assert(v@.skip(a as int) =~= v@.subrange(a as int, n as int));
    }
    r
}

/// Removes trailing whitespace only.
pub fn trim_end_chars(v: &Vec<char>) -> (r: Vec<char>)
    ensures
        r@ == spec_trim_end(v@),
{
    let n = v.len();
    let mut b: usize = n;
    while b > 0 && is_space(v[b - 1])
        invariant
            0 <= b <= n,
            n == v@.len(),
            forall|j: int| b <= j < n ==> spec_is_space(v@[j]),
        decreases b,
    {
        b = b - 1;
    }
    let r = subrange_chars(v, 0, b);
    proof {
        lemma_trim_end_scan(v@, b as int);
        assert(v@.take(b as int) =~= v@.subrange(0, b as int));
    }
    r
}

/// Index of the first occurrence of `sep`, or -1 when absent.
pub open spec fn spec_find(s: Seq<char>, sep: char) -> int
    decreases s.len(),
{
    if s.len() == 0 {
        -1
    } else if s[0] == sep {
        0
    } else {
        let r = spec_find(s.drop_first(), sep);
        if r < 0 {
            -1
        } else {
            r + 1
        }
    }
}

/// What `spec_find` returns: either -1 with no occurrence at all, or the
/// least index holding `sep`.
pub proof fn lemma_find_properties(s: Seq<char>, sep: char)
    ensures
        spec_find(s, sep) == -1 ==> forall|j: int| 0 <= j < s.len() ==> s[j] != sep,
        spec_find(s, sep) >= 0 ==> {
            &&& spec_find(s, sep) < s.len()
            &&& s[spec_find(s, sep)] == sep
            &&& forall|j: int| 0 <= j < spec_find(s, sep) ==> s[j] != sep
        },
    decreases s.len(),
{
    if s.len() == 0 {
    } else if s[0] == sep {
    } else {
        lemma_find_properties(s.drop_first(), sep);
        let r = spec_find(s.drop_first(), sep);
        if r >= 0 {
            assert forall|j: int| 0 <= j < r + 1 implies s[j] != sep by {
                if j > 0 {
                    assert(s.drop_first()[j - 1] != sep);
                }
            }
        } else {
            assert forall|j: int| 0 <= j < s.len() implies s[j] != sep by {
                if j > 0 {
                    assert(s.drop_first()[j - 1] != sep);
                }
            }
        }
    }
}

/// The converse: scanning facts pin `spec_find` down.
pub proof fn lemma_find_is(s: Seq<char>, sep: char, k: int)
    requires
        0 <= k < s.len(),
        s[k] == sep,
        forall|j: int| 0 <= j < k ==> s[j] != sep,
    ensures
        spec_find(s, sep) == k,
    decreases k,
{
    if k == 0 {
    } else {
        assert(s.drop_first()[k - 1] == sep);
        assert forall|j: int| 0 <= j < k - 1 implies s.drop_first()[j] != sep by {
            assert(s[j + 1] != sep);
        }
        lemma_find_is(s.drop_first(), sep, k - 1);
    }
}

/// And when no index holds `sep`, `spec_find` is -1.
pub proof fn lemma_find_none(s: Seq<char>, sep: char)
    requires
        forall|j: int| 0 <= j < s.len() ==> s[j] != sep,
    ensures
        spec_find(s, sep) == -1,
    decreases s.len(),
{
    if s.len() > 0 {
        assert forall|j: int| 0 <= j < s.len() - 1 implies s.drop_first()[j] != sep by {
            assert(s[j + 1] != sep);
        }
        lemma_find_none(s.drop_first(), sep);
    }
}

/// Finds the first occurrence of `sep`.
pub fn find_char(v: &Vec<char>, sep: char) -> (r: Option<usize>)
    ensures
        match r {
            Some(i) => spec_find(v@, sep) == i && i < v@.len() && v@[i as int] == sep,
            None => spec_find(v@, sep) == -1,
        },
{
    let n = v.len();
    let mut i: usize = 0;
    while i < n
        invariant
            0 <= i <= n,
            n == v@.len(),
            forall|j: int| 0 <= j < i ==> v@[j] != sep,
        decreases n - i,
    {
        if v[i] == sep {
            proof {
                lemma_find_is(v@, sep, i as int);
            }
            return Some(i);
        }
        i = i + 1;
    }
    proof {
        lemma_find_none(v@, sep);
    }
    None
}

/// The view of an optional value.
pub open spec fn opt_view<T: View>(o: Option<T>) -> Option<T::V> {
    match o {
        Some(x) => Some(x@),
        None => None,
    }
}

/// The pieces of `s` between occurrences of `sep`: always non-empty, and
/// with one piece more than there are separators.
pub open spec fn spec_split(s: Seq<char>, sep: char) -> Seq<Seq<char>>
    decreases s.len(),
{
    let i = spec_find(s, sep);
    if 0 <= i < s.len() {
        seq![s.take(i)] + spec_split(s.skip(i + 1), sep)
    } else {
        seq![s]
    }
}

/// Splits `v` at every occurrence of `sep`.
pub fn split_char(v: &Vec<char>, sep: char) -> (r: Vec<Vec<char>>)
    ensures
        r@.map_values(|t: Vec<char>| t@) == spec_split(v@, sep),
{
    let n = v.len();
    let mut r: Vec<Vec<char>> = Vec::new();
    let mut start: usize = 0;
    let mut i: usize = 0;
    proof {
        assert(v@.skip(0) =~= v@);
        assert(r@.map_values(|t: Vec<char>| t@) =~= Seq::<Seq<char>>::empty());
        assert(Seq::<Seq<char>>::empty() + spec_split(v@, sep) =~= spec_split(v@, sep));
    }
    while i < n
        invariant
            0 <= start <= i <= n,
            n == v@.len(),
            forall|j: int| start <= j < i ==> v@[j] != sep,
            spec_split(v@, sep) == r@.map_values(|t: Vec<char>| t@) + spec_split(
                v@.skip(start as int),
                sep,
            ),
        decreases n - i,
    {
        if v[i] == sep {
            let token = subrange_chars(v, start, i);
            proof {
                let rest = v@.skip(start as int);
                let k = i - start;
                assert forall|j: int| 0 <= j < k implies rest[j] != sep by {
                    assert(v@[start + j] != sep);
                }
                lemma_find_is(rest, sep, k);
                assert(spec_split(rest, sep) == seq![rest.take(k)] + spec_split(
                    rest.skip(k + 1),
                    sep,
                ));
                assert(rest.take(k) =~= v@.subrange(start as int, i as int));
                assert(rest.skip(k + 1) =~= v@.skip(i + 1));
                let old_map = r@.map_values(|t: Vec<char>| t@);
                assert(r@.push(token).map_values(|t: Vec<char>| t@) =~= old_map.push(token@));
                assert(old_map + (seq![rest.take(k)] + spec_split(rest.skip(k + 1), sep))
                    =~= old_map.push(token@) + spec_split(v@.skip(i + 1), sep));
            }
            r.push(token);
            start = i + 1;
        }
        i = i + 1;
    }
    let token = subrange_chars(v, start, n);
    proof {
        let rest = v@.skip(start as int);
        assert forall|j: int| 0 <= j < rest.len() implies rest[j] != sep by {
            assert(v@[start + j] != sep);
        }
        lemma_find_none(rest, sep);
        assert(spec_split(rest, sep) == seq![rest]);
        assert(rest =~= v@.subrange(start as int, n as int));
        let old_map = r@.map_values(|t: Vec<char>| t@);
        assert(r@.push(token).map_values(|t: Vec<char>| t@) =~= old_map.push(token@));
        assert(old_map + seq![rest] =~= old_map.push(token@));
    }
    r.push(token);
    r
}

/// The pieces joined back with `sep` between them; empty input joins to the
/// empty sequence.
pub open spec fn spec_join(parts: Seq<Seq<char>>, sep: char) -> Seq<char>
    decreases parts.len(),
{
    if parts.len() == 0 {
        Seq::empty()
    } else if parts.len() == 1 {
        parts[0]
    } else {
        parts[0] + seq![sep] + spec_join(parts.drop_first(), sep)
    }
}

/// Splitting a join restores the pieces, provided no piece contains the
/// separator.
pub proof fn lemma_split_join(parts: Seq<Seq<char>>, sep: char)
    requires
        parts.len() > 0,
        forall|i: int, j: int|
            0 <= i < parts.len() && 0 <= j < parts[i].len() ==> #[trigger] parts[i][j] != sep,
    ensures
        spec_split(spec_join(parts, sep), sep) == parts,
    decreases parts.len(),
{
    let s = spec_join(parts, sep);
    if parts.len() == 1 {
        assert(s == parts[0]);
        assert forall|j: int| 0 <= j < s.len() implies s[j] != sep by {
            assert(parts[0][j] != sep);
        }
        lemma_find_none(s, sep);
        assert(seq![s] =~= parts);
    } else {
        let head = parts[0];
        let tail_join = spec_join(parts.drop_first(), sep);
        assert(s == head + seq![sep] + tail_join);
        let k = head.len() as int;
        assert(s[k] == sep);
        assert forall|j: int| 0 <= j < k implies s[j] != sep by {
            assert(s[j] == head[j]);
            assert(parts[0][j] != sep);
        }
        lemma_find_is(s, sep, k);
        assert(s.take(k) =~= head);
        assert(s.skip(k + 1) =~= tail_join);
        assert forall|i: int, j: int|
            0 <= i < parts.drop_first().len() && 0 <= j < parts.drop_first()[i].len()
            implies #[trigger] parts.drop_first()[i][j] != sep by {
            assert(parts[i + 1][j] != sep);
        }
        lemma_split_join(parts.drop_first(), sep);
        assert(seq![head] + parts.drop_first() =~= parts);
    }
}

/// Joins the pieces with `sep` between them.
pub fn join_chars(parts: &Vec<Vec<char>>, sep: char) -> (r: Vec<char>)
    ensures
        r@ == spec_join(parts@.map_values(|t: Vec<char>| t@), sep),
    decreases parts@.len(),
{
    let n = parts.len();
    let mut r: Vec<char> = Vec::new();
    let mut i: usize = 0;
    while i < n
        invariant
            0 <= i <= n,
            n == parts@.len(),
            r@ == spec_join_prefix(parts@.map_values(|t: Vec<char>| t@), i as int, sep),
        decreases n - i,
    {
        if i > 0 {
            r.push(sep);
        }
        let mut j: usize = 0;
        let part = &parts[i];
        let ghost r_before = r@;
        while j < part.len()
            invariant
                0 <= j <= part@.len(),
                r@ == r_before + part@.take(j as int),
            decreases part@.len() - j,
        {
            r.push(part[j]);
            proof {
                assert(part@.take(j + 1) =~= part@.take(j as int).push(part@[j as int]));
            }
            j = j + 1;
        }
        proof {
            assert(part@.take(part@.len() as int) =~= part@);
            lemma_join_prefix_step(parts@.map_values(|t: Vec<char>| t@), i as int, sep);
        }
        i = i + 1;
    }
    proof {
        lemma_join_prefix_full(parts@.map_values(|t: Vec<char>| t@), sep);
    }
    r
}

/// The join of the first `k` pieces.
pub open spec fn spec_join_prefix(parts: Seq<Seq<char>>, k: int, sep: char) -> Seq<char>
    decreases k,
{
    if k <= 0 {
        Seq::empty()
    } else if k == 1 {
        parts[0]
    } else {
        spec_join_prefix(parts, k - 1, sep) + seq![sep] + parts[k - 1]
    }
}

pub proof fn lemma_join_prefix_step(parts: Seq<Seq<char>>, i: int, sep: char)
    requires
        0 <= i < parts.len(),
    ensures
        spec_join_prefix(parts, i + 1, sep) == if i == 0 {
            parts[0]
        } else {
            spec_join_prefix(parts, i, sep) + seq![sep] + parts[i]
        },
{
}

pub proof fn lemma_join_prefix_full(parts: Seq<Seq<char>>, sep: char)
    ensures
        spec_join_prefix(parts, parts.len() as int, sep) == spec_join(parts, sep),
    decreases parts.len(),
{
    if parts.len() == 0 {
    } else if parts.len() == 1 {
    } else {
        lemma_join_prefix_full(parts.drop_first(), sep);
        lemma_join_prefix_shift(parts, parts.len() as int, sep);
    }
}

/// Prefix joins ignore the first piece the same way on a shifted list.
proof fn lemma_join_prefix_shift(parts: Seq<Seq<char>>, k: int, sep: char)
    requires
        2 <= k <= parts.len(),
    ensures
        spec_join_prefix(parts, k, sep) == parts[0] + seq![sep] + spec_join_prefix(
            parts.drop_first(),
            k - 1,
            sep,
        ),
    decreases k,
{
    if k == 2 {
        assert(spec_join_prefix(parts, 2, sep) == spec_join_prefix(parts, 1, sep) + seq![sep]
            + parts[1]);
        assert(spec_join_prefix(parts, 1, sep) == parts[0]);
        assert(spec_join_prefix(parts.drop_first(), 1, sep) == parts.drop_first()[0]);
        assert(parts.drop_first()[0] == parts[1]);
    } else {
        lemma_join_prefix_shift(parts, k - 1, sep);
        assert(spec_join_prefix(parts, k, sep) == spec_join_prefix(parts, k - 1, sep) + seq![sep]
            + parts[k - 1]);
        assert(spec_join_prefix(parts.drop_first(), k - 1, sep) == spec_join_prefix(
            parts.drop_first(),
            k - 2,
            sep,
        ) + seq![sep] + parts.drop_first()[k - 2]);
        assert(parts.drop_first()[k - 2] == parts[k - 1]);
        assert((parts[0] + seq![sep] + spec_join_prefix(parts.drop_first(), k - 2, sep)) + seq![sep]
            + parts[k - 1] =~= parts[0] + seq![sep] + (spec_join_prefix(parts.drop_first(), k - 2, sep)
            + seq![sep] + parts.drop_first()[k - 2]));
    }
}

/// The digit character for a value below ten.
pub open spec fn spec_digit(d: int) -> char {
    if d == 0 {
        '0'
    } else if d == 1 {
        '1'
    } else if d == 2 {
        '2'
    } else if d == 3 {
        '3'
    } else if d == 4 {
        '4'
    } else if d == 5 {
        '5'
    } else if d == 6 {
        '6'
    } else if d == 7 {
        '7'
    } else if d == 8 {
        '8'
    } else {
        '9'
    }
}

/// Decimal digits of `n`, most significant first, with no leading zero
/// except for zero itself.
pub open spec fn spec_dec(n: nat) -> Seq<char>
    decreases n,
{
    if n < 10 {
        seq![spec_digit(n as int)]
    } else {
        spec_dec(n / 10) + seq![spec_digit((n % 10) as int)]
    }
}

/// Decimal rendering of a signed value: a minus sign, then the digits of the
/// magnitude.
pub open spec fn spec_dec_i64(n: int) -> Seq<char> {
    if n < 0 {
        seq!['-'] + spec_dec((-n) as nat)
    } else {
        spec_dec(n as nat)
    }
}

fn digit_char(d: u64) -> (r: char)
    requires
        d < 10,
    ensures
        r == spec_digit(d as int),
{
    if d == 0 {
        '0'
    } else if d == 1 {
        '1'
    } else if d == 2 {
        '2'
    } else if d == 3 {
        '3'
    } else if d == 4 {
        '4'
    } else if d == 5 {
        '5'
    } else if d == 6 {
        '6'
    } else if d == 7 {
        '7'
    } else if d == 8 {
        '8'
    } else {
        '9'
    }
}

/// The decimal digits of `n` as characters.
pub fn u64_dec_chars(n: u64) -> (r: Vec<char>)
    ensures
        r@ == spec_dec(n as nat),
    decreases n,
{
    if n < 10 {
        let mut r: Vec<char> = Vec::new();
        r.push(digit_char(n));
        proof {
            assert(r@ =~= seq![spec_digit(n as int)]);
        }
        r
    } else {
        let mut r = u64_dec_chars(n / 10);
        r.push(digit_char(n % 10));
        proof {
            assert(spec_dec((n / 10) as nat).push(spec_digit((n % 10) as int)) =~= spec_dec(
                (n / 10) as nat,
            ) + seq![spec_digit((n % 10) as int)]);
        }
        r
    }
}

/// Renders an unsigned value in decimal.
pub fn u64_string(n: u64) -> (r: String)
    ensures
        r@ == spec_dec(n as nat),
{
    let chars = u64_dec_chars(n);
    chars_string(&chars)
}

/// Renders a count in decimal.
pub fn usize_string(n: usize) -> (r: String)
    ensures
        r@ == spec_dec(n as nat),
{
    u64_string(n as u64)
}

/// Renders a signed value in decimal, with a leading minus sign when
/// negative.
pub fn i64_string(n: i64) -> (r: String)
    ensures
        r@ == spec_dec_i64(n as int),
{
    if n >= 0 {
        u64_string(n as u64)
    } else {
        let wide: i128 = n as i128;
        let mag: u64 = (-wide) as u64;
        let digits = u64_dec_chars(mag);
        let mut out = String::new();
        out.append("-");
        let ds = chars_string(&digits);
        out.append(ds.as_str());
        proof {
            assert(out@ =~= "-"@ + spec_dec(mag as nat));
            reveal_strlit("-");
            assert("-"@ =~= seq!['-']);
        }
        out
    }
}

/// Whether the string and the character vector spell the same text.
pub fn str_eq_chars(s: &str, v: &Vec<char>) -> (r: bool)
    ensures
        r == (s@ == v@),
{
    let n = s.unicode_len();
    if n != v.len() {
        return false;
    }
    let mut i: usize = 0;
    while i < n
        invariant
            0 <= i <= n,
            n == s@.len(),
            n == v@.len(),
            forall|j: int| 0 <= j < i ==> s@[j] == v@[j],
        decreases n - i,
    {
        if s.get_char(i) != v[i] {
            return false;
        }
        i = i + 1;
    }
    proof {
        assert(s@ =~= v@);
    }
    true
}

/// Whether two strings spell the same text.
pub fn str_eq(a: &str, b: &str) -> (r: bool)
    ensures
        r == (a@ == b@),
{
    let n = a.unicode_len();
    if n != b.unicode_len() {
        return false;
    }
    let mut i: usize = 0;
    while i < n
        invariant
            0 <= i <= n,
            n == a@.len(),
            n == b@.len(),
            forall|j: int| 0 <= j < i ==> a@[j] == b@[j],
        decreases n - i,
    {
        if a.get_char(i) != b.get_char(i) {
            return false;
        }
        i = i + 1;
    }
    proof {
        assert(a@ =~= b@);
    }
    true
}

/// Whether two character vectors spell the same text.
pub fn chars_eq(a: &Vec<char>, b: &Vec<char>) -> (r: bool)
    ensures
        r == (a@ == b@),
{
    let n = a.len();
    if n != b.len() {
        return false;
    }
    let mut i: usize = 0;
    while i < n
        invariant
            0 <= i <= n,
            n == a@.len(),
            n == b@.len(),
            forall|j: int| 0 <= j < i ==> a@[j] == b@[j],
        decreases n - i,
    {
        if a[i] != b[i] {
            return false;
        }
        i = i + 1;
    }
    proof {
        assert(a@ =~= b@);
    }
    true
}

/// Whitespace characters replaced by plain spaces; everything else kept.
pub open spec fn spec_normalize_ws(s: Seq<char>) -> Seq<char> {
    s.map_values(|c: char| if spec_is_space(c) { ' ' } else { c })
}

/// Replaces every whitespace character by a plain space.
pub fn normalize_ws(v: &Vec<char>) -> (r: Vec<char>)
    ensures
        r@ == spec_normalize_ws(v@),
{
    let n = v.len();
    let mut r: Vec<char> = Vec::new();
    let mut i: usize = 0;
    while i < n
        invariant
            0 <= i <= n,
            n == v@.len(),
            r@ == spec_normalize_ws(v@.take(i as int)),
        decreases n - i,
    {
        if is_space(v[i]) {
            r.push(' ');
        } else {
            r.push(v[i]);
        }
        proof {
            assert(spec_normalize_ws(v@.take(i + 1)) =~= spec_normalize_ws(v@.take(i as int)).push(
                if spec_is_space(v@[i as int]) { ' ' } else { v@[i as int] },
            ));
        }
        i = i + 1;
    }
    proof {
        assert(v@.take(n as int) =~= v@);
    }
    r
}

/// The whitespace-separated words of `s`, in order, each non-empty.
pub open spec fn spec_split_ws(s: Seq<char>) -> Seq<Seq<char>> {
    spec_split(spec_normalize_ws(s), ' ').filter(|t: Seq<char>| t.len() > 0)
}

/// Splits `v` into its whitespace-separated words.
pub fn split_ws(v: &Vec<char>) -> (r: Vec<Vec<char>>)
    ensures
        r@.map_values(|t: Vec<char>| t@) == spec_split_ws(v@),
{
    let normalized = normalize_ws(v);
    let pieces = split_char(&normalized, ' ');
    let mut r: Vec<Vec<char>> = Vec::new();
    let n = pieces.len();
    let mut i: usize = 0;
    proof {
        assert(pieces@.take(0int).map_values(|t: Vec<char>| t@) =~= Seq::<Seq<char>>::empty());
        lemma_filter_empty::<Seq<char>>(|t: Seq<char>| t.len() > 0);
        assert(r@.map_values(|t: Vec<char>| t@) =~= Seq::<Seq<char>>::empty());
    }
    while i < n
        invariant
            0 <= i <= n,
            n == pieces@.len(),
            r@.map_values(|t: Vec<char>| t@) == pieces@.take(i as int).map_values(
                |t: Vec<char>| t@,
            ).filter(|t: Seq<char>| t.len() > 0),
        decreases n - i,
    {
        proof {
            let pred = |t: Seq<char>| t.len() > 0;
            let prefix = pieces@.take(i as int).map_values(|t: Vec<char>| t@);
            lemma_filter_push(prefix, pieces@[i as int]@, pred);
            assert(pieces@.take(i + 1).map_values(|t: Vec<char>| t@) =~= prefix.push(
                pieces@[i as int]@,
            ));
            if pred(pieces@[i as int]@) {
                assert(r@.push(pieces@[i as int]).map_values(|t: Vec<char>| t@)
                    =~= r@.map_values(|t: Vec<char>| t@).push(pieces@[i as int]@));
            }
        }
        if pieces[i].len() > 0 {
            let piece = subrange_chars(&pieces[i], 0, pieces[i].len());
            proof {
                assert(piece@ =~= pieces@[i as int]@);
                assert(r@.push(piece).map_values(|t: Vec<char>| t@) =~= r@.map_values(
                    |t: Vec<char>| t@,
                ).push(piece@));
            }
            r.push(piece);
        }
        i = i + 1;
    }
    proof {
        assert(pieces@.take(n as int) =~= pieces@);
    }
    r
}

/// Filtering an empty sequence gives an empty sequence.
pub proof fn lemma_filter_empty<T>(pred: spec_fn(T) -> bool)
    ensures
        Seq::<T>::empty().filter(pred) == Seq::<T>::empty(),
{
    reveal(Seq::filter);
}

/// Filtering distributes over push: the pushed element is kept exactly when
/// it satisfies the predicate.
pub proof fn lemma_filter_push<T>(s: Seq<T>, x: T, pred: spec_fn(T) -> bool)
    ensures
        s.push(x).filter(pred) == if pred(x) {
            s.filter(pred).push(x)
        } else {
            s.filter(pred)
        },
{
    reveal(Seq::filter);
    assert(s.push(x).drop_last() =~= s);
    assert(s.push(x).last() == x);
}

/// The `Some` payloads of a sequence of options, in order.
pub open spec fn keep_some<T>(s: Seq<Option<T>>) -> Seq<T> {
    s.filter(|o: Option<T>| o is Some).map_values(|o: Option<T>| o->Some_0)
}

/// `keep_some` distributes over push.
pub proof fn lemma_keep_some_push<T>(s: Seq<Option<T>>, o: Option<T>)
    ensures
        keep_some(s.push(o)) == if o is Some {
            keep_some(s).push(o->Some_0)
        } else {
            keep_some(s)
        },
{
    let pred = |x: Option<T>| x is Some;
    lemma_filter_push(s, o, pred);
    if o is Some {
        assert(s.filter(pred).push(o).map_values(|x: Option<T>| x->Some_0) =~= s.filter(
            pred,
        ).map_values(|x: Option<T>| x->Some_0).push(o->Some_0));
    }
}

/// `keep_some` of the empty sequence is empty.
pub proof fn lemma_keep_some_empty<T>()
    ensures
        keep_some(Seq::<Option<T>>::empty()) == Seq::<T>::empty(),
{
    lemma_filter_empty::<Option<T>>(|o: Option<T>| o is Some);
    assert(Seq::<Option<T>>::empty().filter(|o: Option<T>| o is Some).map_values(
        |o: Option<T>| o->Some_0,
    ) =~= Seq::<T>::empty());
}

/// The lines of a text: pieces between newline characters, without a final
/// empty piece for a trailing newline, and with one trailing carriage return
/// stripped from each line.
pub open spec fn spec_strip_cr(l: Seq<char>) -> Seq<char> {
    if l.len() > 0 && l.last() == '\r' {
        l.drop_last()
    } else {
        l
    }
}

pub open spec fn spec_lines(s: Seq<char>) -> Seq<Seq<char>> {
    if s.len() == 0 {
        Seq::empty()
    } else {
        let pieces = spec_split(s, '\n');
        let trimmed = if s.last() == '\n' {
            pieces.take(pieces.len() - 1)
        } else {
            pieces
        };
        trimmed.map_values(|l: Seq<char>| spec_strip_cr(l))
    }
}

/// Splits a text into its lines.
pub fn lines_chars(v: &Vec<char>) -> (r: Vec<Vec<char>>)
    ensures
        r@.map_values(|t: Vec<char>| t@) == spec_lines(v@),
{
    let n = v.len();
    let mut r: Vec<Vec<char>> = Vec::new();
    if n == 0 {
        proof {
            assert(r@.map_values(|t: Vec<char>| t@) =~= Seq::<Seq<char>>::empty());
        }
        return r;
    }
    let mut pieces = split_char(v, '\n');
    let ghost all_pieces = pieces@.map_values(|t: Vec<char>| t@);
    if v[n - 1] == '\n' {
        proof {
            lemma_split_count(v@, '\n');
        }
        pieces.pop();
        proof {
            assert(pieces@.map_values(|t: Vec<char>| t@) =~= all_pieces.take(
                all_pieces.len() - 1,
            ));
        }
    }
    let ghost kept = pieces@.map_values(|t: Vec<char>| t@);
    let m = pieces.len();
    let mut i: usize = 0;
    proof {
        assert(r@.map_values(|t: Vec<char>| t@) =~= kept.take(0int).map_values(
            |l: Seq<char>| spec_strip_cr(l),
        ));
    }
    while i < m
        invariant
            0 <= i <= m,
            m == pieces@.len(),
            kept == pieces@.map_values(|t: Vec<char>| t@),
            r@.map_values(|t: Vec<char>| t@) == kept.take(i as int).map_values(
                |l: Seq<char>| spec_strip_cr(l),
            ),
        decreases m - i,
    {
        let piece = &pieces[i];
        let len = piece.len();
        let stripped = if len > 0 && piece[len - 1] == '\r' {
            subrange_chars(piece, 0, len - 1)
        } else {
            subrange_chars(piece, 0, len)
        };
        proof {
            if len > 0 && piece@[len - 1] == '\r' {
                assert(stripped@ =~= piece@.drop_last());
            } else {
                assert(stripped@ =~= piece@);
            }
            assert(stripped@ == spec_strip_cr(kept[i as int]));
            assert(kept.take(i + 1).map_values(|l: Seq<char>| spec_strip_cr(l)) =~= kept.take(
                i as int,
            ).map_values(|l: Seq<char>| spec_strip_cr(l)).push(spec_strip_cr(kept[i as int])));
            assert(r@.push(stripped).map_values(|t: Vec<char>| t@) =~= r@.map_values(
                |t: Vec<char>| t@,
            ).push(stripped@));
        }
        r.push(stripped);
        i = i + 1;
    }
    proof {
        assert(kept.take(m as int) =~= kept);
    }
    r
}

/// A split always yields at least one piece.
pub proof fn lemma_split_count(s: Seq<char>, sep: char)
    ensures
        spec_split(s, sep).len() >= 1,
    decreases s.len(),
{
    let i = spec_find(s, sep);
    if 0 <= i < s.len() {
        lemma_split_count(s.skip(i + 1), sep);
    }
}

/// Whether `c` is a decimal digit.
pub open spec fn spec_is_digit(c: char) -> bool {
    '0' <= c <= '9'
}

/// The value of a decimal digit character.
pub open spec fn spec_digit_val(c: char) -> int {
    c as int - 48
}

/// Whether every character of `s` is a decimal digit.
pub open spec fn spec_all_digits(s: Seq<char>) -> bool {
    forall|i: int| 0 <= i < s.len() ==> spec_is_digit(s[i])
}

/// The value of a sequence of decimal digits, most significant first.
pub open spec fn spec_digits_val(s: Seq<char>) -> int
    decreases s.len(),
{
    if s.len() == 0 {
        0
    } else {
        spec_digits_val(s.drop_last()) * 10 + spec_digit_val(s.last())
    }
}

/// A digit sequence has a non-negative value.
pub proof fn lemma_digits_val_nonneg(s: Seq<char>)
    requires
        spec_all_digits(s),
    ensures
        spec_digits_val(s) >= 0,
    decreases s.len(),
{
    if s.len() > 0 {
        assert(spec_all_digits(s.drop_last())) by {
            assert(forall|i: int| 0 <= i < s.len() - 1 ==> s.drop_last()[i] == s[i]);
        }
        lemma_digits_val_nonneg(s.drop_last());
        assert(spec_digit_val(s.last()) >= 0);
    }
}

/// Extending a digit sequence can only grow its value.
pub proof fn lemma_digits_val_monotone(s: Seq<char>, i: int)
    requires
        spec_all_digits(s),
        0 <= i <= s.len(),
    ensures
        spec_digits_val(s.take(i)) <= spec_digits_val(s),
    decreases s.len() - i,
{
    if i == s.len() {
        assert(s.take(i) =~= s);
    } else {
        lemma_digits_val_monotone(s, i + 1);
        assert(s.take(i + 1).drop_last() =~= s.take(i));
        assert(s.take(i + 1).last() == s[i]);
        assert(spec_all_digits(s.take(i))) by {
            assert(forall|j: int| 0 <= j < i ==> s.take(i)[j] == s[j]);
        }
        lemma_digits_val_nonneg(s.take(i));
        assert(spec_digits_val(s.take(i + 1)) == spec_digits_val(s.take(i)) * 10 + spec_digit_val(
            s[i],
        ));
        assert(spec_digits_val(s.take(i)) * 10 >= spec_digits_val(s.take(i))) by (nonlinear_arith)
            requires
                spec_digits_val(s.take(i)) >= 0,
        ;
    }
}

/// What a decimal integer literal denotes: an optional sign, then at least
/// one digit, rejecting anything else and any value outside the `i64` range.
pub open spec fn spec_parse_i64(s: Seq<char>) -> Option<i64> {
    let neg = s.len() > 0 && s[0] == '-';
    let ds = if s.len() > 0 && (s[0] == '-' || s[0] == '+') {
        s.drop_first()
    } else {
        s
    };
    if ds.len() == 0 || !spec_all_digits(ds) {
        None
    } else {
        let v = spec_digits_val(ds);
        if neg {
            if v <= 0x8000_0000_0000_0000 {
                Some((-v) as i64)
            } else {
                None
            }
        } else {
            if v <= 0x7fff_ffff_ffff_ffff {
                Some(v as i64)
            } else {
                None
            }
        }
    }
}

/// Parses a decimal integer.
pub fn parse_i64_chars(v: &Vec<char>) -> (r: Option<i64>)
    ensures
        r == spec_parse_i64(v@),
{
    let n = v.len();
    if n == 0 {
        return None;
    }
    let mut start: usize = 0;
    let mut neg = false;
    if v[0] == '-' {
        neg = true;
        start = 1;
    } else if v[0] == '+' {
        start = 1;
    }
    let ghost ds = if v@[0] == '-' || v@[0] == '+' {
        v@.drop_first()
    } else {
        v@
    };
    proof {
        assert(ds =~= v@.subrange(start as int, n as int));
    }
    if start == n {
        return None;
    }
    let bound: u128 = 0x8000_0000_0000_0000;
    let mut acc: u128 = 0;
    let mut i: usize = start;
    while i < n
        invariant
            start <= i <= n,
            n == v@.len(),
            start < n,
            bound == 0x8000_0000_0000_0000,
            neg == (v@[0] == '-'),
            start == if v@[0] == '-' || v@[0] == '+' { 1int } else { 0int },
            ds == v@.subrange(start as int, n as int),
            ds == if v@[0] == '-' || v@[0] == '+' { v@.drop_first() } else { v@ },
            spec_all_digits(ds.take(i - start)),
            acc == spec_digits_val(ds.take(i - start)),
            acc <= 0x8000_0000_0000_0000,
        decreases n - i,
    {
        let c = v[i];
        if !('0' <= c && c <= '9') {
            proof {
                assert(ds[i - start] == c);
                assert(!spec_is_digit(ds[i - start]));
                assert(!spec_all_digits(ds));
            }
            return None;
        }
        let d: u128 = ((c as u32) - 48) as u128;
        proof {
            assert(ds.take(i - start + 1).drop_last() =~= ds.take(i - start));
            assert(ds.take(i - start + 1).last() == ds[i - start]);
            assert(ds[i - start] == c);
            assert(d == spec_digit_val(c));
        }
        acc = acc * 10 + d;
        i = i + 1;
        if acc > bound {
            proof {
                if spec_all_digits(ds) {
                    lemma_digits_val_monotone(ds, i - start);
                    assert(spec_digits_val(ds) >= acc);
                }
            }
            return None;
        }
    }
    proof {
        assert(ds.take(n - start) =~= ds);
    }
    if neg {
        let val: i64 = if acc == bound {
            i64::MIN
        } else {
            -((acc as u64) as i64)
        };
        Some(val)
    } else {
        if acc > 0x7fff_ffff_ffff_ffff {
            return None;
        }
        Some(acc as i64)
    }
}

/// ASCII lower-casing of one character; anything outside `A..Z` stays.
pub open spec fn spec_lower(c: char) -> char {
    if 'A' <= c <= 'Z' {
        ((c as u8) + 32) as char
    } else {
        c
    }
}

/// Lower-cases one ASCII letter.
pub fn lower_char(c: char) -> (r: char)
    ensures
        r == spec_lower(c),
{
    if 'A' <= c && c <= 'Z' {
        (((c as u8) + 32) as char)
    } else {
        c
    }
}

/// ASCII lower-casing of a sequence.
pub open spec fn spec_lower_seq(s: Seq<char>) -> Seq<char> {
    s.map_values(|c: char| spec_lower(c))
}

/// Lower-cases every ASCII letter of the vector.
pub fn lower_chars(v: &Vec<char>) -> (r: Vec<char>)
    ensures
        r@ == spec_lower_seq(v@),
{
    let n = v.len();
    let mut r: Vec<char> = Vec::new();
    let mut i: usize = 0;
    while i < n
        invariant
            0 <= i <= n,
            n == v@.len(),
            r@ == spec_lower_seq(v@.take(i as int)),
        decreases n - i,
    {
        r.push(lower_char(v[i]));
        proof {
            assert(spec_lower_seq(v@.take(i + 1)) =~= spec_lower_seq(v@.take(i as int)).push(
                spec_lower(v@[i as int]),
            ));
        }
        i = i + 1;
    }
    proof {
        assert(v@.take(n as int) =~= v@);
    }
    r
}


/// Whether `needle` occurs in `hay` as a contiguous run.
pub open spec fn spec_contains_sub(hay: Seq<char>, needle: Seq<char>) -> bool {
    exists|i: int|
        0 <= i <= hay.len() - needle.len() && #[trigger] hay.subrange(i, i + needle.len())
            == needle
}

/// Searches for a contiguous occurrence of `needle`.
pub fn contains_sub(hay: &Vec<char>, needle: &str) -> (r: bool)
    ensures
        r == spec_contains_sub(hay@, needle@),
{
    let nlen = needle.unicode_len();
    let hlen = hay.len();
    if nlen > hlen {
        proof {
            assert(!spec_contains_sub(hay@, needle@));
        }
        return false;
    }
    let needle_chars = str_chars(needle);
    let mut i: usize = 0;
    while i <= hlen - nlen
        invariant
            0 <= i <= hlen - nlen + 1,
            nlen <= hlen,
            hlen == hay@.len(),
            nlen == needle@.len(),
            needle_chars@ == needle@,
            forall|m: int|
                0 <= m < i ==> #[trigger] hay@.subrange(m, m + needle@.len()) != needle@,
        decreases hlen - nlen - i + 1,
    {
        let mut j: usize = 0;
        let mut matches = true;
        while j < nlen
            invariant
                0 <= j <= nlen,
                0 <= i <= hlen - nlen,
                hlen == hay@.len(),
                nlen == needle@.len(),
                needle_chars@ == needle@,
                matches == (forall|m: int| 0 <= m < j ==> hay@[i + m] == needle@[m]),
            decreases nlen - j,
        {
            proof {
                assert(needle_chars@[j as int] == needle@[j as int]);
            }
            if hay[i + j] != needle_chars[j] {
                matches = false;
            }
            j = j + 1;
        }
        if matches {
            proof {
                assert(hay@.subrange(i as int, i + needle@.len()) =~= needle@);
            }
            return true;
        }
        proof {
            assert(hay@.subrange(i as int, i + needle@.len()) != needle@) by {
                let sub = hay@.subrange(i as int, i + needle@.len());
                let m = choose|m: int| 0 <= m < needle@.len() && hay@[i + m] != needle@[m];
                assert(sub[m] == hay@[i + m]);
            }
        }
        i = i + 1;
    }
    proof {
        assert(!spec_contains_sub(hay@, needle@));
    }
    false
}


/// A non-empty start-trimmed sequence begins with a non-space character.
pub proof fn lemma_trim_start_first(s: Seq<char>)
    ensures
        spec_trim_start(s).len() > 0 ==> !spec_is_space(spec_trim_start(s)[0]),
    decreases s.len(),
{
    if s.len() > 0 && spec_is_space(s[0]) {
        lemma_trim_start_first(s.drop_first());
    }
}

/// A non-empty end-trimmed sequence ends with a non-space character.
pub proof fn lemma_trim_end_last(s: Seq<char>)
    ensures
        spec_trim_end(s).len() > 0 ==> !spec_is_space(spec_trim_end(s).last()),
    decreases s.len(),
{
    if s.len() > 0 && spec_is_space(s.last()) {
        lemma_trim_end_last(s.drop_last());
    }
}

/// End-trimming keeps the first character.
pub proof fn lemma_trim_end_first(s: Seq<char>)
    ensures
        spec_trim_end(s).len() > 0 ==> spec_trim_end(s)[0] == s[0],
    decreases s.len(),
{
    if s.len() > 0 && spec_is_space(s.last()) {
        lemma_trim_end_first(s.drop_last());
    }
}

/// The start-trim of a sequence is one of its suffixes.
pub proof fn lemma_trim_start_skip(s: Seq<char>)
    ensures
        exists|k: int| 0 <= k <= s.len() && spec_trim_start(s) == s.skip(k),
    decreases s.len(),
{
    if s.len() > 0 && spec_is_space(s[0]) {
        lemma_trim_start_skip(s.drop_first());
        let k = choose|k: int|
            0 <= k <= s.drop_first().len() && spec_trim_start(s.drop_first())
                == s.drop_first().skip(k);
        assert(s.drop_first().skip(k) =~= s.skip(k + 1));
    } else {
        assert(s.skip(0) =~= s);
    }
}

/// The end-trim of a sequence is one of its prefixes.
pub proof fn lemma_trim_end_take(s: Seq<char>)
    ensures
        exists|m: int| 0 <= m <= s.len() && spec_trim_end(s) == s.take(m),
    decreases s.len(),
{
    if s.len() > 0 && spec_is_space(s.last()) {
        lemma_trim_end_take(s.drop_last());
        let m = choose|m: int|
            0 <= m <= s.drop_last().len() && spec_trim_end(s.drop_last()) == s.drop_last().take(m);
        assert(s.drop_last().take(m) =~= s.take(m));
    } else {
        assert(s.take(s.len() as int) =~= s);
    }
}

/// Trimming cannot introduce a character the sequence does not have.
pub proof fn lemma_trim_no_char(s: Seq<char>, ch: char)
    requires
        forall|i: int| 0 <= i < s.len() ==> s[i] != ch,
    ensures
        forall|j: int| 0 <= j < spec_trim(s).len() ==> spec_trim(s)[j] != ch,
{
    lemma_trim_start_skip(s);
    let k = choose|k: int| 0 <= k <= s.len() && spec_trim_start(s) == s.skip(k);
    let t1 = spec_trim_start(s);
    lemma_trim_end_take(t1);
    let m = choose|m: int| 0 <= m <= t1.len() && spec_trim_end(t1) == t1.take(m);
    assert forall|j: int| 0 <= j < spec_trim(s).len() implies spec_trim(s)[j] != ch by {
        assert(spec_trim(s)[j] == t1[j]);
        assert(t1[j] == s[k + j]);
    }
}

/// A sequence with non-space ends trims to itself.
pub proof fn lemma_trim_id(s: Seq<char>)
    requires
        s.len() > 0,
        !spec_is_space(s[0]),
        !spec_is_space(s.last()),
    ensures
        spec_trim(s) == s,
{
    assert(spec_trim_start(s) == s);
    assert(spec_trim_end(s) == s);
}

/// Lower-casing a sequence without upper-case ASCII letters is the identity.
pub proof fn lemma_lower_id(s: Seq<char>)
    requires
        forall|i: int| 0 <= i < s.len() ==> !('A' <= #[trigger] s[i] <= 'Z'),
    ensures
        spec_lower_seq(s) == s,
{
    assert(spec_lower_seq(s) =~= s);
}

/// Splitting at a leading separator-free word: the word comes off whole.
pub proof fn lemma_split_cons(word: Seq<char>, rest: Seq<char>, sep: char)
    requires
        forall|i: int| 0 <= i < word.len() ==> word[i] != sep,
    ensures
        spec_split(word + seq![sep] + rest, sep) == seq![word] + spec_split(rest, sep),
{
    let s = word + seq![sep] + rest;
    let k = word.len() as int;
    assert(s[k] == sep);
    assert forall|j: int| 0 <= j < k implies s[j] != sep by {
        assert(s[j] == word[j]);
    }
    lemma_find_is(s, sep, k);
    assert(s.take(k) =~= word);
    assert(s.skip(k + 1) =~= rest);
}

/// Splitting a separator-free sequence yields just that sequence.
pub proof fn lemma_split_single(s: Seq<char>, sep: char)
    requires
        forall|i: int| 0 <= i < s.len() ==> s[i] != sep,
    ensures
        spec_split(s, sep) == seq![s],
{
    lemma_find_none(s, sep);
}

/// No piece of a split contains the separator.
pub proof fn lemma_split_pieces_free(s: Seq<char>, sep: char)
    ensures
        forall|p: int, j: int|
            0 <= p < spec_split(s, sep).len() && 0 <= j < spec_split(s, sep)[p].len()
                ==> #[trigger] spec_split(s, sep)[p][j] != sep,
    decreases s.len(),
{
    lemma_find_properties(s, sep);
    let i = spec_find(s, sep);
    if 0 <= i < s.len() {
        lemma_split_pieces_free(s.skip(i + 1), sep);
        assert forall|p: int, j: int|
            0 <= p < spec_split(s, sep).len() && 0 <= j < spec_split(s, sep)[p].len()
            implies #[trigger] spec_split(s, sep)[p][j] != sep by {
            if p == 0 {
                assert(spec_split(s, sep)[0] == s.take(i));
                assert(s.take(i)[j] == s[j]);
            } else {
                assert(spec_split(s, sep)[p] == spec_split(s.skip(i + 1), sep)[p - 1]);
            }
        }
    } else {
        assert forall|p: int, j: int|
            0 <= p < spec_split(s, sep).len() && 0 <= j < spec_split(s, sep)[p].len()
            implies #[trigger] spec_split(s, sep)[p][j] != sep by {
            assert(spec_split(s, sep)[0] == s);
        }
    }
}


/// Strict lexicographic order on character sequences, by code point; a
/// proper prefix comes first.
pub open spec fn spec_lex_lt(a: Seq<char>, b: Seq<char>) -> bool
    decreases a.len(),
{
    if b.len() == 0 {
        false
    } else if a.len() == 0 {
        true
    } else if a[0] == b[0] {
        spec_lex_lt(a.drop_first(), b.drop_first())
    } else {
        (a[0] as int) < (b[0] as int)
    }
}

/// The order is irreflexive.
pub proof fn lemma_lex_irrefl(a: Seq<char>)
    ensures
        !spec_lex_lt(a, a),
    decreases a.len(),
{
    if a.len() > 0 {
        lemma_lex_irrefl(a.drop_first());
    }
}

/// Any two sequences are ordered or equal.
pub proof fn lemma_lex_connex(a: Seq<char>, b: Seq<char>)
    ensures
        a == b || spec_lex_lt(a, b) || spec_lex_lt(b, a),
    decreases a.len(),
{
    if a.len() == 0 {
        if b.len() == 0 {
            assert(a =~= b);
        }
    } else if b.len() == 0 {
    } else if a[0] == b[0] {
        lemma_lex_connex(a.drop_first(), b.drop_first());
        if a.drop_first() == b.drop_first() {
            assert(a.drop_first().len() == b.drop_first().len());
            assert(a.drop_first().len() == a.len() - 1);
            assert(b.drop_first().len() == b.len() - 1);
            assert(a.len() == b.len());
            assert forall|i: int| 0 <= i < a.len() implies a[i] == b[i] by {
                if i > 0 {
                    assert(a.drop_first()[i - 1] == b.drop_first()[i - 1]);
                }
            }
            assert(a =~= b);
        }
    }
}

/// With a common prefix up to the first difference, that character decides
/// the order.
pub proof fn lemma_lex_at_diff(a: Seq<char>, b: Seq<char>, i: int)
    requires
        0 <= i < a.len(),
        i < b.len(),
        forall|j: int| 0 <= j < i ==> a[j] == b[j],
        a[i] != b[i],
    ensures
        spec_lex_lt(a, b) == ((a[i] as int) < (b[i] as int)),
    decreases i,
{
    if i > 0 {
        assert(a[0] == b[0]);
        assert forall|j: int| 0 <= j < i - 1 implies a.drop_first()[j] == b.drop_first()[j] by {
            assert(a[j + 1] == b[j + 1]);
        }
        assert(a.drop_first()[i - 1] != b.drop_first()[i - 1]);
        lemma_lex_at_diff(a.drop_first(), b.drop_first(), i - 1);
    }
}

/// When one sequence is a prefix of the other, the shorter comes first.
pub proof fn lemma_lex_prefix(a: Seq<char>, b: Seq<char>)
    requires
        forall|j: int| 0 <= j < spec_min(a.len() as int, b.len() as int) ==> a[j] == b[j],
    ensures
        spec_lex_lt(a, b) == (a.len() < b.len()),
    decreases a.len(),
{
    if a.len() == 0 {
    } else if b.len() == 0 {
    } else {
        assert(a[0] == b[0]);
        assert forall|j: int|
            0 <= j < spec_min(a.drop_first().len() as int, b.drop_first().len() as int)
            implies a.drop_first()[j] == b.drop_first()[j] by {
            assert(a[j + 1] == b[j + 1]);
        }
        lemma_lex_prefix(a.drop_first(), b.drop_first());
    }
}

/// The smaller of two values.
pub open spec fn spec_min(a: int, b: int) -> int {
    if a < b {
        a
    } else {
        b
    }
}


/// The order is transitive.
pub proof fn lemma_lex_trans(a: Seq<char>, b: Seq<char>, c: Seq<char>)
    requires
        spec_lex_lt(a, b),
        spec_lex_lt(b, c),
    ensures
        spec_lex_lt(a, c),
    decreases a.len() + b.len() + c.len(),
{
    if a.len() == 0 {
    } else {
        // b and c are non-empty, or the hypotheses could not hold
        if a[0] == b[0] {
            if b[0] == c[0] {
                lemma_lex_trans(a.drop_first(), b.drop_first(), c.drop_first());
            }
        }
    }
}

} // verus!

