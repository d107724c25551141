//! Character-level helpers on strings, each with the meaning that std gives
//! the method of the same name.

use vstd::prelude::*;
use vstd::std_specs::iter::IteratorSpec;
use vstd::string::*;

verus! {

broadcast use vstd::string::group_string_axioms;

/// The characters of `s`, in order.
pub fn chars_of(s: &str) -> (v: Vec<char>)
    ensures
        v@ == s@,
{
    let mut v: Vec<char> = Vec::new();
    for c in it: s.chars()
        invariant
            it.seq() == s@,
            v@ == it.seq().take(it.index()),
    {
        v.push(c);
    }
    v
}

/// An owned copy of the characters `from..to` of `s`.
pub fn substring(s: &str, from: usize, to: usize) -> (r: String)
    requires
        from <= to <= s@.len(),
    ensures
        r@ == s@.subrange(from as int, to as int),
{
    s.substring_char(from, to).to_owned()
}

/// First position of `c` in `s`, or -1 when `c` does not occur.
pub open spec fn index_of(s: Seq<char>, c: char) -> int
    decreases s.len(),
{
    if s.len() == 0 {
        -1
    } else if s[0] == c {
        0
    } else {
        let k = index_of(s.drop_first(), c);
        if k < 0 {
            -1
        } else {
            k + 1
        }
    }
}

/// Last position of `c` in `s`, or -1 when `c` does not occur.
pub open spec fn last_index_of(s: Seq<char>, c: char) -> int
    decreases s.len(),
{
    if s.len() == 0 {
        -1
    } else if s.last() == c {
        s.len() - 1
    } else {
        last_index_of(s.drop_last(), c)
    }
}

pub proof fn lemma_index_of(s: Seq<char>, c: char)
    ensures
        -1 <= index_of(s, c) < s.len(),
        index_of(s, c) >= 0 ==> s[index_of(s, c)] == c,
        forall|j: int| 0 <= j < s.len() && (index_of(s, c) < 0 || j < index_of(s, c)) ==> s[j]
            != c,
    decreases s.len(),
{
    if s.len() > 0 && s[0] != c {
        lemma_index_of(s.drop_first(), c);
        assert forall|j: int|
            0 <= j < s.len() && (index_of(s, c) < 0 || j < index_of(s, c)) implies s[j] != c by {
            if j > 0 {
                assert(s[j] == s.drop_first()[j - 1]);
            }
        }
    }
}

pub proof fn lemma_last_index_of(s: Seq<char>, c: char)
    ensures
        -1 <= last_index_of(s, c) < s.len(),
        last_index_of(s, c) >= 0 ==> s[last_index_of(s, c)] == c,
        forall|j: int| last_index_of(s, c) < j < s.len() ==> s[j] != c,
    decreases s.len(),
{
    if s.len() > 0 && s.last() != c {
        lemma_last_index_of(s.drop_last(), c);
        assert forall|j: int| last_index_of(s, c) < j < s.len() implies s[j] != c by {
            if j < s.len() - 1 {
                assert(s[j] == s.drop_last()[j]);
            }
        }
    }
}

/// `index_of` is the first position that holds `c`.
pub proof fn lemma_index_of_is(s: Seq<char>, c: char, k: int)
    requires
        0 <= k <= s.len(),
        k < s.len() ==> s[k] == c,
        forall|j: int| 0 <= j < k ==> s[j] != c,
    ensures
        index_of(s, c) == (if k < s.len() {
            k
        } else {
            -1
        }),
{
    lemma_index_of(s, c);
}

/// `last_index_of` is the last position that holds `c`.
pub proof fn lemma_last_index_of_is(s: Seq<char>, c: char, k: int)
    requires
        -1 <= k < s.len(),
        k >= 0 ==> s[k] == c,
        forall|j: int| k < j < s.len() ==> s[j] != c,
    ensures
        last_index_of(s, c) == k,
{
    lemma_last_index_of(s, c);
}

/// A line without the carriage return that ends it, if any.
pub open spec fn strip_cr(l: Seq<char>) -> Seq<char> {
    if l.len() > 0 && l.last() == '\r' {
        l.drop_last()
    } else {
        l
    }
}

/// The lines of `s` as `str::lines` yields them: split at each `\n`, a `\r`
/// just before a `\n` dropped, and no empty line after a final `\n`.
pub open spec fn split_lines(s: Seq<char>) -> Seq<Seq<char>>
    decreases s.len(),
{
    if s.len() == 0 {
        seq![]
    } else {
        let k = index_of(s, '\n');
        if k < 0 {
            seq![s]
        } else {
            proof {
                lemma_index_of(s, '\n');
            }
            seq![strip_cr(s.take(k))] + split_lines(s.skip(k + 1))
        }
    }
}

/// `str::lines` splits at each line feed: no line holds one; text without a
/// line feed is one line (none when empty); text with one is its first
/// line, without a carriage return that ends it, then the lines of what
/// follows the line feed.
pub proof fn law_lines_split_at_line_feeds(s: Seq<char>)
    ensures
        forall|i: int| 0 <= i < split_lines(s).len() ==> !(#[trigger] split_lines(s)[i]).contains('\n'),
        s.len() == 0 ==> split_lines(s).len() == 0,
        s.len() > 0 && !s.contains('\n') ==> split_lines(s) == seq![s],
        forall|k: int|
            0 <= k < s.len() && #[trigger] s[k] == '\n' && !s.take(k).contains('\n') ==> split_lines(s)
                == seq![strip_cr(s.take(k))] + split_lines(s.skip(k + 1)),
    decreases s.len(),
{
    if s.len() > 0 {
        lemma_index_of(s, '\n');
        let k = index_of(s, '\n');
        if k >= 0 {
            law_lines_split_at_line_feeds(s.skip(k + 1));
            let first = strip_cr(s.take(k));
            assert forall|j: int| 0 <= j < first.len() implies first[j] != '\n' by {
                assert(first[j] == s[j]);
            }
            assert forall|i: int| 0 <= i < split_lines(s).len() implies !(#[trigger] split_lines(
                s,
            )[i]).contains('\n') by {
                if i > 0 {
                    assert(split_lines(s)[i] == split_lines(s.skip(k + 1))[i - 1]);
                }
            }
            assert forall|m: int|
                0 <= m < s.len() && #[trigger] s[m] == '\n' && !s.take(m).contains('\n') implies m
                == k by {
                if m > k {
                    assert(s.take(m)[k] == '\n');
                }
            }
        } else {
            assert forall|m: int| 0 <= m < s.len() implies #[trigger] s[m] != '\n' by {}
        }
    }
}

/// The views of a sequence of strings.
pub open spec fn views(v: Seq<String>) -> Seq<Seq<char>> {
    v.map_values(|l: String| l@)
}

/// The lines of `s`, as `str::lines` yields them.
pub fn lines_of(s: &str) -> (v: Vec<String>)
    ensures
        views(v@) == split_lines(s@),
{
    let cs = chars_of(s);
    let n = cs.len();
    let mut v: Vec<String> = Vec::new();
    let mut start: usize = 0;
    let mut i: usize = 0;
    assert(s@.skip(0) =~= s@);
    assert(views(v@) + split_lines(s@) =~= split_lines(s@));
    while i < n
        invariant
            cs@ == s@,
            n == cs@.len(),
            start <= i <= n,
            forall|j: int| start <= j < i ==> cs@[j] != '\n',
            views(v@) + split_lines(s@.skip(start as int)) == split_lines(s@),
        decreases n - i,
    {
        if cs[i] == '\n' {
            let ghost rest = s@.skip(start as int);
            proof {
                lemma_index_of_is(rest, '\n', (i - start) as int);
                assert(rest.take((i - start) as int) =~= s@.subrange(start as int, i as int));
                assert(rest.skip((i - start) + 1) =~= s@.skip(i + 1));
            }
            let end: usize = if i > start && cs[i - 1] == '\r' {
                i - 1
            } else {
                i
            };
            let line = substring(s, start, end);
            assert(line@ == strip_cr(rest.take((i - start) as int)));
            let ghost before = v@;
            let ghost lv = line@;
            v.push(line);
            proof {
                assert(views(v@) =~= views(before).push(lv));
            }
            start = i + 1;
        }
        i = i + 1;
    }
    if start < n {
        let ghost rest = s@.skip(start as int);
        proof {
            lemma_index_of_is(rest, '\n', rest.len() as int);
        }
        let line = substring(s, start, n);
        assert(line@ =~= rest);
        let ghost before = v@;
        let ghost lv = line@;
        v.push(line);
        proof {
            assert(views(v@) =~= views(before).push(lv));
        }
    }
    assert(split_lines(s@.skip(n as int)) =~= seq![]) by {
        assert(s@.skip(n as int).len() == 0);
    }
    v
}

/// The characters that `str::trim` and friends remove.
#[derive(Clone, Copy, Debug, PartialEq, Eq)]
pub enum TrimSet {
    /// Unicode `White_Space`, as `char::is_whitespace` reads it.
    WhiteSpace,
    /// The double quote `"`.
    Quote,
}

/// `char::is_whitespace`: the code points with the Unicode `White_Space` property.
pub open spec fn is_white_space(c: char) -> bool {
    let u = c as u32;
    ||| 0x9 <= u <= 0xd
    ||| u == 0x20
    ||| u == 0x85
    ||| u == 0xa0
    ||| u == 0x1680
    ||| 0x2000 <= u <= 0x200a
    ||| u == 0x2028
    ||| u == 0x2029
    ||| u == 0x202f
    ||| u == 0x205f
    ||| u == 0x3000
}

pub open spec fn in_trim_set(set: TrimSet, c: char) -> bool {
    match set {
        TrimSet::WhiteSpace => is_white_space(c),
        TrimSet::Quote => c == '"',
    }
}

fn is_in_trim_set(set: TrimSet, c: char) -> (b: bool)
    ensures
        b == in_trim_set(set, c),
{
    match set {
        TrimSet::WhiteSpace => {
            let u = c as u32;
            (0x9 <= u && u <= 0xd) || u == 0x20 || u == 0x85 || u == 0xa0 || u == 0x1680 || (0x2000
                <= u && u <= 0x200a) || u == 0x2028 || u == 0x2029 || u == 0x202f || u == 0x205f
                || u == 0x3000
        },
        TrimSet::Quote => c == '"',
    }
}

/// `s` without the characters of `set` at its start.
pub open spec fn trim_start(s: Seq<char>, set: TrimSet) -> Seq<char>
    decreases s.len(),
{
    if s.len() > 0 && in_trim_set(set, s[0]) {
        trim_start(s.drop_first(), set)
    } else {
        s
    }
}

/// `s` without the characters of `set` at its end.
pub open spec fn trim_end(s: Seq<char>, set: TrimSet) -> Seq<char>
    decreases s.len(),
{
    if s.len() > 0 && in_trim_set(set, s.last()) {
        trim_end(s.drop_last(), set)
    } else {
        s
    }
}

/// `s` without the characters of `set` at either end (`str::trim`,
/// `str::trim_matches`).
pub open spec fn trim(s: Seq<char>, set: TrimSet) -> Seq<char> {
    trim_end(trim_start(s, set), set)
}

/// Where `trim_start` cuts: the characters before position `a` are in the
/// set, the one at `a` (if any) is not.
proof fn lemma_trim_start(s: Seq<char>, set: TrimSet) -> (a: int)
    ensures
        0 <= a <= s.len(),
        trim_start(s, set) == s.skip(a),
        forall|i: int| 0 <= i < a ==> in_trim_set(set, #[trigger] s[i]),
        a < s.len() ==> !in_trim_set(set, s[a]),
    decreases s.len(),
{
    if s.len() > 0 && in_trim_set(set, s[0]) {
        let a0 = lemma_trim_start(s.drop_first(), set);
        assert(s.drop_first().skip(a0) =~= s.skip(a0 + 1));
        assert forall|i: int| 0 <= i < a0 + 1 implies in_trim_set(set, #[trigger] s[i]) by {
            if i > 0 {
                assert(s[i] == s.drop_first()[i - 1]);
            }
        }
        a0 + 1
    } else {
        assert(s.skip(0) =~= s);
        0
    }
}

/// Where `trim_end` cuts: the characters from position `b` on are in the
/// set, the one before `b` (if any) is not.
proof fn lemma_trim_end(s: Seq<char>, set: TrimSet) -> (b: int)
    ensures
        0 <= b <= s.len(),
        trim_end(s, set) == s.take(b),
        forall|i: int| b <= i < s.len() ==> in_trim_set(set, #[trigger] s[i]),
        b > 0 ==> !in_trim_set(set, s[b - 1]),
    decreases s.len(),
{
    if s.len() > 0 && in_trim_set(set, s.last()) {
        let b0 = lemma_trim_end(s.drop_last(), set);
        assert(s.drop_last().take(b0) =~= s.take(b0));
        assert forall|i: int| b0 <= i < s.len() implies in_trim_set(set, #[trigger] s[i]) by {
            if i < s.len() - 1 {
                assert(s[i] == s.drop_last()[i]);
            }
        }
        b0
    } else {
        assert(s.take(s.len() as int) =~= s);
        s.len() as int
    }
}

/// Trimming removes exactly the characters of the set at either end: what
/// is left is a piece of `s` that neither starts nor ends with one of them,
/// and everything before and after it is in the set.
pub proof fn law_trim_strips_both_ends(s: Seq<char>, set: TrimSet)
    ensures
        exists|a: int, b: int|
            {
                &&& 0 <= a <= b <= s.len()
                &&& trim(s, set) == #[trigger] s.subrange(a, b)
                &&& forall|i: int| 0 <= i < a ==> in_trim_set(set, #[trigger] s[i])
                &&& forall|i: int| b <= i < s.len() ==> in_trim_set(set, #[trigger] s[i])
                &&& a < b ==> !in_trim_set(set, s[a]) && !in_trim_set(set, s[b - 1])
            },
{
    let a = lemma_trim_start(s, set);
    let t = s.skip(a);
    let b0 = lemma_trim_end(t, set);
    let b = a + b0;
    assert(t.take(b0) =~= s.subrange(a, b));
    assert forall|i: int| b <= i < s.len() implies in_trim_set(set, #[trigger] s[i]) by {
        assert(s[i] == t[i - a]);
    }
    if a < b {
        assert(s[a] == t[0]);
        assert(s[b - 1] == t[b0 - 1]);
    }
}

/// The sets: the double quote alone, and the Unicode white space, which
/// holds the space, tab, line feed and carriage return and no letter or
/// digit of ASCII.
pub proof fn law_trim_sets(c: char)
    ensures
        in_trim_set(TrimSet::Quote, c) <==> c == '"',
        c == ' ' || c == '\t' || c == '\n' || c == '\r' ==> in_trim_set(TrimSet::WhiteSpace, c),
        ('a' <= c <= 'z' || 'A' <= c <= 'Z' || '0' <= c <= '9') ==> !in_trim_set(
            TrimSet::WhiteSpace,
            c,
        ),
{
}

/// `s` without the characters of `set` at either end.
pub fn trim_by(s: &str, set: TrimSet) -> (r: String)
    ensures
        r@ == trim(s@, set),
        exists|a: int, b: int| 0 <= a <= b <= s@.len() && r@ == s@.subrange(a, b),
{
    let cs = chars_of(s);
    let n = cs.len();
    let mut a: usize = 0;
    assert(s@.skip(0) =~= s@);
    while a < n && is_in_trim_set(set, cs[a])
        invariant
            cs@ == s@,
            n == s@.len(),
            a <= n,
            trim_start(s@, set) == trim_start(s@.skip(a as int), set),
        decreases n - a,
    {
        assert(s@.skip(a as int).drop_first() =~= s@.skip(a + 1));
        a = a + 1;
    }
    assert(trim_start(s@, set) =~= s@.subrange(a as int, n as int)) by {
        if a == n {
            assert(s@.skip(a as int).len() == 0);
        }
    }
    let mut b: usize = n;
    while b > a && is_in_trim_set(set, cs[b - 1])
        invariant
            cs@ == s@,
            n == s@.len(),
            a <= b <= n,
            trim(s@, set) == trim_end(s@.subrange(a as int, b as int), set),
        decreases b - a,
    {
        assert(s@.subrange(a as int, b as int).drop_last() =~= s@.subrange(a as int, b - 1));
        b = b - 1;
    }
    substring(s, a, b)
}

/// Whether the characters `a` and `b` are the same.
pub fn same_chars(a: &[char], b: &[char]) -> (r: bool)
    ensures
        r == (a@ == b@),
{
    if a.len() != b.len() {
        return false;
    }
    let mut i: usize = 0;
    while i < a.len()
        invariant
            a@.len() == b@.len(),
            i <= a@.len(),
            forall|j: int| 0 <= j < i ==> a@[j] == b@[j],
        decreases a@.len() - i,
    {
        if a[i] != b[i] {
            return false;
        }
        i = i + 1;
    }
    assert(a@ =~= b@);
    true
}

/// Whether `s` begins with `prefix`.
pub open spec fn has_prefix(s: Seq<char>, prefix: Seq<char>) -> bool {
    prefix.len() <= s.len() && s.take(prefix.len() as int) == prefix
}

/// Whether the characters `s` begin with `prefix` (`str::starts_with`).
pub fn starts_with(s: &[char], prefix: &[char]) -> (b: bool)
    ensures
        b == has_prefix(s@, prefix@),
{
    if prefix.len() > s.len() {
        return false;
    }
    let mut i: usize = 0;
    while i < prefix.len()
        invariant
            prefix@.len() <= s@.len(),
            i <= prefix@.len(),
            forall|j: int| 0 <= j < i ==> s@[j] == prefix@[j],
        decreases prefix@.len() - i,
    {
        if s[i] != prefix[i] {
            assert(s@.take(prefix@.len() as int)[i as int] != prefix@[i as int]);
            return false;
        }
        i = i + 1;
    }
    assert(s@.take(prefix@.len() as int) =~= prefix@);
    true
}

/// Whether `needle` occurs in `s` at position `i`.
pub open spec fn occurs_at(s: Seq<char>, needle: Seq<char>, i: int) -> bool {
    0 <= i && i + needle.len() <= s.len() && s.subrange(i, i + needle.len()) == needle
}

/// Whether `needle` occurs in `s` (`str::contains`).
pub open spec fn contains_seq(s: Seq<char>, needle: Seq<char>) -> bool {
    exists|i: int| occurs_at(s, needle, i)
}

/// Whether `needle` occurs in the characters `s`.
pub fn contains(s: &[char], needle: &[char]) -> (b: bool)
    ensures
        b == contains_seq(s@, needle@),
{
    let n = s.len();
    let m = needle.len();
    if m > n {
        return false;
    }
    let mut i: usize = 0;
    while i <= n - m
        invariant
            m <= n,
            n == s@.len(),
            m == needle@.len(),
            forall|k: int| 0 <= k < i ==> !occurs_at(s@, needle@, k),
        decreases n - m + 1 - i,
    {
        let mut j: usize = 0;
        let mut same = true;
        while j < m
            invariant
                i + m <= n,
                n == s@.len(),
                m == needle@.len(),
                j <= m,
                same == (forall|t: int| 0 <= t < j ==> s@[i + t] == needle@[t]),
            decreases m - j,
        {
            if s[i + j] != needle[j] {
                same = false;
            }
            j = j + 1;
        }
        if same {
            assert(s@.subrange(i as int, i + m) =~= needle@);
            assert(occurs_at(s@, needle@, i as int));
            return true;
        }
        assert(!occurs_at(s@, needle@, i as int)) by {
            if occurs_at(s@, needle@, i as int) {
                assert forall|t: int| 0 <= t < m implies s@[i + t] == needle@[t] by {
                    assert(s@.subrange(i as int, i + m)[t] == s@[i + t]);
                }
            }
        }
        i = i + 1;
    }
    assert forall|k: int| !occurs_at(s@, needle@, k) by {
        if 0 <= k < i {
        }
    }
    false
}

/// The digit `d` as a character.
pub open spec fn digit_char(d: int) -> char {
    ((d + 48) as u32) as char
}

/// The decimal numeral of `n`, with no leading zero.
pub open spec fn decimal(n: nat) -> Seq<char>
    decreases n,
{
    if n < 10 {
        seq![digit_char(n as int)]
    } else {
        decimal(n / 10).push(digit_char((n % 10) as int))
    }
}

/// The number that a numeral of decimal digits denotes.
pub open spec fn numeral_value(s: Seq<char>) -> int
    decreases s.len(),
{
    if s.len() == 0 {
        0
    } else {
        numeral_value(s.drop_last()) * 10 + (s.last() as u32 - 48)
    }
}

/// `decimal(n)` is a numeral of `n`: decimal digits that read back as `n`,
/// with no leading zero.
pub proof fn law_decimal_reads_back(n: nat)
    ensures
        numeral_value(decimal(n)) == n,
        forall|i: int| 0 <= i < decimal(n).len() ==> '0' <= #[trigger] decimal(n)[i] <= '9',
        decimal(n).len() > 0,
        decimal(n)[0] == '0' ==> n == 0,
    decreases n,
{
    let last = (n % 10) as int;
    assert(digit_char(last) as u32 == last + 48);
    if n >= 10 {
        law_decimal_reads_back(n / 10);
        let d = decimal(n);
        assert((n / 10) * 10 + last == n);
        assert(d.last() == digit_char(last));
        assert(d.drop_last() =~= decimal(n / 10));
        assert(numeral_value(d) == numeral_value(decimal(n / 10)) * 10 + last);
        assert(d[0] == decimal(n / 10)[0]);
        assert forall|i: int| 0 <= i < d.len() implies '0' <= #[trigger] d[i] <= '9' by {
            if i < d.len() - 1 {
                assert(d[i] == decimal(n / 10)[i]);
            }
        }
    } else {
        assert(decimal(n).drop_last() =~= seq![]);
        assert(decimal(n).last() == digit_char(last));
        assert(numeral_value(decimal(n)) == numeral_value(decimal(n).drop_last()) * 10 + last);
    }
}

fn digit_str(d: usize) -> (s: &'static str)
    requires
        d < 10,
    ensures
        s@ == seq![digit_char(d as int)],
{
    proof {
        reveal_strlit("0");
        reveal_strlit("1");
        reveal_strlit("2");
        reveal_strlit("3");
        reveal_strlit("4");
        reveal_strlit("5");
        reveal_strlit("6");
        reveal_strlit("7");
        reveal_strlit("8");
        reveal_strlit("9");
    }
    match d {
        0 => "0",
        1 => "1",
        2 => "2",
        3 => "3",
        4 => "4",
        5 => "5",
        6 => "6",
        7 => "7",
        8 => "8",
        _ => "9",
    }
}

/// Append the decimal numeral of `n` to `s` (`usize::to_string`).
pub fn push_decimal(s: &mut String, n: usize)
    ensures
        final(s)@ == old(s)@ + decimal(n as nat),
    decreases n,
{
    if n >= 10 {
        push_decimal(s, n / 10);
    }
    s.append(digit_str(n % 10));
}

} // verus!
