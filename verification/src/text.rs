//! Character-level text rules shared by the frame parsers.

use vstd::prelude::*;

verus! {

/// Control codes: U+0000 to U+001F and U+007F to U+009F.
pub open spec fn is_control(c: char) -> bool {
    (c as u32) < 0x20 || (0x7f <= (c as u32) && (c as u32) <= 0x9f)
}

/// White space: the code points that carry the Unicode `White_Space` property.
pub open spec fn is_whitespace(c: char) -> bool {
    let u = c as u32;
    (0x09 <= u && u <= 0x0d) || u == 0x20 || u == 0x85 || u == 0xa0 || u == 0x1680 || (0x2000 <= u
        && u <= 0x200a) || u == 0x2028 || u == 0x2029 || u == 0x202f || u == 0x205f || u == 0x3000
}

/// Tells whether `c` is a control code.
pub fn is_control_char(c: char) -> (b: bool)
    ensures
        b == is_control(c),
{
    let u: u32 = c as u32;
    u < 0x20 || (0x7f <= u && u <= 0x9f)
}

/// Tells whether `c` is white space.
pub fn is_whitespace_char(c: char) -> (b: bool)
    ensures
        b == is_whitespace(c),
{
    let u: u32 = c as u32;
    (0x09 <= u && u <= 0x0d) || u == 0x20 || u == 0x85 || u == 0xa0 || u == 0x1680 || (0x2000 <= u
        && u <= 0x200a) || u == 0x2028 || u == 0x2029 || u == 0x202f || u == 0x205f || u == 0x3000
}

/// The characters of a string slice, in order.
pub fn chars_of(s: &str) -> (v: Vec<char>)
    ensures
        v@ == s@,
{
    let mut v: Vec<char> = Vec::new();
    for c in it: s.chars()
        invariant
            it.seq() == s@,
            v@ == it.seq().take(it.index()),
    {
        v.push(c);
    }
    v
}

/// `String::from_iter` over the characters of `v`: the string that holds
/// exactly these characters, in this order.
#[verifier::external_body]
pub(crate) fn string_of(v: &Vec<char>) -> (s: String)
    ensures
        s@ == v@,
{
    v.iter().collect()
}

/// The characters of `v` from `from` up to, not including, `to`.
pub fn slice_of(v: &Vec<char>, from: usize, to: usize) -> (r: Vec<char>)
    requires
        from <= to <= v.len(),
    ensures
        r@ == v@.subrange(from as int, to as int),
{
    let mut r: Vec<char> = Vec::new();
    let mut i: usize = from;
    while i < to
        invariant
            from <= i <= to <= v.len(),
            r@ == v@.subrange(from as int, i as int),
        decreases to - i,
    {
        r.push(v[i]);
        i += 1;
    }
    r
}

/// `s` without its longest prefix of white space.
pub open spec fn trim_start(s: Seq<char>) -> Seq<char>
    decreases s.len(),
{
    if s.len() > 0 && is_whitespace(s[0]) {
        trim_start(s.skip(1))
    } else {
        s
    }
}

/// `s` without its longest suffix of white space.
pub open spec fn trim_end(s: Seq<char>) -> Seq<char>
    decreases s.len(),
{
    if s.len() > 0 && is_whitespace(s.last()) {
        trim_end(s.drop_last())
    } else {
        s
    }
}

/// `s` without leading and trailing white space.
pub open spec fn trimmed(s: Seq<char>) -> Seq<char> {
    trim_end(trim_start(s))
}

/// Removes leading and trailing white space.
pub fn trim_chars(v: &Vec<char>) -> (r: Vec<char>)
    ensures
        r@ == trimmed(v@),
{
    let n: usize = v.len();
    let mut start: usize = 0;
    assert(v@.skip(0) == v@);
    while start < n && is_whitespace_char(v[start])
        invariant
            start <= n,
            n == v.len(),
            trim_start(v@) == trim_start(v@.skip(start as int)),
        decreases n - start,
    {
        assert(v@.skip(start as int).skip(1) == v@.skip(start as int + 1));
        start += 1;
    }
    let mut end: usize = n;
    while end > start && is_whitespace_char(v[end - 1])
        invariant
            start <= end <= n,
            n == v.len(),
            trim_end(v@.skip(start as int)) == trim_end(v@.subrange(start as int, end as int)),
        decreases end,
    {
        assert(v@.subrange(start as int, end as int).drop_last() == v@.subrange(
            start as int,
            end as int - 1,
        ));
        end -= 1;
    }
    slice_of(v, start, end)
}

/// The first index at or after `from` at which `s` holds `c`, or the length
/// of `s` when there is none.
pub open spec fn find_from(s: Seq<char>, c: char, from: int) -> int
    decreases s.len() - from,
{
    if from < 0 || from >= s.len() {
        s.len() as int
    } else if s[from] == c {
        from
    } else {
        find_from(s, c, from + 1)
    }
}

/// What `find_from` returns lies between `from` and the length, holds `c`
/// when it is an index, and nothing before it does.
pub proof fn lemma_find_from(s: Seq<char>, c: char, from: int)
    requires
        0 <= from <= s.len(),
    ensures
        from <= find_from(s, c, from) <= s.len(),
        find_from(s, c, from) < s.len() ==> s[find_from(s, c, from)] == c,
        forall|k: int| from <= k < find_from(s, c, from) ==> s[k] != c,
    decreases s.len() - from,
{
    if from < s.len() && s[from] != c {
        lemma_find_from(s, c, from + 1);
    }
}

/// Searches `v` for `c`, starting at `from`.
pub fn find_char(v: &Vec<char>, c: char, from: usize) -> (r: usize)
    requires
        from <= v.len(),
    ensures
        r == find_from(v@, c, from as int),
        from <= r <= v.len(),
{
    let mut i: usize = from;
    while i < v.len() && v[i] != c
        invariant
            from <= i <= v.len(),
            find_from(v@, c, from as int) == find_from(v@, c, i as int),
        decreases v.len() - i,
    {
        i += 1;
    }
    i
}

/// `s` with every control code dropped, except line feed, carriage return
/// and tab.
pub open spec fn strip_control(s: Seq<char>) -> Seq<char>
    decreases s.len(),
{
    if s.len() == 0 {
        s
    } else if keeps(s.last()) {
        strip_control(s.drop_last()).push(s.last())
    } else {
        strip_control(s.drop_last())
    }
}

/// The characters that `strip_control` keeps.
pub open spec fn keeps(c: char) -> bool {
    !is_control(c) || c == '\n' || c == '\r' || c == '\t'
}

/// Drops the control codes of `v`, except line feed, carriage return and tab.
pub fn strip_control_chars(v: &Vec<char>) -> (r: Vec<char>)
    ensures
        r@ == strip_control(v@),
{
    let mut r: Vec<char> = Vec::new();
    let mut i: usize = 0;
    while i < v.len()
        invariant
            i <= v.len(),
            r@ == strip_control(v@.take(i as int)),
        decreases v.len() - i,
    {
        let c: char = v[i];
        assert(v@.take(i as int + 1).drop_last() == v@.take(i as int));
        if !is_control_char(c) || c == '\n' || c == '\r' || c == '\t' {
            r.push(c);
        }
        i += 1;
    }
    assert(v@.take(v.len() as int) == v@);
    r
}

/// Drops the control codes of a text, except line feed, carriage return and tab.
pub fn strip_control_text(input: &str) -> (output: String)
    ensures
        output@ == strip_control(input@),
{
    let raw: Vec<char> = chars_of(input);
    let kept: Vec<char> = strip_control_chars(&raw);
    string_of(&kept)
}

/// Whether `s` holds `pat` at index `at`.
pub open spec fn matches_at(s: Seq<char>, pat: Seq<char>, at: int) -> bool {
    0 <= at && at + pat.len() <= s.len() && s.subrange(at, at + pat.len()) == pat
}

/// `s` without the occurrences of `pat`, found from left to right, none
/// overlapping another. An empty `pat` removes nothing.
pub open spec fn remove_all(s: Seq<char>, pat: Seq<char>) -> Seq<char>
    decreases s.len(),
{
    if pat.len() == 0 || s.len() < pat.len() {
        s
    } else if matches_at(s, pat, 0) {
        remove_all(s.skip(pat.len() as int), pat)
    } else {
        seq![s[0]] + remove_all(s.skip(1), pat)
    }
}

/// Tells whether `v` holds `pat` at index `at`.
pub fn starts_at(v: &Vec<char>, pat: &Vec<char>, at: usize) -> (b: bool)
    requires
        at <= v.len(),
    ensures
        b == matches_at(v@, pat@, at as int),
{
    if pat.len() > v.len() - at {
        return false;
    }
    let mut k: usize = 0;
    while k < pat.len()
        invariant
            k <= pat.len(),
            at + pat.len() <= v.len(),
            v@.subrange(at as int, at + k) == pat@.take(k as int),
        decreases pat.len() - k,
    {
        if v[at + k] != pat[k] {
            return false;
        }
        k += 1;
    }
    assert(pat@.take(pat.len() as int) == pat@);
    true
}

/// Removes every occurrence of `pat` from `v`, scanning from the left.
pub fn remove_all_chars(v: &Vec<char>, pat: &Vec<char>) -> (r: Vec<char>)
    ensures
        r@ == remove_all(v@, pat@),
{
    if pat.len() == 0 {
        return slice_of(v, 0, v.len());
    }
    let m: usize = pat.len();
    let mut r: Vec<char> = Vec::new();
    let mut i: usize = 0;
    assert(v@.skip(0) == v@);
    while i < v.len()
        invariant
            i <= v.len(),
            m == pat.len(),
            m > 0,
            r@ + remove_all(v@.skip(i as int), pat@) == remove_all(v@, pat@),
        decreases v.len() - i,
    {
        let ghost rest = v@.skip(i as int);
        let hit: bool = starts_at(v, pat, i);
        proof {
            if i + m <= v.len() {
                assert(rest.subrange(0, m as int) == v@.subrange(i as int, i + m));
            }
        }
        if hit {
            assert(rest.skip(m as int) == v@.skip(i + m));
            i += m;
        } else if v.len() - i < m {
            let ghost before = r@;
            let mut j: usize = i;
            while j < v.len()
                invariant
                    i <= j <= v.len(),
                    r@ == before + v@.subrange(i as int, j as int),
                decreases v.len() - j,
            {
                r.push(v[j]);
                j += 1;
            }
            i = v.len();
        } else {
            assert(rest.skip(1) == v@.skip(i as int + 1));
            r.push(v[i]);
            i += 1;
        }
    }
    r
}

/// Every character of `s` is one that `strip_control` keeps.
pub open spec fn all_kept(s: Seq<char>) -> bool {
    forall|i: int| 0 <= i < s.len() ==> keeps(#[trigger] s[i])
}

/// Every character that `strip_control` leaves is one that it keeps.
pub proof fn lemma_strip_control_keeps(s: Seq<char>)
    ensures
        all_kept(strip_control(s)),
    decreases s.len(),
{
    if s.len() > 0 {
        lemma_strip_control_keeps(s.drop_last());
        let before = strip_control(s.drop_last());
        let out = strip_control(s);
        assert forall|i: int| 0 <= i < out.len() implies keeps(#[trigger] out[i]) by {
            if i < before.len() {
                assert(out[i] == before[i]);
            }
        }
    }
}

/// Removing the occurrences of a pattern brings in no character.
pub proof fn lemma_remove_all_keeps(s: Seq<char>, pat: Seq<char>)
    requires
        all_kept(s),
    ensures
        all_kept(remove_all(s, pat)),
    decreases s.len(),
{
    if pat.len() == 0 || s.len() < pat.len() {
    } else if matches_at(s, pat, 0) {
        let rest = s.skip(pat.len() as int);
        assert forall|i: int| 0 <= i < rest.len() implies keeps(#[trigger] rest[i]) by {
            assert(rest[i] == s[i + pat.len()]);
        }
        lemma_remove_all_keeps(rest, pat);
    } else {
        let rest = s.skip(1);
        assert forall|i: int| 0 <= i < rest.len() implies keeps(#[trigger] rest[i]) by {
            assert(rest[i] == s[i + 1]);
        }
        lemma_remove_all_keeps(rest, pat);
        let tail = remove_all(rest, pat);
        let out = seq![s[0]] + tail;
        assert(out == remove_all(s, pat));
        assert forall|i: int| 0 <= i < out.len() implies keeps(#[trigger] out[i]) by {
            if i > 0 {
                assert(out[i] == tail[i - 1]);
            } else {
                assert(out[0] == s[0]);
            }
        }
    }
}

/// A text of kept characters passes `strip_control` unchanged.
pub proof fn lemma_strip_control_identity(s: Seq<char>)
    requires
        all_kept(s),
    ensures
        strip_control(s) == s,
    decreases s.len(),
{
    if s.len() > 0 {
        let rest = s.drop_last();
        assert forall|i: int| 0 <= i < rest.len() implies keeps(#[trigger] rest[i]) by {
            assert(rest[i] == s[i]);
        }
        lemma_strip_control_identity(rest);
        assert(keeps(s[s.len() - 1]));
        assert(rest.push(s.last()) =~= s);
    }
}

/// A text that holds the pattern's first character nowhere holds the
/// pattern nowhere: nothing is removed.
pub proof fn lemma_remove_all_identity(s: Seq<char>, pat: Seq<char>)
    requires
        pat.len() > 0,
        !s.contains(pat[0]),
    ensures
        remove_all(s, pat) == s,
    decreases s.len(),
{
    if s.len() >= pat.len() {
        assert(s.contains(s[0]));
        assert(s.subrange(0, pat.len() as int)[0] == s[0]);
        assert(!matches_at(s, pat, 0));
        let rest = s.skip(1);
        assert forall|i: int| 0 <= i < rest.len() implies rest[i] != pat[0] by {
            assert(rest[i] == s[i + 1]);
            assert(s.contains(s[i + 1]));
        }
        lemma_remove_all_identity(rest, pat);
        assert(seq![s[0]] + rest =~= s);
    }
}

} // verus!
