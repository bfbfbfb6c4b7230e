//! Character-level helpers shared by the parsers: turning a string into its
//! characters, locating delimiters, and walking whitespace-separated fields.

use vstd::prelude::*;

verus! {

/// `String::push` appends the given character to the end of the string and
/// leaves the characters before it unchanged.
pub assume_specification[ String::push ](s: &mut String, c: char)
    ensures
        final(s)@ == old(s)@.push(c),
;

/// The characters of `s`, in order.
pub fn to_chars(s: &str) -> (chars: Vec<char>)
    ensures
        chars@ == s@,
{
    let mut chars: Vec<char> = Vec::new();
    for c in it: s.chars()
        invariant
            it.seq() == s@,
            chars@ == it.seq().take(it.index()),
    {
        chars.push(c);
    }
    chars
}

/// A fresh string holding `chars`.
pub fn string_of(chars: &[char]) -> (s: String)
    ensures
        s@ == chars@,
{
    let mut s = String::new();
    let mut i: usize = 0;
    while i < chars.len()
        invariant
            i <= chars@.len(),
            s@ == chars@.take(i as int),
        decreases chars@.len() - i,
    {
        s.push(chars[i]);
        i += 1;
    }
    s
}

/// Whether `c` separates fields: the characters with the Unicode
/// `White_Space` property.
pub open spec fn is_space(c: char) -> bool {
    let u = c as u32;
    ||| 0x09 <= u <= 0x0D
    ||| u == 0x20
    ||| u == 0x85
    ||| u == 0xA0
    ||| u == 0x1680
    ||| 0x2000 <= u <= 0x200A
    ||| u == 0x2028
    ||| u == 0x2029
    ||| u == 0x202F
    ||| u == 0x205F
    ||| u == 0x3000
}

/// Executable form of [`is_space`].
pub fn is_space_char(c: char) -> (b: bool)
    ensures
        b == is_space(c),
{
    let u: u32 = c as u32;
    (0x09 <= u && u <= 0x0D) || u == 0x20 || u == 0x85 || u == 0xA0 || u == 0x1680 || (0x2000 <= u
        && u <= 0x200A) || u == 0x2028 || u == 0x2029 || u == 0x202F || u == 0x205F || u == 0x3000
}

/// The first index at or after `from` where `s` holds `c`, or `s.len()` when
/// there is none.
pub open spec fn first_index(s: Seq<char>, c: char, from: int) -> int
    decreases s.len() - from,
{
    if from < 0 || from >= s.len() {
        s.len() as int
    } else if s[from] == c {
        from
    } else {
        first_index(s, c, from + 1)
    }
}

/// The last index below `end` where `s` holds `c`, or `-1` when there is
/// none.
pub open spec fn last_index(s: Seq<char>, c: char, end: int) -> int
    decreases end,
{
    if end <= 0 || end > s.len() {
        -1
    } else if s[end - 1] == c {
        end - 1
    } else {
        last_index(s, c, end - 1)
    }
}

/// `first_index` lands on an occurrence of `c` that nothing precedes, or on
/// the length when `c` does not occur from `from` on.
pub proof fn lemma_first_index(s: Seq<char>, c: char, from: int)
    requires
        0 <= from <= s.len(),
    ensures
        from <= first_index(s, c, from) <= s.len(),
        first_index(s, c, from) < s.len() ==> s[first_index(s, c, from)] == c,
        forall|k: int| from <= k < first_index(s, c, from) ==> s[k] != c,
    decreases s.len() - from,
{
    if from < s.len() && s[from] != c {
        lemma_first_index(s, c, from + 1);
    }
}

/// `last_index` lands on an occurrence of `c` that nothing follows below
/// `end`, or on `-1` when `c` does not occur below `end`.
pub proof fn lemma_last_index(s: Seq<char>, c: char, end: int)
    requires
        0 <= end <= s.len(),
    ensures
        -1 <= last_index(s, c, end) < end,
        last_index(s, c, end) >= 0 ==> s[last_index(s, c, end)] == c,
        forall|k: int| last_index(s, c, end) < k < end ==> s[k] != c,
    decreases end,
{
    if end > 0 && s[end - 1] != c {
        lemma_last_index(s, c, end - 1);
    }
}

/// Finds the first `c` at or after `from`; the length of `chars` when there
/// is none.
pub fn find_first(chars: &[char], c: char, from: usize) -> (at: usize)
    ensures
        at == first_index(chars@, c, from as int),
        at <= chars@.len(),
{
    let n = chars.len();
    if from >= n {
        return n;
    }
    let mut i: usize = from;
    while i < n && chars[i] != c
        invariant
            from <= i <= n == chars@.len(),
            first_index(chars@, c, from as int) == first_index(chars@, c, i as int),
        decreases n - i,
    {
        i += 1;
    }
    i
}

/// Finds the last `c` in `chars`.
pub fn find_last(chars: &[char], c: char) -> (at: Option<usize>)
    ensures
        match at {
            Some(i) => i == last_index(chars@, c, chars@.len() as int),
            None => last_index(chars@, c, chars@.len() as int) == -1,
        },
{
    let mut i: usize = chars.len();
    while i > 0 && chars[i - 1] != c
        invariant
            i <= chars@.len(),
            last_index(chars@, c, chars@.len() as int) == last_index(chars@, c, i as int),
        decreases i,
    {
        i -= 1;
    }
    if i == 0 {
        None
    } else {
        Some(i - 1)
    }
}

/// The first index at or after `from` that holds no separator; `from` itself
/// when it lies outside `s`.
pub open spec fn skip_spaces(s: Seq<char>, from: int) -> int
    decreases s.len() - from,
{
    if 0 <= from < s.len() && is_space(s[from]) {
        skip_spaces(s, from + 1)
    } else {
        from
    }
}

/// The first index at or after `from` that holds a separator; `from` itself
/// when it lies outside `s`.
pub open spec fn skip_token(s: Seq<char>, from: int) -> int
    decreases s.len() - from,
{
    if 0 <= from < s.len() && !is_space(s[from]) {
        skip_token(s, from + 1)
    } else {
        from
    }
}

/// Where the `n`-th whitespace-separated field of `s` starts, counting from
/// zero; `s.len()` when `s` has no such field.
pub open spec fn field_start(s: Seq<char>, n: nat) -> int
    decreases n,
{
    if n == 0 {
        skip_spaces(s, 0)
    } else {
        skip_spaces(s, skip_token(s, field_start(s, (n - 1) as nat)))
    }
}

/// One past the last character of the `n`-th field of `s`.
pub open spec fn field_end(s: Seq<char>, n: nat) -> int {
    skip_token(s, field_start(s, n))
}

/// Whether `s` has more than `n` whitespace-separated fields.
pub open spec fn has_field(s: Seq<char>, n: nat) -> bool {
    field_start(s, n) < s.len()
}

/// The `n`-th whitespace-separated field of `s`.
pub open spec fn field(s: Seq<char>, n: nat) -> Seq<char> {
    s.subrange(field_start(s, n), field_end(s, n))
}

/// An occurrence of `c` that no other precedes from `from` on is where
/// `first_index` lands.
pub proof fn lemma_first_index_is(s: Seq<char>, c: char, from: int, at: int)
    requires
        0 <= from <= at < s.len(),
        s[at] == c,
        forall|k: int| from <= k < at ==> s[k] != c,
    ensures
        first_index(s, c, from) == at,
    decreases at - from,
{
    if from < at {
        lemma_first_index_is(s, c, from + 1, at);
    }
}

/// An occurrence of `c` that no other follows below `end` is where
/// `last_index` lands.
pub proof fn lemma_last_index_is(s: Seq<char>, c: char, end: int, at: int)
    requires
        0 <= at < end <= s.len(),
        s[at] == c,
        forall|k: int| at < k < end ==> s[k] != c,
    ensures
        last_index(s, c, end) == at,
    decreases end - at,
{
    if at < end - 1 {
        lemma_last_index_is(s, c, end - 1, at);
    }
}

/// A run of separators that ends at `to` is what `skip_spaces` skips.
pub proof fn lemma_skip_spaces_is(s: Seq<char>, from: int, to: int)
    requires
        0 <= from <= to <= s.len(),
        forall|k: int| from <= k < to ==> is_space(s[k]),
        to < s.len() ==> !is_space(s[to]),
    ensures
        skip_spaces(s, from) == to,
    decreases to - from,
{
    if from < to {
        lemma_skip_spaces_is(s, from + 1, to);
    }
}

/// A run of non-separators that ends at `to` is what `skip_token` skips.
pub proof fn lemma_skip_token_is(s: Seq<char>, from: int, to: int)
    requires
        0 <= from <= to <= s.len(),
        forall|k: int| from <= k < to ==> !is_space(s[k]),
        to < s.len() ==> is_space(s[to]),
    ensures
        skip_token(s, from) == to,
    decreases to - from,
{
    if from < to {
        lemma_skip_token_is(s, from + 1, to);
    }
}

/// The bounds of the first field that starts at or after `from`: the field is
/// `chars[start..end]`, and `start` is at or past the end of `chars` when no
/// field is left.
pub fn next_field(chars: &[char], from: usize) -> (bounds: (usize, usize))
    ensures
        bounds.0 == skip_spaces(chars@, from as int),
        bounds.1 == skip_token(chars@, bounds.0 as int),
        from <= bounds.0 <= bounds.1,
        from <= chars@.len() ==> bounds.1 <= chars@.len(),
{
    let n = chars.len();
    if from >= n {
        return (from, from);
    }
    let mut start: usize = from;
    while start < n && is_space_char(chars[start])
        invariant
            from <= start <= n == chars@.len(),
            skip_spaces(chars@, from as int) == skip_spaces(chars@, start as int),
        decreases n - start,
    {
        start += 1;
    }
    let mut end: usize = start;
    while end < n && !is_space_char(chars[end])
        invariant
            start <= end <= n == chars@.len(),
            skip_token(chars@, start as int) == skip_token(chars@, end as int),
        decreases n - end,
    {
        end += 1;
    }
    (start, end)
}

} // verus!
