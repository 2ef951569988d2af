//! Character-level scanning helpers: turning a string into its characters,
//! dropping carriage returns, trimming whitespace, splitting into tokens and
//! finding separators. The probe-output parser is built from these.

use vstd::prelude::*;

verus! {

/// The characters of a string, as a vector.
pub fn chars_of(s: &str) -> (v: Vec<char>)
    ensures
        v@ == s@,
{
    let len = s.unicode_len();
    let mut v: Vec<char> = Vec::new();
    let mut i: usize = 0;
    while i < len
        invariant
            0 <= i <= len,
            len == s@.len(),
            v@ == s@.take(i as int),
        decreases len - i,
    {
        v.push(s.get_char(i));
        proof {
            assert(s@.take(i as int + 1).drop_last() =~= s@.take(i as int));
            assert(v@ =~= s@.take(i as int + 1));
        }
        i = i + 1;
    }
    proof {
        assert(s@.take(len as int) =~= s@);
    }
    v
}

/// The sequence with every carriage return removed.
pub open spec fn strip_cr(s: Seq<char>) -> Seq<char>
    decreases s.len(),
{
    if s.len() == 0 {
        Seq::empty()
    } else if s.last() == '\r' {
        strip_cr(s.drop_last())
    } else {
        strip_cr(s.drop_last()).push(s.last())
    }
}

/// Stripping leaves no carriage return behind.
pub proof fn lemma_strip_cr_clean(s: Seq<char>)
    ensures
        forall|i: int| 0 <= i < strip_cr(s).len() ==> #[trigger] strip_cr(s)[i] != '\r',
    decreases s.len(),
{
    if s.len() > 0 {
        lemma_strip_cr_clean(s.drop_last());
        let r = strip_cr(s);
        let rd = strip_cr(s.drop_last());
        assert forall|i: int| 0 <= i < r.len() implies r[i] != '\r' by {
            if s.last() == '\r' {
                assert(r[i] == rd[i]);
            } else if i < rd.len() {
                assert(r[i] == rd[i]);
            } else {
                assert(r[i] == s.last());
            }
        }
    }
}

/// Stripping a sequence without carriage returns changes nothing.
pub proof fn lemma_strip_cr_id(s: Seq<char>)
    requires
        forall|i: int| 0 <= i < s.len() ==> #[trigger] s[i] != '\r',
    ensures
        strip_cr(s) == s,
    decreases s.len(),
{
    if s.len() > 0 {
        assert(forall|i: int| 0 <= i < s.drop_last().len()
            ==> #[trigger] s.drop_last()[i] != '\r');
        lemma_strip_cr_id(s.drop_last());
        assert(strip_cr(s) =~= s);
    } else {
        assert(strip_cr(s) =~= s);
    }
}

/// Stripping carriage returns is idempotent.
pub proof fn lemma_strip_cr_idempotent(s: Seq<char>)
    ensures
        strip_cr(strip_cr(s)) == strip_cr(s),
{
    lemma_strip_cr_clean(s);
    lemma_strip_cr_id(strip_cr(s));
}

/// Remove every carriage return from a character vector.
pub fn strip_cr_chars(s: &Vec<char>) -> (v: Vec<char>)
    ensures
        v@ == strip_cr(s@),
{
    let mut v: Vec<char> = Vec::new();
    let mut i: usize = 0;
    while i < s.len()
        invariant
            0 <= i <= s@.len(),
            v@ == strip_cr(s@.take(i as int)),
        decreases s@.len() - i,
    {
        proof {
            assert(s@.take(i as int + 1).drop_last() =~= s@.take(i as int));
            assert(s@.take(i as int + 1).last() == s@[i as int]);
        }
        if s[i] != '\r' {
            v.push(s[i]);
        }
        i = i + 1;
    }
    proof {
        assert(s@.take(s@.len() as int) =~= s@);
    }
    v
}

/// Whitespace for the purposes of trimming probe output.
pub open spec fn is_ws(c: char) -> bool {
    c == ' ' || c == '\t' || c == '\n'
}

/// Length of the longest whitespace prefix.
pub open spec fn ws_prefix_len(s: Seq<char>) -> int
    decreases s.len(),
{
    if s.len() > 0 && is_ws(s[0]) {
        1 + ws_prefix_len(s.drop_first())
    } else {
        0
    }
}

/// Length of the longest whitespace suffix.
pub open spec fn ws_suffix_len(s: Seq<char>) -> int
    decreases s.len(),
{
    if s.len() > 0 && is_ws(s.last()) {
        1 + ws_suffix_len(s.drop_last())
    } else {
        0
    }
}

/// The sequence with leading and trailing whitespace removed.
pub open spec fn trim_of(s: Seq<char>) -> Seq<char> {
    if ws_prefix_len(s) == s.len() {
        Seq::empty()
    } else {
        s.subrange(ws_prefix_len(s), s.len() - ws_suffix_len(s))
    }
}

/// A position scanned forward over whitespace is the whitespace prefix.
pub proof fn lemma_ws_prefix(s: Seq<char>, k: int)
    requires
        0 <= k <= s.len(),
        forall|j: int| 0 <= j < k ==> is_ws(#[trigger] s[j]),
        k == s.len() || !is_ws(s[k]),
    ensures
        ws_prefix_len(s) == k,
    decreases s.len(),
{
    if k > 0 {
        lemma_ws_prefix(s.drop_first(), k - 1);
    }
}

/// A position scanned backward over whitespace is the whitespace suffix.
pub proof fn lemma_ws_suffix(s: Seq<char>, k: int)
    requires
        0 <= k <= s.len(),
        forall|j: int| s.len() - k <= j < s.len() ==> is_ws(#[trigger] s[j]),
        k == s.len() || !is_ws(s[s.len() - k - 1]),
    ensures
        ws_suffix_len(s) == k,
    decreases s.len(),
{
    if k > 0 {
        lemma_ws_suffix(s.drop_last(), k - 1);
    }
}

/// Trim leading and trailing whitespace from a character vector.
pub fn trim_chars(s: &Vec<char>) -> (v: Vec<char>)
    ensures
        v@ == trim_of(s@),
{
    let len = s.len();
    let mut start: usize = 0;
    while start < len && (s[start] == ' ' || s[start] == '\t' || s[start] == '\n')
        invariant
            0 <= start <= len,
            len == s@.len(),
            forall|j: int| 0 <= j < start ==> is_ws(#[trigger] s@[j]),
        decreases len - start,
    {
        start = start + 1;
    }
    proof {
        lemma_ws_prefix(s@, start as int);
    }
    if start == len {
        let v: Vec<char> = Vec::new();
        proof {
            assert(v@ =~= trim_of(s@));
        }
        return v;
    }
    let mut end: usize = len;
    while end > start && (s[end - 1] == ' ' || s[end - 1] == '\t' || s[end - 1] == '\n')
        invariant
            start <= end <= len,
            len == s@.len(),
            start < len,
            !is_ws(s@[start as int]),
            forall|j: int| end <= j < len ==> is_ws(#[trigger] s@[j]),
        decreases end,
    {
        end = end - 1;
    }
    proof {
        // the backward scan stopped at a non-whitespace character: either it
        // reached `start`, whose character is not whitespace, or the loop
        // condition failed
        lemma_ws_suffix(s@, (len - end) as int);
    }
    let mut v: Vec<char> = Vec::new();
    let mut i: usize = start;
    while i < end
        invariant
            start <= i <= end <= len,
            len == s@.len(),
            v@ == s@.subrange(start as int, i as int),
        decreases end - i,
    {
        v.push(s[i]);
        proof {
            assert(v@ =~= s@.subrange(start as int, i as int + 1));
        }
        i = i + 1;
    }
    proof {
        assert(v@ == trim_of(s@));
    }
    v
}

/// Token separators in probe output: value pairs are separated by commas or
/// newlines.
pub open spec fn is_sep(c: char) -> bool {
    c == ',' || c == '\n'
}

/// Split a sequence on separators. Splitting the empty sequence gives one
/// empty token; every separator ends the current token and starts a new one.
pub open spec fn split_tokens(s: Seq<char>) -> Seq<Seq<char>>
    decreases s.len(),
{
    if s.len() == 0 {
        seq![Seq::empty()]
    } else if is_sep(s.last()) {
        split_tokens(s.drop_last()).push(Seq::empty())
    } else {
        let r = split_tokens(s.drop_last());
        r.update(r.len() - 1, r.last().push(s.last()))
    }
}

/// Split a character vector on commas and newlines.
pub fn split_token_chars(s: &Vec<char>) -> (v: Vec<Vec<char>>)
    ensures
        v@.map_values(|t: Vec<char>| t@) == split_tokens(s@),
{
    let mut v: Vec<Vec<char>> = Vec::new();
    v.push(Vec::new());
    proof {
        assert(v@.map_values(|t: Vec<char>| t@) =~= split_tokens(s@.take(0)));
    }
    let mut i: usize = 0;
    while i < s.len()
        invariant
            0 <= i <= s@.len(),
            v@.len() >= 1,
            v@.map_values(|t: Vec<char>| t@) == split_tokens(s@.take(i as int)),
        decreases s@.len() - i,
    {
        proof {
            assert(s@.take(i as int + 1).drop_last() =~= s@.take(i as int));
            assert(s@.take(i as int + 1).last() == s@[i as int]);
        }
        let c = s[i];
        if c == ',' || c == '\n' {
            v.push(Vec::new());
            proof {
                assert(v@.map_values(|t: Vec<char>| t@)
                    =~= split_tokens(s@.take(i as int + 1)));
            }
        } else {
            let n = v.len();
            let mut last_tok = v.remove(n - 1);
            last_tok.push(c);
            v.push(last_tok);
            proof {
                let ghost m = v@.map_values(|t: Vec<char>| t@);
                let ghost r = split_tokens(s@.take(i as int));
                assert(m =~= r.update(r.len() - 1, r.last().push(s@[i as int])));
            }
        }
        i = i + 1;
    }
    proof {
        assert(s@.take(s@.len() as int) =~= s@);
    }
    v
}

/// Index of the first occurrence of a character, or -1 if absent.
pub open spec fn find_first(s: Seq<char>, c: char) -> int
    decreases s.len(),
{
    if s.len() == 0 {
        -1
    } else if s[0] == c {
        0
    } else {
        let r = find_first(s.drop_first(), c);
        if r == -1 {
            -1
        } else {
            1 + r
        }
    }
}

/// A position scanned forward to the first occurrence matches `find_first`.
pub proof fn lemma_find_first_at(s: Seq<char>, c: char, k: int)
    requires
        0 <= k < s.len(),
        s[k] == c,
        forall|j: int| 0 <= j < k ==> #[trigger] s[j] != c,
    ensures
        find_first(s, c) == k,
    decreases s.len(),
{
    if k > 0 {
        lemma_find_first_at(s.drop_first(), c, k - 1);
    }
}

/// When no position holds the character, `find_first` reports -1.
pub proof fn lemma_find_first_none(s: Seq<char>, c: char)
    requires
        forall|j: int| 0 <= j < s.len() ==> #[trigger] s[j] != c,
    ensures
        find_first(s, c) == -1,
    decreases s.len(),
{
    if s.len() > 0 {
        lemma_find_first_none(s.drop_first(), c);
    }
}

/// Find the first occurrence of `c` in a character vector.
pub fn find_char(s: &Vec<char>, c: char) -> (r: Option<usize>)
    ensures
        r matches Option::Some(k) ==> find_first(s@, c) == k && k < s@.len() && s@[k as int] == c,
        r is None ==> find_first(s@, c) == -1,
{
    let mut i: usize = 0;
    while i < s.len()
        invariant
            0 <= i <= s@.len(),
            forall|j: int| 0 <= j < i ==> #[trigger] s@[j] != c,
        decreases s@.len() - i,
    {
        if s[i] == c {
            proof {
                lemma_find_first_at(s@, c, i as int);
            }
            return Option::Some(i);
        }
        i = i + 1;
    }
    proof {
        lemma_find_first_none(s@, c);
    }
    Option::None
}

/// Index of the last occurrence of a character, or -1 if absent.
pub open spec fn find_last(s: Seq<char>, c: char) -> int
    decreases s.len(),
{
    if s.len() == 0 {
        -1
    } else if s.last() == c {
        s.len() - 1
    } else {
        find_last(s.drop_last(), c)
    }
}

/// `find_last` stays within bounds.
pub proof fn lemma_find_last_range(s: Seq<char>, c: char)
    ensures
        -1 <= find_last(s, c) < s.len(),
    decreases s.len(),
{
    if s.len() > 0 && s.last() != c {
        lemma_find_last_range(s.drop_last(), c);
    }
}

/// A position scanned backward to the last occurrence matches `find_last`.
pub proof fn lemma_find_last_at(s: Seq<char>, c: char, k: int)
    requires
        0 <= k < s.len(),
        s[k] == c,
        forall|j: int| k < j < s.len() ==> #[trigger] s[j] != c,
    ensures
        find_last(s, c) == k,
    decreases s.len(),
{
    if k < s.len() - 1 {
        lemma_find_last_at(s.drop_last(), c, k);
    }
}

/// When no position holds the character, `find_last` reports -1.
pub proof fn lemma_find_last_none(s: Seq<char>, c: char)
    requires
        forall|j: int| 0 <= j < s.len() ==> #[trigger] s[j] != c,
    ensures
        find_last(s, c) == -1,
    decreases s.len(),
{
    if s.len() > 0 {
        lemma_find_last_none(s.drop_last(), c);
    }
}

/// Find the last occurrence of `c` in a string.
pub fn find_last_in_str(s: &str, c: char) -> (r: Option<usize>)
    ensures
        r matches Option::Some(k) ==> find_last(s@, c) == k && k < s@.len() && s@[k as int] == c,
        r is None ==> find_last(s@, c) == -1,
{
    let len = s.unicode_len();
    let mut i: usize = len;
    while i > 0
        invariant
            0 <= i <= len,
            len == s@.len(),
            forall|j: int| i <= j < len ==> #[trigger] s@[j] != c,
        decreases i,
    {
        i = i - 1;
        if s.get_char(i) == c {
            proof {
                lemma_find_last_at(s@, c, i as int);
            }
            return Option::Some(i);
        }
    }
    proof {
        lemma_find_last_none(s@, c);
    }
    Option::None
}

/// Copy a subrange of a character vector.
pub fn subrange_chars(s: &Vec<char>, from: usize, to: usize) -> (v: Vec<char>)
    requires
        0 <= from <= to <= s@.len(),
    ensures
        v@ == s@.subrange(from as int, to as int),
{
    let mut v: Vec<char> = Vec::new();
    let mut i: usize = from;
    while i < to
        invariant
            from <= i <= to <= s@.len(),
            v@ == s@.subrange(from as int, i as int),
        decreases to - i,
    {
        v.push(s[i]);
        proof {
            assert(v@ =~= s@.subrange(from as int, i as int + 1));
        }
        i = i + 1;
    }
    v
}

/// Whether two character vectors hold the same characters.
pub fn chars_eq(a: &Vec<char>, b: &Vec<char>) -> (r: bool)
    ensures
        r == (a@ == b@),
{
    if a.len() != b.len() {
        proof {
            assert(a@.len() != b@.len());
        }
        return false;
    }
    let mut i: usize = 0;
    while i < a.len()
        invariant
            0 <= i <= a@.len(),
            a@.len() == b@.len(),
            forall|j: int| 0 <= j < i ==> #[trigger] a@[j] == b@[j],
        decreases a@.len() - i,
    {
        if a[i] != b[i] {
            return false;
        }
        i = i + 1;
    }
    proof {
        assert(a@ =~= b@);
    }
    true
}

} // verus!
