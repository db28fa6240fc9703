//! Character classes and small text operations.
use vstd::prelude::*;

verus! {

/// The Unicode property White_Space (PropList.txt), which `char::is_whitespace`
/// tests: U+0009 to U+000D, U+0020, U+0085, U+00A0, U+1680, U+2000 to
/// U+200A, U+2028, U+2029, U+202F, U+205F and U+3000.
pub open spec fn white_space(c: char) -> bool {
    let n = c as u32;
    ||| 0x09 <= n <= 0x0D
    ||| n == 0x20
    ||| n == 0x85
    ||| n == 0xA0
    ||| n == 0x1680
    ||| 0x2000 <= n <= 0x200A
    ||| n == 0x2028
    ||| n == 0x2029
    ||| n == 0x202F
    ||| n == 0x205F
    ||| n == 0x3000
}

/// The Unicode general category Cc, which `char::is_control` tests:
/// U+0000 to U+001F and U+007F to U+009F.
pub open spec fn control_char(c: char) -> bool {
    let n = c as u32;
    n <= 0x1F || 0x7F <= n <= 0x9F
}

/// Calls `char::is_whitespace`, which its documentation says tests the
/// White_Space property; the contract states that property's code points.
#[verifier::external_body]
pub(crate) fn is_white_space(c: char) -> (r: bool)
    ensures
        r == white_space(c),
{
    c.is_whitespace()
}

/// Calls `char::is_control`, which its documentation says tests the general
/// category Cc; the contract states that category's code points.
#[verifier::external_body]
pub(crate) fn is_control_char(c: char) -> (r: bool)
    ensures
        r == control_char(c),
{
    c.is_control()
}

/// Every character of `s` is white space (so `s.trim()` is empty).
pub open spec fn all_white(s: Seq<char>) -> bool {
    forall|i: int| 0 <= i < s.len() ==> white_space(#[trigger] s[i])
}

/// Some character of `s` is a control character.
pub open spec fn has_control(s: Seq<char>) -> bool {
    exists|i: int| 0 <= i < s.len() && control_char(#[trigger] s[i])
}

/// The first character of `s` that is not white space is `c` (so
/// `s.trim_start()` starts with `c`).
pub open spec fn first_visible_is(s: Seq<char>, c: char) -> bool {
    exists|i: int|
        0 <= i < s.len() && #[trigger] s[i] == c && !white_space(c) && forall|j: int|
            0 <= j < i ==> white_space(#[trigger] s[j])
}

/// Decides `all_white`, `first_visible_is(s, c)` and `has_control` in one pass.
pub fn scan_text(s: &str, c: char) -> (r: (bool, bool, bool))
    ensures
        r.0 == all_white(s@),
        r.1 == first_visible_is(s@, c),
        r.2 == has_control(s@),
{
    let chars = crate::json::chars_of(s);
    let mut all: bool = true;
    let mut first: bool = false;
    let mut control: bool = false;
    let mut i: usize = 0;
    while i < chars.len()
        invariant
            chars@ == s@,
            i <= chars@.len(),
            all == (forall|j: int| 0 <= j < i ==> white_space(#[trigger] chars@[j])),
            first == (exists|k: int|
                0 <= k < i && #[trigger] chars@[k] == c && !white_space(c) && forall|j: int|
                    0 <= j < k ==> white_space(#[trigger] chars@[j])),
            control == (exists|j: int| 0 <= j < i && control_char(#[trigger] chars@[j])),
        decreases chars.len() - i,
    {
        let x = chars[i];
        let w = is_white_space(x);
        if all && !w && x == c {
            first = true;
        }
        if !w {
            all = false;
        }
        if is_control_char(x) {
            control = true;
        }
        i += 1;
    }
    (all, first, control)
}


// ---------------------------------------------------------------------------
// Trimming
/// `s` without its trailing carriage returns and line feeds.
pub open spec fn strip_line_ends(s: Seq<char>) -> Seq<char>
    decreases s.len(),
{
    if s.len() > 0 && (s.last() == '\r' || s.last() == '\n') {
        strip_line_ends(s.drop_last())
    } else {
        s
    }
}

/// `s` without its leading white space.
pub open spec fn trim_start_white(s: Seq<char>) -> Seq<char>
    decreases s.len(),
{
    if s.len() > 0 && white_space(s[0]) {
        trim_start_white(s.drop_first())
    } else {
        s
    }
}

/// `s` without its trailing white space.
pub open spec fn trim_end_white(s: Seq<char>) -> Seq<char>
    decreases s.len(),
{
    if s.len() > 0 && white_space(s.last()) {
        trim_end_white(s.drop_last())
    } else {
        s
    }
}

/// `s` without leading and trailing white space (`str::trim`).
pub open spec fn trim_white(s: Seq<char>) -> Seq<char> {
    trim_end_white(trim_start_white(s))
}

/// `s` without leading occurrences of `c`.
pub open spec fn trim_start_char(s: Seq<char>, c: char) -> Seq<char>
    decreases s.len(),
{
    if s.len() > 0 && s[0] == c {
        trim_start_char(s.drop_first(), c)
    } else {
        s
    }
}

/// `s` without trailing occurrences of `c`.
pub open spec fn trim_end_char(s: Seq<char>, c: char) -> Seq<char>
    decreases s.len(),
{
    if s.len() > 0 && s.last() == c {
        trim_end_char(s.drop_last(), c)
    } else {
        s
    }
}

/// What follows the last `c` in `s`; all of `s` where it holds no `c`.
pub open spec fn after_last(s: Seq<char>, c: char) -> Seq<char>
    decreases s.len(),
{
    if s.len() == 0 {
        s
    } else if s.last() == c {
        Seq::empty()
    } else {
        after_last(s.drop_last(), c).push(s.last())
    }
}

/// The text of `s` between two character positions.
fn slice_text(s: &str, from: usize, to: usize) -> (r: String)
    requires
        from <= to <= s@.len(),
    ensures
        r@ == s@.subrange(from as int, to as int),
{
    s.substring_char(from, to).to_owned()
}

/// The position before which only line ends follow.
proof fn lemma_strip_line_ends_step(s: Seq<char>, end: int)
    requires
        0 < end <= s.len(),
        s[end - 1] == '\r' || s[end - 1] == '\n',
    ensures
        strip_line_ends(s.take(end)) == strip_line_ends(s.take(end - 1)),
{
    assert(s.take(end).drop_last() =~= s.take(end - 1));
}

/// Drops trailing carriage returns and line feeds (`trim_end_matches` with
/// `['\r', '\n']`).
pub fn trim_line_ends(s: &str) -> (r: String)
    ensures
        r@ == strip_line_ends(s@),
{
    let chars = crate::json::chars_of(s);
    let mut end = chars.len();
    assert(chars@.take(end as int) =~= chars@);
    while end > 0 && (chars[end - 1] == '\r' || chars[end - 1] == '\n')
        invariant
            chars@ == s@,
            end <= chars.len(),
            strip_line_ends(s@) == strip_line_ends(s@.take(end as int)),
        decreases end,
    {
        proof {
            lemma_strip_line_ends_step(s@, end as int);
        }
        end -= 1;
    }
    slice_text(s, 0, end)
}

proof fn lemma_trim_end_white_step(s: Seq<char>, end: int)
    requires
        0 < end <= s.len(),
        white_space(s[end - 1]),
    ensures
        trim_end_white(s.take(end)) == trim_end_white(s.take(end - 1)),
{
    assert(s.take(end).drop_last() =~= s.take(end - 1));
}

proof fn lemma_trim_start_white_step(s: Seq<char>, start: int)
    requires
        0 <= start < s.len(),
        white_space(s[start]),
    ensures
        trim_start_white(s.skip(start)) == trim_start_white(s.skip(start + 1)),
{
    assert(s.skip(start).drop_first() =~= s.skip(start + 1));
}

/// Drops leading and trailing white space (`str::trim`).
pub fn trim_text(s: &str) -> (r: String)
    ensures
        r@ == trim_white(s@),
{
    let chars = crate::json::chars_of(s);
    let mut start: usize = 0;
    assert(s@.skip(0) =~= s@);
    while start < chars.len() && is_white_space(chars[start])
        invariant
            chars@ == s@,
            start <= chars.len(),
            trim_start_white(s@) == trim_start_white(s@.skip(start as int)),
        decreases chars.len() - start,
    {
        proof {
            lemma_trim_start_white_step(s@, start as int);
        }
        start += 1;
    }
    let ghost rest = s@.skip(start as int);
    assert(trim_start_white(s@) == rest);
    let mut end = chars.len();
    assert(rest.take(rest.len() as int) =~= rest);
    while end > start && is_white_space(chars[end - 1])
        invariant
            chars@ == s@,
            start <= end <= chars.len(),
            rest == s@.skip(start as int),
            trim_end_white(rest) == trim_end_white(rest.take(end - start)),
        decreases end,
    {
        proof {
            assert(rest[end - start - 1] == chars@[end - 1]);
            lemma_trim_end_white_step(rest, end - start);
        }
        end -= 1;
    }
    proof {
        assert(rest.take(end - start) =~= s@.subrange(start as int, end as int));
        if end > start {
            assert(rest.take(end - start).last() == chars@[end - 1]);
        }
    }
    slice_text(s, start, end)
}

proof fn lemma_trim_end_char_step(s: Seq<char>, c: char, end: int)
    requires
        0 < end <= s.len(),
        s[end - 1] == c,
    ensures
        trim_end_char(s.take(end), c) == trim_end_char(s.take(end - 1), c),
{
    assert(s.take(end).drop_last() =~= s.take(end - 1));
}

proof fn lemma_trim_start_char_step(s: Seq<char>, c: char, start: int)
    requires
        0 <= start < s.len(),
        s[start] == c,
    ensures
        trim_start_char(s.skip(start), c) == trim_start_char(s.skip(start + 1), c),
{
    assert(s.skip(start).drop_first() =~= s.skip(start + 1));
}

/// Drops leading and trailing occurrences of `c` (`str::trim_matches`).
pub fn trim_char(s: &str, c: char) -> (r: String)
    ensures
        r@ == trim_end_char(trim_start_char(s@, c), c),
{
    let chars = crate::json::chars_of(s);
    let mut start: usize = 0;
    assert(s@.skip(0) =~= s@);
    while start < chars.len() && chars[start] == c
        invariant
            chars@ == s@,
            start <= chars.len(),
            trim_start_char(s@, c) == trim_start_char(s@.skip(start as int), c),
        decreases chars.len() - start,
    {
        proof {
            lemma_trim_start_char_step(s@, c, start as int);
        }
        start += 1;
    }
    let ghost rest = s@.skip(start as int);
    assert(trim_start_char(s@, c) == rest);
    let mut end = chars.len();
    assert(rest.take(rest.len() as int) =~= rest);
    while end > start && chars[end - 1] == c
        invariant
            chars@ == s@,
            start <= end <= chars.len(),
            rest == s@.skip(start as int),
            trim_end_char(rest, c) == trim_end_char(rest.take(end - start), c),
        decreases end,
    {
        proof {
            assert(rest[end - start - 1] == chars@[end - 1]);
            lemma_trim_end_char_step(rest, c, end - start);
        }
        end -= 1;
    }
    proof {
        assert(rest.take(end - start) =~= s@.subrange(start as int, end as int));
        if end > start {
            assert(rest.take(end - start).last() == chars@[end - 1]);
        }
    }
    slice_text(s, start, end)
}

proof fn lemma_after_last_plain(s: Seq<char>, c: char, k: int)
    requires
        0 <= k <= s.len(),
        forall|j: int| k <= j < s.len() ==> s[j] != c,
    ensures
        after_last(s, c) == after_last(s.take(k), c) + s.skip(k),
    decreases s.len() - k,
{
    if k < s.len() {
        let t = s.drop_last();
        assert forall|j: int| k <= j < t.len() implies t[j] != c by {
            assert(t[j] == s[j]);
        }
        lemma_after_last_plain(t, c, k);
        assert(t.take(k) =~= s.take(k));
        assert(s.skip(k) =~= t.skip(k).push(s.last()));
        assert(after_last(s, c) == after_last(t, c).push(s.last()));
    } else {
        assert(s.take(k) =~= s);
        assert(s.skip(k) =~= Seq::<char>::empty());
    }
}

/// What follows the last `c` (the last piece of `str::split(c)`).
pub fn last_field(s: &str, c: char) -> (r: String)
    ensures
        r@ == after_last(s@, c),
{
    let chars = crate::json::chars_of(s);
    let mut k = chars.len();
    while k > 0 && chars[k - 1] != c
        invariant
            chars@ == s@,
            k <= chars.len(),
            forall|j: int| k <= j < chars.len() ==> chars@[j] != c,
        decreases k,
    {
        k -= 1;
    }
    proof {
        lemma_after_last_plain(s@, c, k as int);
        if k > 0 {
            assert(s@.take(k as int).last() == c);
        } else {
            assert(s@.take(0) =~= Seq::<char>::empty());
        }
        assert(s@.skip(k as int) =~= s@.subrange(k as int, s@.len() as int));
        assert(Seq::<char>::empty() + s@.skip(k as int) =~= s@.skip(k as int));
    }
    slice_text(s, k, chars.len())
}

} // verus!
