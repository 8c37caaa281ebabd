//! Resolving a line typed at the prompt to a state of the read-only flag.
//!
//! A line is read without its surrounding whitespace. Nothing at all keeps
//! the state the entry has; `y` or `Y` asks for read-only, `n` or `N` for
//! writable; anything else is no answer, and the question is put again.

use vstd::prelude::*;

verus! {

/// Whether `c` is whitespace: one of the 25 characters that Unicode gives
/// the property `White_Space`.
pub open spec fn is_whitespace(c: char) -> bool {
    let code = c as u32;
    ||| 0x0009 <= code <= 0x000D
    ||| code == 0x0020
    ||| code == 0x0085
    ||| code == 0x00A0
    ||| code == 0x1680
    ||| 0x2000 <= code <= 0x200A
    ||| code == 0x2028
    ||| code == 0x2029
    ||| code == 0x202F
    ||| code == 0x205F
    ||| code == 0x3000
}

/// `s` without its leading whitespace.
pub open spec fn trim_start(s: Seq<char>) -> Seq<char>
    decreases s.len(),
{
    if s.len() > 0 && is_whitespace(s[0]) {
        trim_start(s.drop_first())
    } else {
        s
    }
}

/// `s` without its trailing whitespace.
pub open spec fn trim_end(s: Seq<char>) -> Seq<char>
    decreases s.len(),
{
    if s.len() > 0 && is_whitespace(s.last()) {
        trim_end(s.drop_last())
    } else {
        s
    }
}

/// `s` without its leading and trailing whitespace.
pub open spec fn trimmed(s: Seq<char>) -> Seq<char> {
    trim_end(trim_start(s))
}

/// The state that `line` asks for, given the state `default` that the
/// entry has now; `None` where the line is no answer.
pub open spec fn resolved(line: Seq<char>, default: bool) -> Option<bool> {
    let text = trimmed(line);
    if text.len() == 0 {
        Some(default)
    } else if text.len() == 1 && (text[0] == 'y' || text[0] == 'Y') {
        Some(true)
    } else if text.len() == 1 && (text[0] == 'n' || text[0] == 'N') {
        Some(false)
    } else {
        None
    }
}

/// Tells whether `c` is whitespace.
pub fn whitespace(c: char) -> (yes: bool)
    ensures
        yes == is_whitespace(c),
{
    let code: u32 = c as u32;
    (0x0009 <= code && code <= 0x000D) || code == 0x0020 || code == 0x0085 || code == 0x00A0
        || code == 0x1680 || (0x2000 <= code && code <= 0x200A) || code == 0x2028 || code
        == 0x2029 || code == 0x202F || code == 0x205F || code == 0x3000
}

/// The characters of `text`, in order.
fn characters(text: &str) -> (chars: Vec<char>)
    ensures
        chars@ == text@,
{
    let mut chars: Vec<char> = Vec::new();
    for c in it: text.chars()
        invariant
            chars@ == it.seq().take(it.index() as int),
    {
        chars.push(c);
    }
    chars
}

/// Where the leading whitespace of `s` ends at `start`, what is left of `s`
/// begins there.
proof fn lemma_trim_start_is_suffix(s: Seq<char>, start: int)
    requires
        0 <= start <= s.len(),
        forall|i: int| 0 <= i < start ==> is_whitespace(s[i]),
        start < s.len() ==> !is_whitespace(s[start]),
    ensures
        trim_start(s) == s.subrange(start, s.len() as int),
    decreases start,
{
    if start == 0 {
        assert(s.subrange(0, s.len() as int) =~= s);
    } else {
        let rest = s.drop_first();
        assert forall|i: int| 0 <= i < start - 1 implies is_whitespace(rest[i]) by {
            assert(rest[i] == s[i + 1]);
        }
        lemma_trim_start_is_suffix(rest, start - 1);
        assert(rest.subrange(start - 1, rest.len() as int) =~= s.subrange(start, s.len() as int));
    }
}

/// Where the trailing whitespace of `s` begins at `end`, what is left of `s`
/// ends there.
proof fn lemma_trim_end_is_prefix(s: Seq<char>, end: int)
    requires
        0 <= end <= s.len(),
        forall|i: int| end <= i < s.len() ==> is_whitespace(s[i]),
        0 < end ==> !is_whitespace(s[end - 1]),
    ensures
        trim_end(s) == s.subrange(0, end),
    decreases s.len() - end,
{
    if end == s.len() {
        assert(s.subrange(0, end) =~= s);
    } else {
        let rest = s.drop_last();
        lemma_trim_end_is_prefix(rest, end);
        assert(rest.subrange(0, end) =~= s.subrange(0, end));
    }
}

/// Resolves a line typed at the prompt: the state it asks for, or `None`
/// where it is no answer. `default` is the state that an empty line keeps.
pub fn resolve(line: &str, default: bool) -> (state: Option<bool>)
    ensures
        state == resolved(line@, default),
{
    let chars = characters(line);
    let len = chars.len();
    let mut start: usize = 0;
    while start < len && whitespace(chars[start])
        invariant
            start <= len == chars@.len(),
            forall|i: int| 0 <= i < start ==> is_whitespace(chars@[i]),
        decreases len - start,
    {
        start += 1;
    }
    let mut end: usize = len;
    while start < end && whitespace(chars[end - 1])
        invariant
            start <= end <= len == chars@.len(),
            forall|i: int| end <= i < len ==> is_whitespace(chars@[i]),
        decreases end,
    {
        end -= 1;
    }
    proof {
        let rest = chars@.subrange(start as int, len as int);
        lemma_trim_start_is_suffix(chars@, start as int);
        assert forall|i: int| end - start <= i < rest.len() implies is_whitespace(rest[i]) by {
            assert(rest[i] == chars@[i + start]);
        }
        lemma_trim_end_is_prefix(rest, end - start);
        assert(rest.subrange(0, end - start) =~= chars@.subrange(start as int, end as int));
        assert(trimmed(line@) == chars@.subrange(start as int, end as int));
    }
    if end == start {
        Some(default)
    } else if end - start == 1 {
        let c = chars[start];
        if c == 'y' || c == 'Y' {
            Some(true)
        } else if c == 'n' || c == 'N' {
            Some(false)
        } else {
            None
        }
    } else {
        None
    }
}

} // verus!
