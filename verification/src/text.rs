//! White space and trimming.

use vstd::prelude::*;
use vstd::string::StrSliceExecFns;

verus! {

/// Whether `c` is a white-space character: one of the code points that carry
/// the Unicode property `White_Space`.
pub open spec fn is_whitespace(c: char) -> bool {
    let n = c as u32;
    ||| 0x09 <= n <= 0x0D
    ||| n == 0x20
    ||| n == 0x85
    ||| n == 0xA0
    ||| n == 0x1680
    ||| 0x2000 <= n <= 0x200A
    ||| n == 0x2028
    ||| n == 0x2029
    ||| n == 0x202F
    ||| n == 0x205F
    ||| n == 0x3000
}

/// Decides whether `c` is a white-space character.
pub fn is_whitespace_char(c: char) -> (b: bool)
    ensures
        b == is_whitespace(c),
{
    let n: u32 = c as u32;
    (0x09 <= n && n <= 0x0D) || n == 0x20 || n == 0x85 || n == 0xA0 || n == 0x1680 || (0x2000 <= n
        && n <= 0x200A) || n == 0x2028 || n == 0x2029 || n == 0x202F || n == 0x205F || n == 0x3000
}

/// `s` without its leading white space.
pub open spec fn trim_start(s: Seq<char>) -> Seq<char>
    decreases s.len(),
{
    if s.len() > 0 && is_whitespace(s.first()) {
        trim_start(s.drop_first())
    } else {
        s
    }
}

/// `s` without its trailing white space.
pub open spec fn trim_end(s: Seq<char>) -> Seq<char>
    decreases s.len(),
{
    if s.len() > 0 && is_whitespace(s.last()) {
        trim_end(s.drop_last())
    } else {
        s
    }
}

/// `s` without its leading and trailing white space.
pub open spec fn trim(s: Seq<char>) -> Seq<char> {
    trim_end(trim_start(s))
}

/// Whether `s` neither starts nor ends with white space.
pub open spec fn is_trimmed(s: Seq<char>) -> bool {
    s.len() > 0 ==> !is_whitespace(s.first()) && !is_whitespace(s.last())
}

/// Whether `s` holds a character that is not white space.
pub open spec fn has_visible(s: Seq<char>) -> bool {
    exists|i: int| 0 <= i < s.len() && !is_whitespace(#[trigger] s[i])
}

/// Trimming at the start cuts `s` at its first character that is not white
/// space, or leaves nothing if there is none.
pub proof fn lemma_trim_start_cut(s: Seq<char>, from: int)
    requires
        0 <= from <= s.len(),
        forall|i: int| 0 <= i < from ==> is_whitespace(#[trigger] s[i]),
        from < s.len() ==> !is_whitespace(s[from]),
    ensures
        trim_start(s) == s.subrange(from, s.len() as int),
    decreases from,
{
    if from == 0 {
        assert(s.subrange(0, s.len() as int) =~= s);
    } else {
        let rest = s.drop_first();
        assert forall|i: int| 0 <= i < from - 1 implies is_whitespace(#[trigger] rest[i]) by {
            assert(rest[i] == s[i + 1]);
        }
        lemma_trim_start_cut(rest, from - 1);
        assert(rest.subrange(from - 1, rest.len() as int) =~= s.subrange(from, s.len() as int));
    }
}

/// Trimming at the end cuts `s` after its last character that is not white
/// space, or leaves nothing if there is none.
pub proof fn lemma_trim_end_cut(s: Seq<char>, to: int)
    requires
        0 <= to <= s.len(),
        forall|i: int| to <= i < s.len() ==> is_whitespace(#[trigger] s[i]),
        0 < to ==> !is_whitespace(s[to - 1]),
    ensures
        trim_end(s) == s.subrange(0, to),
    decreases s.len() - to,
{
    if to == s.len() {
        assert(s.subrange(0, to) =~= s);
    } else {
        let rest = s.drop_last();
        lemma_trim_end_cut(rest, to);
        assert(rest.subrange(0, to) =~= s.subrange(0, to));
    }
}

/// The trimmed text is the stretch between the first and the last character
/// that are not white space; it is empty where every character is white space.
pub proof fn lemma_trim_cut(s: Seq<char>, from: int, to: int)
    requires
        0 <= from <= to <= s.len(),
        forall|i: int| 0 <= i < from ==> is_whitespace(#[trigger] s[i]),
        forall|i: int| to <= i < s.len() ==> is_whitespace(#[trigger] s[i]),
        from < to ==> !is_whitespace(s[from]) && !is_whitespace(s[to - 1]),
    ensures
        trim(s) == s.subrange(from, to),
{
    if from < to {
        lemma_trim_start_cut(s, from);
        let tail = s.subrange(from, s.len() as int);
        lemma_trim_end_cut(tail, to - from);
        assert(tail.subrange(0, to - from) =~= s.subrange(from, to));
    } else {
        lemma_trim_start_cut(s, s.len() as int);
        assert(s.subrange(s.len() as int, s.len() as int) =~= s.subrange(from, to));
    }
}

/// What is left after trimming at the start does not start with white space.
pub proof fn lemma_trim_start_first(s: Seq<char>)
    ensures
        trim_start(s).len() > 0 ==> !is_whitespace(trim_start(s).first()),
        trim_start(s).len() <= s.len(),
    decreases s.len(),
{
    if s.len() > 0 && is_whitespace(s.first()) {
        lemma_trim_start_first(s.drop_first());
    }
}

/// What is left after trimming at the end does not end with white space, and
/// starts as the text did.
pub proof fn lemma_trim_end_last(s: Seq<char>)
    ensures
        trim_end(s).len() > 0 ==> !is_whitespace(trim_end(s).last()) && trim_end(s).first()
            == s.first(),
        trim_end(s).len() <= s.len(),
    decreases s.len(),
{
    if s.len() > 0 && is_whitespace(s.last()) {
        lemma_trim_end_last(s.drop_last());
    }
}

/// A trimmed text neither starts nor ends with white space.
pub proof fn lemma_trim_is_trimmed(s: Seq<char>)
    ensures
        is_trimmed(trim(s)),
        trim(s).len() <= s.len(),
{
    lemma_trim_start_first(s);
    lemma_trim_end_last(trim_start(s));
}

/// Trimming at the start removes no character that is not white space.
pub proof fn lemma_trim_start_keeps_visible(s: Seq<char>)
    requires
        has_visible(s),
    ensures
        has_visible(trim_start(s)),
    decreases s.len(),
{
    if s.len() > 0 && is_whitespace(s.first()) {
        let i = choose|i: int| 0 <= i < s.len() && !is_whitespace(#[trigger] s[i]);
        assert(!is_whitespace(s.drop_first()[i - 1]));
        lemma_trim_start_keeps_visible(s.drop_first());
    }
}

/// Trimming at the end removes no character that is not white space.
pub proof fn lemma_trim_end_keeps_visible(s: Seq<char>)
    requires
        has_visible(s),
    ensures
        has_visible(trim_end(s)),
    decreases s.len(),
{
    if s.len() > 0 && is_whitespace(s.last()) {
        let i = choose|i: int| 0 <= i < s.len() && !is_whitespace(#[trigger] s[i]);
        assert(!is_whitespace(s.drop_last()[i]));
        lemma_trim_end_keeps_visible(s.drop_last());
    }
}

/// Something is left of a text after trimming exactly when it holds a
/// character that is not white space.
pub proof fn lemma_trim_nonempty_iff_visible(s: Seq<char>)
    ensures
        trim(s).len() > 0 <==> has_visible(s),
{
    if has_visible(s) {
        lemma_trim_start_keeps_visible(s);
        lemma_trim_end_keeps_visible(trim_start(s));
    } else {
        lemma_trim_cut(s, 0, 0);
    }
}

/// A text that neither starts nor ends with white space is left as it is.
pub proof fn lemma_trim_of_trimmed(s: Seq<char>)
    requires
        is_trimmed(s),
    ensures
        trim(s) == s,
{
}

/// Returns `s` without its leading and trailing white space.
pub fn trim_str(s: &str) -> (r: &str)
    ensures
        r@ == trim(s@),
{
    let n: usize = s.unicode_len();
    let mut from: usize = 0;
    let mut to: usize = 0;
    let mut i: usize = 0;
    for c in it: s.chars()
        invariant
            n == s@.len(),
            it.seq() == s@,
            i == it.index(),
            from <= to <= i <= n,
            from == to ==> from == 0,
            forall|k: int| 0 <= k < from ==> is_whitespace(#[trigger] s@[k]),
            forall|k: int| to <= k < i ==> is_whitespace(#[trigger] s@[k]),
            from < to ==> !is_whitespace(s@[from as int]) && !is_whitespace(s@[to - 1]),
            from == to ==> forall|k: int| 0 <= k < i ==> is_whitespace(#[trigger] s@[k]),
    {
        if !is_whitespace_char(c) {
            if from == to {
                from = i;
            }
            to = i + 1;
        }
        i = i + 1;
    }
    proof {
        lemma_trim_cut(s@, from as int, to as int);
    }
    s.substring_char(from, to)
}

} // verus!
