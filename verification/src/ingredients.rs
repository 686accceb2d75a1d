//! Ingredient lines: how the free text of an ingredient list is split into
//! the lines that are stored, one row each.
//!
//! The text is cut at every line feed, each piece loses the white space at
//! both of its ends, and pieces that are empty after that are dropped.

use vstd::prelude::*;
use vstd::string::*;

verus! {

/// The characters with the Unicode property `White_Space`.
pub open spec fn is_space(c: char) -> bool {
    let n = c as u32;
    ||| 0x09 <= n <= 0x0d
    ||| n == 0x20
    ||| n == 0x85
    ||| n == 0xa0
    ||| n == 0x1680
    ||| 0x2000 <= n <= 0x200a
    ||| n == 0x2028
    ||| n == 0x2029
    ||| n == 0x202f
    ||| n == 0x205f
    ||| n == 0x3000
}

/// `s` without its leading white space.
pub open spec fn trim_start(s: Seq<char>) -> Seq<char>
    decreases s.len(),
{
    if s.len() > 0 && is_space(s[0]) {
        trim_start(s.drop_first())
    } else {
        s
    }
}

/// `s` without its trailing white space.
pub open spec fn trim_end(s: Seq<char>) -> Seq<char>
    decreases s.len(),
{
    if s.len() > 0 && is_space(s.last()) {
        trim_end(s.drop_last())
    } else {
        s
    }
}

/// `s` without the white space at either end.
pub open spec fn trimmed(s: Seq<char>) -> Seq<char> {
    trim_end(trim_start(s))
}

/// The number of characters before the first line feed of `s`, or the
/// length of `s` if it holds none.
pub open spec fn line_end(s: Seq<char>) -> nat
    decreases s.len(),
{
    if s.len() == 0 || s[0] == '\n' {
        0
    } else {
        1 + line_end(s.drop_first())
    }
}

/// The ingredient lines of `text`, in the order in which they were written.
pub open spec fn ingredient_lines(text: Seq<char>) -> Seq<Seq<char>>
    decreases text.len(),
{
    let k = line_end(text) as int;
    let line = trimmed(text.subrange(0, k));
    let rest = if k < text.len() {
        ingredient_lines(text.subrange(k + 1, text.len() as int))
    } else {
        Seq::empty()
    };
    if line.len() > 0 {
        seq![line] + rest
    } else {
        rest
    }
}

/// Whether `c` is white space.
pub fn is_whitespace(c: char) -> (b: bool)
    ensures
        b == is_space(c),
{
    let n: u32 = c as u32;
    (0x09 <= n && n <= 0x0d) || n == 0x20 || n == 0x85 || n == 0xa0 || n == 0x1680 || (0x2000 <= n
        && n <= 0x200a) || n == 0x2028 || n == 0x2029 || n == 0x202f || n == 0x205f || n == 0x3000
}

proof fn lemma_line_end(s: Seq<char>, k: int)
    requires
        0 <= k <= s.len(),
        forall|j: int| 0 <= j < k ==> s[j] != '\n',
        k < s.len() ==> s[k] == '\n',
    ensures
        line_end(s) == k,
    decreases k,
{
    if k > 0 {
        lemma_line_end(s.drop_first(), k - 1);
    }
}

/// Where the content of `s` begins: `trim_start` drops what stands before.
proof fn lemma_trim_start_at(s: Seq<char>) -> (a: int)
    ensures
        0 <= a <= s.len(),
        trim_start(s) == s.skip(a),
        forall|j: int| 0 <= j < a ==> is_space(s[j]),
        a < s.len() ==> !is_space(s[a]),
    decreases s.len(),
{
    if s.len() > 0 && is_space(s[0]) {
        let a = lemma_trim_start_at(s.drop_first());
        assert(s.drop_first().skip(a) =~= s.skip(a + 1));
        assert forall|j: int| 0 <= j < a + 1 implies is_space(s[j]) by {
            if j > 0 {
                assert(s[j] == s.drop_first()[j - 1]);
            }
        }
        a + 1
    } else {
        assert(s.skip(0) =~= s);
        0
    }
}

/// Where the content of `s` ends: `trim_end` drops what stands behind.
proof fn lemma_trim_end_at(s: Seq<char>) -> (b: int)
    ensures
        0 <= b <= s.len(),
        trim_end(s) == s.take(b),
        forall|j: int| b <= j < s.len() ==> is_space(s[j]),
        0 < b ==> !is_space(s[b - 1]),
    decreases s.len(),
{
    if s.len() > 0 && is_space(s.last()) {
        let b = lemma_trim_end_at(s.drop_last());
        assert(s.drop_last().take(b) =~= s.take(b));
        assert forall|j: int| b <= j < s.len() implies is_space(s[j]) by {
            if j < s.len() - 1 {
                assert(s[j] == s.drop_last()[j]);
            }
        }
        b
    } else {
        assert(s.take(s.len() as int) =~= s);
        s.len() as int
    }
}

/// What trimming leaves of a line whose white space is known: with content
/// from `a` up to `b`, that content; with none (`a == b`), nothing.
proof fn lemma_trimmed(s: Seq<char>, a: int, b: int)
    requires
        0 <= a <= b <= s.len(),
        forall|j: int| 0 <= j < a ==> is_space(s[j]),
        forall|j: int| b <= j < s.len() ==> is_space(s[j]),
        a < b ==> !is_space(s[a]) && !is_space(s[b - 1]),
        a == b ==> b == s.len(),
    ensures
        trimmed(s) == s.subrange(a, b),
{
    let from = lemma_trim_start_at(s);
    let rest = s.skip(from);
    let upto = lemma_trim_end_at(rest);
    if a < b {
        assert(from == a);
        if upto > 0 {
            assert(rest[upto - 1] == s[from + upto - 1]);
        }
        assert(rest[b - a - 1] == s[b - 1]);
        assert(from + upto == b);
    } else {
        assert(from == s.len());
    }
    assert(rest.take(upto) =~= s.subrange(a, b));
}

proof fn lemma_line_end_bound(s: Seq<char>)
    ensures
        line_end(s) <= s.len(),
        forall|j: int| 0 <= j < line_end(s) ==> s[j] != '\n',
    decreases s.len(),
{
    if s.len() > 0 && s[0] != '\n' {
        lemma_line_end_bound(s.drop_first());
        assert forall|j: int| 0 <= j < line_end(s) implies s[j] != '\n' by {
            if j > 0 {
                assert(s[j] == s.drop_first()[j - 1]);
            }
        }
    }
}

/// Every ingredient line holds something, begins and ends with a character
/// that is no white space, and holds no line feed.
pub proof fn law_lines_are_trimmed(text: Seq<char>, i: int)
    requires
        0 <= i < ingredient_lines(text).len(),
    ensures
        ingredient_lines(text)[i].len() > 0,
        !is_space(ingredient_lines(text)[i].first()),
        !is_space(ingredient_lines(text)[i].last()),
        !ingredient_lines(text)[i].contains('\n'),
    decreases text.len(),
{
    lemma_line_end_bound(text);
    let k = line_end(text) as int;
    let whole = text.subrange(0, k);
    let line = trimmed(whole);
    if line.len() > 0 && i == 0 {
        let a = lemma_trim_start_at(whole);
        let b = lemma_trim_end_at(whole.skip(a));
        assert(line =~= whole.subrange(a, a + b));
        assert forall|j: int| 0 <= j < line.len() implies line[j] != '\n' by {
            assert(line[j] == text[a + j]);
        }
    } else {
        let rest = text.subrange(k + 1, text.len() as int);
        let j = if line.len() > 0 {
            i - 1
        } else {
            i
        };
        law_lines_are_trimmed(rest, j);
    }
}

/// Splits `text` into its ingredient lines.
pub fn parse_ingredients(text: &str) -> (lines: Vec<String>)
    ensures
        lines.deep_view() == ingredient_lines(text@),
{
    let n = text.unicode_len();
    let mut lines: Vec<String> = Vec::new();
    let mut start: usize = 0;
    let mut end: usize = 0;
    let mut i: usize = 0;
    let ghost mut origin: int = 0;
    proof {
        assert(text@.skip(0) =~= text@);
        assert(lines.deep_view() =~= Seq::<Seq<char>>::empty());
    }
    for c in it: text.chars()
        invariant
            it.seq() == text@,
            n == text@.len(),
            i == it.index(),
            0 <= origin <= start <= end <= i <= n,
            forall|j: int| origin <= j < i ==> text@[j] != '\n',
            forall|j: int| origin <= j < start ==> is_space(text@[j]),
            forall|j: int| end <= j < i ==> is_space(text@[j]),
            start < end ==> !is_space(text@[start as int]) && !is_space(text@[end - 1]),
            start == end ==> end == i,
            ingredient_lines(text@) == lines.deep_view() + ingredient_lines(text@.skip(origin)),
    {
        if c == '\n' {
            let ghost rest = text@.skip(origin);
            let ghost line = text@.subrange(origin, i as int);
            proof {
                lemma_line_end(rest, i - origin);
                assert(rest.subrange(0, i - origin) =~= line);
                assert(rest.subrange(i - origin + 1, rest.len() as int) =~= text@.skip(i + 1));
                lemma_trimmed(line, start - origin, end - origin);
                assert(line.subrange(start - origin, end - origin) =~= text@.subrange(
                    start as int,
                    end as int,
                ));
            }
            if start < end {
                let ghost before = lines.deep_view();
                let piece = text.substring_char(start, end);
                lines.push(String::from_str(piece));
                assert(lines.deep_view() =~= before + seq![piece@]);
            }
            start = i + 1;
            end = i + 1;
            proof {
                origin = i + 1;
            }
        } else if !is_whitespace(c) {
            if start == end {
                start = i;
            }
            end = i + 1;
        } else if start == end {
            start = i + 1;
            end = i + 1;
        }
        i = i + 1;
    }
    proof {
        let rest = text@.skip(origin);
        lemma_line_end(rest, n - origin);
        assert(rest.subrange(0, n - origin) =~= rest);
        lemma_trimmed(rest, start - origin, end - origin);
        assert(rest.subrange(start - origin, end - origin) =~= text@.subrange(
            start as int,
            end as int,
        ));
    }
    if start < end {
        let ghost before = lines.deep_view();
        let piece = text.substring_char(start, end);
        lines.push(String::from_str(piece));
        assert(lines.deep_view() =~= before + seq![piece@]);
    }
    lines
}

} // verus!
