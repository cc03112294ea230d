//! Keeping this crate's own metadata folder out of version control: the
//! line that an ignore-rule file needs, and the file with that line added.

use crate::text::{
    chars_of,
    is_space,
    lemma_trim_end,
    lemma_trim_start,
    space,
    trimmed,
};
use vstd::prelude::*;

verus! {

/// The comment that is put above the added line.
pub open spec fn comment_line() -> Seq<char> {
    "# dbx-ignore metadata folder - not needed in version control"@
}

/// The line that excludes the metadata folder.
pub open spec fn pattern_line() -> Seq<char> {
    ".dbx-ignore/"@
}

/// The length of the first line of `s`: the position of its first line
/// feed, or its length where it has none.
pub open spec fn first_line_len(s: Seq<char>) -> int
    decreases s.len(),
{
    if s.len() == 0 || s[0] == '\n' {
        0
    } else {
        1 + first_line_len(s.drop_first())
    }
}

/// Whether some line of `s`, without the white space at its ends, is `t`.
pub open spec fn has_line(s: Seq<char>, t: Seq<char>) -> bool
    decreases s.len(),
{
    if s.len() == 0 {
        false
    } else {
        let k = first_line_len(s);
        trimmed(s.take(k)) == t || (0 <= k < s.len() && has_line(s.skip(k + 1), t))
    }
}

/// Whether the content of a rule file excludes the metadata folder
/// already, with or without the closing `/`.
pub open spec fn excluded(content: Seq<char>) -> bool {
    has_line(content, ".dbx-ignore/"@) || has_line(content, ".dbx-ignore"@)
}

/// The content with the comment and the excluding line put in front. What
/// was there follows after an empty line, and ends in a line feed.
pub open spec fn with_exclusion(content: Seq<char>) -> Seq<char> {
    let head = comment_line() + seq!['\n'] + pattern_line() + seq!['\n'];
    if content.len() == 0 {
        head
    } else if content.last() == '\n' {
        head + seq!['\n'] + content
    } else {
        head + seq!['\n'] + content + seq!['\n']
    }
}

/// `first_line_len` is within `s`, marks a line feed or the end, and has
/// no line feed in front of it.
pub proof fn lemma_first_line_len(s: Seq<char>)
    ensures
        0 <= first_line_len(s) <= s.len(),
        first_line_len(s) < s.len() ==> s[first_line_len(s)] == '\n',
        forall|j: int| 0 <= j < first_line_len(s) ==> s[j] != '\n',
    decreases s.len(),
{
    if s.len() > 0 && s[0] != '\n' {
        let t = s.drop_first();
        lemma_first_line_len(t);
        assert forall|j: int| 0 <= j < first_line_len(s) implies s[j] != '\n' by {
            if j > 0 {
                assert(t[j - 1] == s[j]);
            }
        }
        if first_line_len(s) < s.len() {
            assert(t[first_line_len(t)] == s[first_line_len(s)]);
        }
    }
}

/// The first position at or after which `s` has a line feed, or its
/// length, is `first_line_len`.
pub proof fn lemma_first_line_len_is(s: Seq<char>, k: int)
    requires
        0 <= k <= s.len(),
        k < s.len() ==> s[k] == '\n',
        forall|j: int| 0 <= j < k ==> s[j] != '\n',
    ensures
        first_line_len(s) == k,
{
    lemma_first_line_len(s);
    let f = first_line_len(s);
    if f < k {
        assert(s[f] != '\n');
    } else if k < f {
        assert(s[k] != '\n');
    }
}

fn range_is(v: &Vec<char>, from: usize, to: usize, word: &Vec<char>) -> (r: bool)
    requires
        from <= to <= v.len(),
    ensures
        r == (v@.subrange(from as int, to as int) == word@),
{
    if to - from != word.len() {
        return false;
    }
    let mut i: usize = 0;
    while i < word.len()
        invariant
            i <= word.len(),
            from + word.len() == to,
            to <= v.len(),
            forall|j: int| 0 <= j < i ==> v@[from + j] == word@[j],
        decreases word.len() - i,
    {
        if v[from + i] != word[i] {
            assert(v@.subrange(from as int, to as int)[i as int] == v@[from + i]);
            return false;
        }
        i += 1;
    }
    assert(v@.subrange(from as int, to as int) =~= word@);
    true
}

fn contains_line(v: &Vec<char>, word: &Vec<char>) -> (r: bool)
    ensures
        r == has_line(v@, word@),
{
    let mut pos: usize = 0;
    assert(v@.skip(0) =~= v@);
    while pos < v.len()
        invariant
            pos <= v.len(),
            has_line(v@, word@) == has_line(v@.skip(pos as int), word@),
        decreases v.len() - pos,
    {
        let ghost rest = v@.skip(pos as int);
        let mut end: usize = pos;
        while end < v.len() && v[end] != '\n'
            invariant
                pos <= end <= v.len(),
                forall|j: int| pos <= j < end ==> v@[j] != '\n',
            decreases v.len() - end,
        {
            end += 1;
        }
        let mut a: usize = pos;
        while a < end && space(v[a])
            invariant
                pos <= a <= end,
                end <= v.len(),
                forall|j: int| pos <= j < a ==> is_space(v@[j]),
            decreases end - a,
        {
            a += 1;
        }
        let mut b: usize = end;
        while b > a && space(v[b - 1])
            invariant
                a <= b <= end,
                end <= v.len(),
                forall|j: int| b <= j < end ==> is_space(v@[j]),
            decreases b,
        {
            b -= 1;
        }
        proof {
            let k = end - pos;
            assert forall|j: int| 0 <= j < k implies rest[j] != '\n' by {
                assert(rest[j] == v@[pos + j]);
            }
            if k < rest.len() {
                assert(rest[k as int] == v@[end as int]);
            }
            lemma_first_line_len_is(rest, k as int);
            let line = rest.take(k as int);
            assert forall|j: int| 0 <= j < a - pos implies is_space(line[j]) by {
                assert(line[j] == v@[pos + j]);
            }
            if a - pos < line.len() {
                assert(line[a - pos] == v@[a as int]);
            }
            lemma_trim_start(line, a - pos);
            let tail = line.skip(a - pos);
            assert forall|j: int| b - a <= j < tail.len() implies is_space(tail[j]) by {
                assert(tail[j] == v@[a + j]);
            }
            if b > a {
                assert(tail[b - a - 1] == v@[b - 1]);
            }
            lemma_trim_end(tail, b - a);
            assert(tail.take(b - a) =~= v@.subrange(a as int, b as int));
            assert(trimmed(line) == v@.subrange(a as int, b as int));
            if end < v.len() {
                assert(rest.skip(k + 1) =~= v@.skip(end + 1));
            }
        }
        if range_is(v, a, b, word) {
            return true;
        }
        if end == v.len() {
            return false;
        }
        pos = end + 1;
    }
    false
}

/// What an ignore-rule file has to hold so that the metadata folder stays
/// out of version control. `content` is what the file holds now, empty
/// where there is no file. Outside a repository, and where a line of the
/// file excludes the folder already, there is nothing to write. Otherwise
/// the result is the new content of the file.
pub fn ensure_dbx_ignore_in_gitignore(in_repository: bool, content: &str) -> (r: Option<String>)
    ensures
        r is None == (!in_repository || excluded(content@)),
        r matches Some(text) ==> text@ == with_exclusion(content@),
{
    if !in_repository {
        return None;
    }
    let v = chars_of(content);
    let with_slash = chars_of(".dbx-ignore/");
    let without = chars_of(".dbx-ignore");
    if contains_line(&v, &with_slash) || contains_line(&v, &without) {
        return None;
    }
    proof {
        reveal_strlit("\n");
        assert("\n"@ =~= seq!['\n']);
    }
    let head = "# dbx-ignore metadata folder - not needed in version control".to_owned().concat(
        "\n",
    ).concat(".dbx-ignore/").concat("\n");
    if v.len() == 0 {
        return Some(head);
    }
    let body = head.concat("\n").concat(content);
    if v[v.len() - 1] == '\n' {
        Some(body)
    } else {
        Some(body.concat("\n"))
    }
}

} // verus!
