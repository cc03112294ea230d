//! Strings seen as sequences of characters, and paths seen as text.
//!
//! A path is a string whose segments are separated by `/`. The functions
//! here answer the few syntactic questions that the rest of the crate asks
//! of a path; none of them looks at a file system.
//!
//! The functions read a path as it is written. They agree with the
//! platform's own reading of Unix paths on every path in plain form: one
//! `/` between segments, none at the end but for the root itself, and no
//! segment `.`. A path in another form is not brought into plain form
//! first: `a/b/` has the empty last segment and the directory part `a/b`,
//! `a/.` has the last segment `.`, and `a//b` has an empty segment. Lists
//! are searched and kept in order one member at a time, which is meant for
//! the few hundred paths of a working tree.

use vstd::prelude::*;

verus! {

/// The characters of `s`, in order.
pub fn chars_of(s: &str) -> (v: Vec<char>)
    ensures
        v@ == s@,
{
    let mut v: Vec<char> = Vec::new();
    for c in it: s.chars()
        invariant
            it.seq() == s@,
            v@ == s@.take(it.index() as int),
    {
        v.push(c);
        assert(s@.take(it.index() + 1) =~= s@.take(it.index() as int).push(s@[it.index() as int]));
    }
    assert(s@.take(s@.len() as int) =~= s@);
    v
}

/// Whether two character vectors are equal.
pub fn chars_eq(x: &Vec<char>, y: &Vec<char>) -> (r: bool)
    ensures
        r == (x@ == y@),
{
    if x.len() != y.len() {
        return false;
    }
    let mut i: usize = 0;
    while i < x.len()
        invariant
            i <= x.len(),
            x.len() == y.len(),
            forall|k: int| 0 <= k < i ==> x@[k] == y@[k],
        decreases x.len() - i,
    {
        if x[i] != y[i] {
            return false;
        }
        i += 1;
    }
    assert(x@ =~= y@);
    true
}

/// Whether two strings hold the same characters.
pub fn str_eq(a: &str, b: &str) -> (r: bool)
    ensures
        r == (a@ == b@),
{
    let x = chars_of(a);
    let y = chars_of(b);
    chars_eq(&x, &y)
}

/// Whether `s` occurs in `list`.
pub open spec fn seq_contains(list: Seq<Seq<char>>, s: Seq<char>) -> bool {
    exists|i: int| 0 <= i < list.len() && list[i] == s
}

/// The views of the strings of a vector.
pub open spec fn views(v: Seq<String>) -> Seq<Seq<char>> {
    Seq::new(v.len(), |i: int| v[i]@)
}

/// Whether a string equal to `s` occurs in `list`.
pub fn contains_str(list: &[String], s: &str) -> (r: bool)
    ensures
        r == seq_contains(views(list@), s@),
{
    let mut i: usize = 0;
    while i < list.len()
        invariant
            i <= list.len(),
            forall|k: int| 0 <= k < i ==> list@[k]@ != s@,
        decreases list.len() - i,
    {
        if str_eq(list[i].as_str(), s) {
            assert(views(list@)[i as int] == s@);
            return true;
        }
        i += 1;
    }
    assert forall|k: int| 0 <= k < views(list@).len() implies views(list@)[k] != s@ by {
        assert(views(list@)[k] == list@[k]@);
    }
    false
}

/// Whether `c` occurs in `s`.
pub fn contains_char(s: &str, c: char) -> (r: bool)
    ensures
        r == s@.contains(c),
{
    let v = chars_of(s);
    let mut i: usize = 0;
    while i < v.len()
        invariant
            i <= v.len(),
            v@ == s@,
            forall|k: int| 0 <= k < i ==> v@[k] != c,
        decreases v.len() - i,
    {
        if v[i] == c {
            return true;
        }
        i += 1;
    }
    false
}

/// Whether `s` begins with the characters of `prefix`.
pub open spec fn has_prefix(s: Seq<char>, prefix: Seq<char>) -> bool {
    prefix.len() <= s.len() && s.take(prefix.len() as int) == prefix
}

/// Whether `v` begins with `prefix`.
pub fn chars_start_with(v: &Vec<char>, prefix: &Vec<char>) -> (r: bool)
    ensures
        r == has_prefix(v@, prefix@),
{
    if prefix.len() > v.len() {
        return false;
    }
    let mut i: usize = 0;
    while i < prefix.len()
        invariant
            i <= prefix.len() <= v.len(),
            forall|k: int| 0 <= k < i ==> v@[k] == prefix@[k],
        decreases prefix.len() - i,
    {
        if v[i] != prefix[i] {
            assert(v@.take(prefix.len() as int)[i as int] == v@[i as int]);
            return false;
        }
        i += 1;
    }
    assert(v@.take(prefix.len() as int) =~= prefix@);
    true
}

/// Where the last segment of a path begins: just after its last `/`, or at
/// 0 where it has none.
pub open spec fn file_name_start(s: Seq<char>) -> int
    decreases s.len(),
{
    if s.len() == 0 {
        0
    } else if s.last() == '/' {
        s.len() as int
    } else {
        file_name_start(s.drop_last())
    }
}

/// The last segment of a path: what follows its last `/`. It is empty for a
/// path that ends in `/`.
pub open spec fn file_name(s: Seq<char>) -> Seq<char> {
    s.subrange(file_name_start(s), s.len() as int)
}

/// `file_name_start` is the one position that follows a separator (or is
/// 0) and has no separator behind it.
pub proof fn lemma_file_name_start(s: Seq<char>)
    ensures
        0 <= file_name_start(s) <= s.len(),
        file_name_start(s) > 0 ==> s[file_name_start(s) - 1] == '/',
        forall|j: int| file_name_start(s) <= j < s.len() ==> s[j] != '/',
    decreases s.len(),
{
    if s.len() > 0 && s.last() != '/' {
        let t = s.drop_last();
        lemma_file_name_start(t);
        assert forall|j: int| file_name_start(s) <= j < s.len() implies s[j] != '/' by {
            if j < t.len() {
                assert(t[j] == s[j]);
            }
        }
        if file_name_start(s) > 0 {
            assert(t[file_name_start(s) - 1] == s[file_name_start(s) - 1]);
        }
    }
}

/// Any position with the two properties of `lemma_file_name_start` is
/// `file_name_start`.
pub proof fn lemma_file_name_start_unique(s: Seq<char>, k: int)
    requires
        0 <= k <= s.len(),
        k > 0 ==> s[k - 1] == '/',
        forall|j: int| k <= j < s.len() ==> s[j] != '/',
    ensures
        k == file_name_start(s),
{
    lemma_file_name_start(s);
    let f = file_name_start(s);
    if f < k {
        assert(s[k - 1] != '/');
    } else if k < f {
        assert(s[f - 1] != '/');
    }
}

/// The index in `v` at which the last segment begins.
pub fn file_name_index(v: &Vec<char>) -> (k: usize)
    ensures
        k == file_name_start(v@),
        k <= v.len(),
{
    let mut k: usize = v.len();
    while k > 0 && v[k - 1] != '/'
        invariant
            k <= v.len(),
            forall|j: int| k <= j < v.len() ==> v@[j] != '/',
        decreases k,
    {
        k -= 1;
    }
    proof {
        lemma_file_name_start_unique(v@, k as int);
    }
    k
}

/// Whether the last segment of `path` is `name`.
pub fn file_name_is(path: &str, name: &str) -> (r: bool)
    ensures
        r == (file_name(path@) == name@),
{
    let v = chars_of(path);
    let n = chars_of(name);
    let k = file_name_index(&v);
    if v.len() - k != n.len() {
        return false;
    }
    let mut i: usize = 0;
    while i < n.len()
        invariant
            i <= n.len(),
            k + n.len() == v.len(),
            k == file_name_start(v@),
            v@ == path@,
            n@ == name@,
            forall|j: int| 0 <= j < i ==> v@[k + j] == n@[j],
        decreases n.len() - i,
    {
        if v[k + i] != n[i] {
            assert(file_name(v@)[i as int] == v@[k + i]);
            return false;
        }
        i += 1;
    }
    assert(file_name(v@) =~= n@);
    true
}

/// Whether a segment of `s` begins at `i` and is `name`: the characters
/// match, and the match is bounded on both sides by a `/` or an end of `s`.
pub open spec fn segment_at(s: Seq<char>, i: int, name: Seq<char>) -> bool {
    &&& 0 <= i
    &&& i + name.len() <= s.len()
    &&& s.subrange(i, i + name.len()) == name
    &&& (i == 0 || s[i - 1] == '/')
    &&& (i + name.len() == s.len() || s[i + name.len()] == '/')
}

/// Whether some segment of the path `s` is `name`.
pub open spec fn has_segment(s: Seq<char>, name: Seq<char>) -> bool {
    exists|i: int| segment_at(s, i, name)
}

/// Whether some segment of `path` is `name`.
pub fn path_has_segment(path: &str, name: &str) -> (r: bool)
    ensures
        r == has_segment(path@, name@),
{
    let v = chars_of(path);
    let n = chars_of(name);
    if n.len() > v.len() {
        return false;
    }
    let last: usize = v.len() - n.len();
    let mut i: usize = 0;
    loop
        invariant
            i <= last,
            last + n.len() == v.len(),
            v@ == path@,
            n@ == name@,
            forall|j: int| 0 <= j < i ==> !segment_at(v@, j, n@),
        decreases last - i,
    {
        let left = i == 0 || v[i - 1] == '/';
        let right = i + n.len() == v.len() || v[i + n.len()] == '/';
        if left && right {
            let mut j: usize = 0;
            let mut same = true;
            while j < n.len() && same
                invariant
                    j <= n.len(),
                    i + n.len() <= v.len(),
                    same ==> forall|t: int| 0 <= t < j ==> v@[i + t] == n@[t],
                    !same ==> exists|t: int| 0 <= t < n.len() && v@[i + t] != n@[t],
                decreases n.len() - j, same as int,
            {
                if v[i + j] != n[j] {
                    same = false;
                } else {
                    j += 1;
                }
            }
            if same {
                assert(v@.subrange(i as int, i + n.len()) =~= n@);
                assert(segment_at(v@, i as int, n@));
                return true;
            } else {
                let ghost t = choose|t: int| 0 <= t < n.len() && v@[i + t] != n@[t];
                assert(v@.subrange(i as int, i + n.len())[t] == v@[i + t]);
            }
        }
        if i == last {
            return false;
        }
        i += 1;
    }
}

/// Whether a path is absolute: it begins with `/`.
pub open spec fn is_absolute(s: Seq<char>) -> bool {
    s.len() > 0 && s[0] == '/'
}

/// Whether `path` is absolute.
pub fn path_is_absolute(path: &str) -> (r: bool)
    ensures
        r == is_absolute(path@),
{
    let v = chars_of(path);
    v.len() > 0 && v[0] == '/'
}

/// Whether the path `s` lies at or below the path `base`: `base` is a
/// prefix of `s` that ends where a segment of `s` ends.
pub open spec fn is_under(s: Seq<char>, base: Seq<char>) -> bool {
    &&& has_prefix(s, base)
    &&& (base.len() == 0 || base.len() == s.len() || base.last() == '/' || s[base.len() as int]
        == '/')
}

/// What is left of `s` below `base`: `s` without `base` and without the one
/// `/` that may follow it. Below the empty base a path is left as it is.
pub open spec fn below(s: Seq<char>, base: Seq<char>) -> Seq<char> {
    if 0 < base.len() < s.len() && s[base.len() as int] == '/' {
        s.subrange(base.len() as int + 1, s.len() as int)
    } else {
        s.subrange(base.len() as int, s.len() as int)
    }
}

/// Whether `path` lies at or below `base`.
pub fn path_is_under(path: &str, base: &str) -> (r: bool)
    ensures
        r == is_under(path@, base@),
{
    let v = chars_of(path);
    let b = chars_of(base);
    if !chars_start_with(&v, &b) {
        return false;
    }
    b.len() == 0 || b.len() == v.len() || b[b.len() - 1] == '/' || v[b.len()] == '/'
}

/// `path` relative to `base`, where it lies at or below it.
pub fn strip_base(path: &str, base: &str) -> (r: Option<String>)
    ensures
        r is Some == is_under(path@, base@),
        r is Some ==> r->0@ == below(path@, base@),
{
    if !path_is_under(path, base) {
        return None;
    }
    let v = chars_of(path);
    let b = chars_of(base);
    let from: usize = if 0 < b.len() && b.len() < v.len() && v[b.len()] == '/' {
        b.len() + 1
    } else {
        b.len()
    };
    Some(path.substring_char(from, v.len()).to_owned())
}

/// `base` followed by `name` as a further segment. An absolute `name`
/// replaces `base`, as does any `name` where `base` is empty.
pub open spec fn joined(base: Seq<char>, name: Seq<char>) -> Seq<char> {
    if is_absolute(name) || base.len() == 0 {
        name
    } else if base.last() == '/' {
        base + name
    } else {
        base + seq!['/'] + name
    }
}

/// The path `base` extended by `name`.
pub fn join(base: &str, name: &str) -> (r: String)
    ensures
        r@ == joined(base@, name@),
{
    let b = chars_of(base);
    if path_is_absolute(name) || b.len() == 0 {
        return name.to_owned();
    }
    let start = base.to_owned();
    if b[b.len() - 1] == '/' {
        start.concat(name)
    } else {
        proof {
            reveal_strlit("/");
            assert("/"@ =~= seq!['/']);
        }
        start.concat("/").concat(name)
    }
}

/// The directory part of a path: what precedes the `/` in front of its
/// last segment. A path without `/` has the empty directory part, and a
/// path directly under the root has the root. The root `/` and the empty
/// path have none.
pub open spec fn parent(s: Seq<char>) -> Option<Seq<char>> {
    if s.len() == 0 || s == seq!['/'] {
        None
    } else if file_name_start(s) == 0 {
        Some(Seq::empty())
    } else if file_name_start(s) == 1 {
        Some(s.take(1))
    } else {
        Some(s.take(file_name_start(s) - 1))
    }
}

/// The directory part of `path`.
pub fn parent_of(path: &str) -> (r: Option<String>)
    ensures
        r is Some == parent(path@) is Some,
        r is Some ==> r->0@ == parent(path@)->0,
{
    let v = chars_of(path);
    if v.len() == 0 || (v.len() == 1 && v[0] == '/') {
        assert(v.len() == 1 && v@[0] == '/' ==> v@ =~= seq!['/']);
        return None;
    }
    assert(v@ != seq!['/']) by {
        if v@ == seq!['/'] {
            assert(v@.len() == 1 && v@[0] == '/');
        }
    }
    let k = file_name_index(&v);
    let to: usize = if k <= 1 {
        k
    } else {
        k - 1
    };
    assert(path@.take(to as int) =~= path@.subrange(0, to as int));
    Some(path.substring_char(0, to).to_owned())
}

/// The rank by which a character is ordered inside a path: the separator
/// comes before every other character, so that what a directory holds
/// sorts right behind it, in front of its longer-named neighbours.
pub open spec fn rank(c: char) -> int {
    if c == '/' {
        0
    } else {
        c as int + 1
    }
}

/// Whether the path `a` comes before the path `b` or equals it, segment by
/// segment.
pub open spec fn path_le(a: Seq<char>, b: Seq<char>) -> bool
    decreases a.len(),
{
    if a.len() == 0 {
        true
    } else if b.len() == 0 {
        false
    } else if a[0] == b[0] {
        path_le(a.drop_first(), b.drop_first())
    } else {
        rank(a[0]) < rank(b[0])
    }
}

/// Distinct characters have distinct ranks, none of them negative.
pub proof fn lemma_rank_orders(x: char, y: char)
    ensures
        rank(x) >= 0,
        x != y ==> rank(x) != rank(y),
{
    assert(x as int >= 0);
    assert(y as int >= 0);
    assert(x != y ==> x as int != y as int);
}

/// Of two paths one comes before the other.
pub proof fn lemma_path_le_total(a: Seq<char>, b: Seq<char>)
    ensures
        path_le(a, b) || path_le(b, a),
    decreases a.len(),
{
    if a.len() > 0 && b.len() > 0 {
        if a[0] == b[0] {
            lemma_path_le_total(a.drop_first(), b.drop_first());
        } else {
            lemma_rank_orders(a[0], b[0]);
        }
    }
}

/// `path_le` is transitive.
pub proof fn lemma_path_le_trans(a: Seq<char>, b: Seq<char>, c: Seq<char>)
    requires
        path_le(a, b),
        path_le(b, c),
    ensures
        path_le(a, c),
    decreases a.len(),
{
    if a.len() > 0 && b.len() > 0 && c.len() > 0 {
        if a[0] == b[0] && b[0] == c[0] {
            lemma_path_le_trans(a.drop_first(), b.drop_first(), c.drop_first());
        }
    }
}

/// Two paths that come before each other are equal.
pub proof fn lemma_path_le_antisym(a: Seq<char>, b: Seq<char>)
    requires
        path_le(a, b),
        path_le(b, a),
    ensures
        a == b,
    decreases a.len(),
{
    if a.len() > 0 && b.len() > 0 {
        lemma_path_le_antisym(a.drop_first(), b.drop_first());
        assert(a =~= seq![a[0]] + a.drop_first());
        assert(b =~= seq![b[0]] + b.drop_first());
    } else {
        assert(a =~= b);
    }
}

fn rank_of(c: char) -> (r: u32)
    ensures
        r == rank(c),
{
    if c == '/' {
        0
    } else {
        c as u32 + 1
    }
}

/// Whether `a` comes before `b` or equals it in path order.
pub fn path_before_or_equal(a: &str, b: &str) -> (r: bool)
    ensures
        r == path_le(a@, b@),
{
    let x = chars_of(a);
    let y = chars_of(b);
    let mut i: usize = 0;
    assert(x@.skip(0) =~= x@ && y@.skip(0) =~= y@);
    while i < x.len() && i < y.len()
        invariant
            i <= x.len(),
            i <= y.len(),
            x@ == a@,
            y@ == b@,
            path_le(a@, b@) == path_le(x@.skip(i as int), y@.skip(i as int)),
        decreases x.len() - i,
    {
        assert(x@.skip(i as int)[0] == x@[i as int]);
        assert(y@.skip(i as int)[0] == y@[i as int]);
        assert(x@.skip(i as int).drop_first() =~= x@.skip(i + 1));
        assert(y@.skip(i as int).drop_first() =~= y@.skip(i + 1));
        if x[i] != y[i] {
            return rank_of(x[i]) < rank_of(y[i]);
        }
        i += 1;
    }
    i == x.len()
}

/// Whether `a` comes strictly before `b` in path order.
pub open spec fn path_lt(a: Seq<char>, b: Seq<char>) -> bool {
    path_le(a, b) && a != b
}

/// Whether `s` ascends strictly in path order, so that no path occurs
/// twice.
pub open spec fn ascending(s: Seq<Seq<char>>) -> bool {
    forall|i: int, j: int| 0 <= i < j < s.len() ==> path_lt(s[i], s[j])
}

/// Two ascending sequences with the same members are the same sequence:
/// to say of a list that it ascends, and what its members are, is to say
/// what the list is.
pub proof fn lemma_ascending_unique(a: Seq<Seq<char>>, b: Seq<Seq<char>>)
    requires
        ascending(a),
        ascending(b),
        forall|p: Seq<char>| seq_contains(a, p) <==> seq_contains(b, p),
    ensures
        a == b,
    decreases a.len(),
{
    if a.len() == 0 {
        if b.len() > 0 {
            assert(seq_contains(b, b[0]));
            assert(seq_contains(a, b[0]));
        }
        assert(a =~= b);
    } else if b.len() == 0 {
        assert(seq_contains(a, a[0]));
        assert(seq_contains(b, a[0]));
    } else {
        // The last members are both the greatest member.
        let x = a.last();
        let y = b.last();
        assert(seq_contains(a, x));
        assert(seq_contains(b, x));
        let i = choose|i: int| 0 <= i < b.len() && b[i] == x;
        assert(seq_contains(b, y));
        assert(seq_contains(a, y));
        let j = choose|j: int| 0 <= j < a.len() && a[j] == y;
        if i < b.len() - 1 {
            assert(path_lt(x, y));
            if j < a.len() - 1 {
                assert(path_lt(y, x));
                lemma_path_le_antisym(x, y);
            }
        }
        assert(x == y);
        let a0 = a.drop_last();
        let b0 = b.drop_last();
        assert forall|p: Seq<char>| seq_contains(a0, p) <==> seq_contains(b0, p) by {
            if seq_contains(a0, p) {
                let k = choose|k: int| 0 <= k < a0.len() && a0[k] == p;
                assert(a[k] == p);
                assert(path_lt(a[k], a[a.len() - 1]));
                assert(seq_contains(a, p));
                let m = choose|m: int| 0 <= m < b.len() && b[m] == p;
                assert(m < b.len() - 1);
                assert(b0[m] == p);
            }
            if seq_contains(b0, p) {
                let k = choose|k: int| 0 <= k < b0.len() && b0[k] == p;
                assert(b[k] == p);
                assert(path_lt(b[k], b[b.len() - 1]));
                assert(seq_contains(b, p));
                let m = choose|m: int| 0 <= m < a.len() && a[m] == p;
                assert(m < a.len() - 1);
                assert(a0[m] == p);
            }
        }
        assert(ascending(a0)) by {
            assert forall|i: int, j: int| 0 <= i < j < a0.len() implies path_lt(a0[i], a0[j]) by {
                assert(a0[i] == a[i] && a0[j] == a[j]);
            }
        }
        assert(ascending(b0)) by {
            assert forall|i: int, j: int| 0 <= i < j < b0.len() implies path_lt(b0[i], b0[j]) by {
                assert(b0[i] == b[i] && b0[j] == b[j]);
            }
        }
        lemma_ascending_unique(a0, b0);
        assert(a =~= a0.push(x));
        assert(b =~= b0.push(y));
    }
}

/// Puts `item` into the ascending `list` at its place, unless it is there
/// already.
pub fn insert_ascending(list: &mut Vec<String>, item: &str)
    requires
        ascending(views(old(list)@)),
    ensures
        ascending(views(final(list)@)),
        forall|p: Seq<char>|
            seq_contains(views(final(list)@), p) <==> (seq_contains(views(old(list)@), p) || p
                == item@),
{
    let ghost before = views(list@);
    let mut k: usize = 0;
    while k < list.len() && path_before_or_equal(list[k].as_str(), item) && !str_eq(
        list[k].as_str(),
        item,
    )
        invariant
            k <= list.len(),
            list@ == old(list)@,
            forall|i: int| 0 <= i < k ==> path_lt(list@[i]@, item@),
        decreases list.len() - k,
    {
        k += 1;
    }
    if k < list.len() && str_eq(list[k].as_str(), item) {
        assert(before[k as int] == item@);
        return;
    }
    proof {
        if k < list.len() {
            lemma_path_le_total(list@[k as int]@, item@);
            assert(path_lt(item@, list@[k as int]@));
            assert forall|j: int| k <= j < list@.len() implies path_lt(item@, list@[j]@) by {
                if j > k {
                    assert(path_lt(before[k as int], before[j]));
                    lemma_path_le_trans(item@, list@[k as int]@, list@[j]@);
                    if item@ == list@[j]@ {
                        lemma_path_le_antisym(list@[k as int]@, item@);
                    }
                }
            }
        }
    }
    list.insert(k, item.to_owned());
    proof {
        let after = views(list@);
        assert(after =~= before.insert(k as int, item@));
        assert forall|i: int, j: int| 0 <= i < j < after.len() implies path_lt(
            after[i],
            after[j],
        ) by {
            if j < k {
                assert(path_lt(before[i], before[j]));
            } else if j == k {
                assert(after[i] == before[i]);
            } else if i < k {
                assert(after[j] == before[j - 1]);
                assert(after[i] == before[i]);
                if i < j - 1 {
                    assert(path_lt(before[i], before[j - 1]));
                }
                lemma_path_le_trans(before[i], item@, before[j - 1]);
                if before[i] == before[j - 1] {
                    lemma_path_le_antisym(before[i], item@);
                }
            } else if i == k {
                assert(after[j] == before[j - 1]);
            } else {
                assert(after[i] == before[i - 1] && after[j] == before[j - 1]);
                assert(path_lt(before[i - 1], before[j - 1]));
            }
        }
        assert forall|p: Seq<char>| seq_contains(after, p) <==> (seq_contains(before, p) || p
            == item@) by {
            if seq_contains(after, p) {
                let i = choose|i: int| 0 <= i < after.len() && after[i] == p;
                if i < k {
                    assert(before[i] == p);
                } else if i > k {
                    assert(before[i - 1] == p);
                }
            }
            if seq_contains(before, p) {
                let i = choose|i: int| 0 <= i < before.len() && before[i] == p;
                if i < k {
                    assert(after[i] == p);
                } else {
                    assert(after[i + 1] == p);
                }
            }
            if p == item@ {
                assert(after[k as int] == p);
            }
        }
    }
}

/// A copy of `list`.
pub fn clone_strings(list: &[String]) -> (copy: Vec<String>)
    ensures
        views(copy@) == views(list@),
{
    let mut copy: Vec<String> = Vec::new();
    let mut i: usize = 0;
    while i < list.len()
        invariant
            i <= list.len(),
            copy@.len() == i,
            forall|k: int| 0 <= k < i ==> copy@[k]@ == list@[k]@,
        decreases list.len() - i,
    {
        copy.push(list[i].clone());
        i += 1;
    }
    assert(views(copy@) =~= views(list@));
    copy
}

/// Whether a character is white space.
pub open spec fn is_space(c: char) -> bool {
    let n = c as int;
    (0x09 <= n <= 0x0d) || n == 0x20 || n == 0x85 || n == 0xa0 || n == 0x1680 || (0x2000 <= n
        <= 0x200a) || n == 0x2028 || n == 0x2029 || n == 0x202f || n == 0x205f || n == 0x3000
}

/// `s` without the white space at its beginning.
pub open spec fn trim_start(s: Seq<char>) -> Seq<char>
    decreases s.len(),
{
    if s.len() > 0 && is_space(s[0]) {
        trim_start(s.drop_first())
    } else {
        s
    }
}

/// `s` without the white space at its end.
pub open spec fn trim_end(s: Seq<char>) -> Seq<char>
    decreases s.len(),
{
    if s.len() > 0 && is_space(s.last()) {
        trim_end(s.drop_last())
    } else {
        s
    }
}

/// `s` without the white space at both ends.
pub open spec fn trimmed(s: Seq<char>) -> Seq<char> {
    trim_end(trim_start(s))
}

/// Whether `c` is white space.
pub fn space(c: char) -> (r: bool)
    ensures
        r == is_space(c),
{
    let n = c as u32;
    (0x09 <= n && n <= 0x0d) || n == 0x20 || n == 0x85 || n == 0xa0 || n == 0x1680 || (0x2000 <= n
        && n <= 0x200a) || n == 0x2028 || n == 0x2029 || n == 0x202f || n == 0x205f || n
        == 0x3000
}

/// Trimming the start of `s` leaves `s` from its first character that is
/// no white space.
pub proof fn lemma_trim_start(s: Seq<char>, a: int)
    requires
        0 <= a <= s.len(),
        forall|j: int| 0 <= j < a ==> is_space(s[j]),
        a < s.len() ==> !is_space(s[a]),
    ensures
        trim_start(s) == s.skip(a),
    decreases a,
{
    if a == 0 {
        assert(s.skip(0) =~= s);
    } else {
        let t = s.drop_first();
        assert forall|j: int| 0 <= j < a - 1 implies is_space(t[j]) by {
            assert(t[j] == s[j + 1]);
        }
        if a - 1 < t.len() {
            assert(t[a - 1] == s[a]);
        }
        lemma_trim_start(t, a - 1);
        assert(t.skip(a - 1) =~= s.skip(a));
    }
}

/// Trimming the end of `s` leaves `s` up to its last character that is no
/// white space.
pub proof fn lemma_trim_end(s: Seq<char>, b: int)
    requires
        0 <= b <= s.len(),
        forall|j: int| b <= j < s.len() ==> is_space(s[j]),
        b > 0 ==> !is_space(s[b - 1]),
    ensures
        trim_end(s) == s.take(b),
    decreases s.len() - b,
{
    if b == s.len() {
        assert(s.take(b) =~= s);
    } else {
        let t = s.drop_last();
        assert forall|j: int| b <= j < t.len() implies is_space(t[j]) by {
            assert(t[j] == s[j]);
        }
        if b > 0 {
            assert(t[b - 1] == s[b - 1]);
        }
        lemma_trim_end(t, b);
        assert(t.take(b) =~= s.take(b));
    }
}

} // verus!
