//! Characters, blank lines and whitespace-separated words.

use vstd::prelude::*;

verus! {

/// Whether `c` is white space: the code points that carry Unicode's
/// `White_Space` property.
pub open spec fn is_space(c: char) -> bool {
    let n = c as u32;
    ||| (0x9 <= n && n <= 0xd)
    ||| n == 0x20
    ||| n == 0x85
    ||| n == 0xa0
    ||| n == 0x1680
    ||| (0x2000 <= n && n <= 0x200a)
    ||| n == 0x2028
    ||| n == 0x2029
    ||| n == 0x202f
    ||| n == 0x205f
    ||| n == 0x3000
}

/// A line is blank when nothing but white space stands in it.
pub open spec fn is_blank(line: Seq<char>) -> bool {
    forall|i: int| 0 <= i < line.len() ==> is_space(#[trigger] line[i])
}

/// The first index at or after `from` that holds no white space, or the
/// length of `s` where there is none.
pub open spec fn skip_spaces(s: Seq<char>, from: int) -> int
    decreases s.len() - from,
{
    if from < 0 || from >= s.len() {
        s.len() as int
    } else if is_space(s[from]) {
        skip_spaces(s, from + 1)
    } else {
        from
    }
}

/// The first index at or after `from` that holds white space, or the length
/// of `s` where there is none.
pub open spec fn skip_word(s: Seq<char>, from: int) -> int
    decreases s.len() - from,
{
    if from < 0 || from >= s.len() {
        s.len() as int
    } else if is_space(s[from]) {
        from
    } else {
        skip_word(s, from + 1)
    }
}

/// The bounds of the first word that starts at or after `from`: the index of
/// its first character and the index behind its last one.
pub open spec fn word_from(s: Seq<char>, from: int) -> Option<(int, int)> {
    let start = skip_spaces(s, from);
    if start < s.len() {
        Some((start, skip_word(s, start)))
    } else {
        None
    }
}

/// The bounds of the word with the number `n`, counted from 0.
pub open spec fn word_bounds(s: Seq<char>, n: nat) -> Option<(int, int)>
    decreases n,
{
    if n == 0 {
        word_from(s, 0)
    } else {
        match word_bounds(s, (n - 1) as nat) {
            Some((_, end)) => word_from(s, end),
            None => None,
        }
    }
}

/// The word with the number `n`, counted from 0, where `s` has that many.
pub open spec fn word(s: Seq<char>, n: nat) -> Option<Seq<char>> {
    match word_bounds(s, n) {
        Some((start, end)) => Some(s.subrange(start, end)),
        None => None,
    }
}

/// What `skip_spaces` returns lies between `from` and the length of `s`, and
/// only white space stands before it.
pub proof fn lemma_skip_spaces(s: Seq<char>, from: int)
    requires
        0 <= from <= s.len(),
    ensures
        from <= skip_spaces(s, from) <= s.len(),
        forall|i: int| from <= i < skip_spaces(s, from) ==> is_space(#[trigger] s[i]),
        skip_spaces(s, from) < s.len() ==> !is_space(s[skip_spaces(s, from)]),
    decreases s.len() - from,
{
    if from < s.len() && is_space(s[from]) {
        lemma_skip_spaces(s, from + 1);
    }
}

/// What `skip_word` returns lies between `from` and the length of `s`, and no
/// white space stands before it.
pub proof fn lemma_skip_word(s: Seq<char>, from: int)
    requires
        0 <= from <= s.len(),
    ensures
        from <= skip_word(s, from) <= s.len(),
        forall|i: int| from <= i < skip_word(s, from) ==> !is_space(#[trigger] s[i]),
        skip_word(s, from) < s.len() ==> is_space(s[skip_word(s, from)]),
        from < s.len() && !is_space(s[from]) ==> from < skip_word(s, from),
    decreases s.len() - from,
{
    if from < s.len() && !is_space(s[from]) {
        lemma_skip_word(s, from + 1);
    }
}

/// The index behind the last `/` that stands in `path` before `end`, or 0
/// where there is none.
pub open spec fn name_start(path: Seq<char>, end: int) -> int
    decreases end,
{
    if end <= 0 || end > path.len() {
        0
    } else if path[end - 1] == '/' {
        end
    } else {
        name_start(path, end - 1)
    }
}

/// The bounds of the last component of `path` that ends at or before `end`
/// and is neither empty nor a single dot. The components of a path are what
/// stands between its `/`.
pub open spec fn last_component(path: Seq<char>, end: int) -> Option<(int, int)>
    decreases end,
{
    if end <= 0 || end > path.len() {
        None
    } else {
        let start = name_start(path, end);
        if start == end {
            last_component(path, end - 1)
        } else if start == end - 1 && path[start] == '.' {
            last_component(path, end - 1)
        } else {
            Some((start, end))
        }
    }
}

/// The file name of a path: its last component that is neither empty nor a
/// single dot. A path without such a component has no file name, and neither
/// has a path in which that component is `..`.
pub open spec fn file_name_of(path: Seq<char>) -> Option<Seq<char>> {
    match last_component(path, path.len() as int) {
        None => None,
        Some((start, end)) => if path.subrange(start, end) == seq!['.', '.'] {
            None
        } else {
            Some(path.subrange(start, end))
        },
    }
}

/// The component that starts at `name_start` holds no `/`, and a `/` stands
/// in front of it unless it starts the path.
pub proof fn lemma_name_start(path: Seq<char>, end: int)
    requires
        0 <= end <= path.len(),
    ensures
        0 <= name_start(path, end) <= end,
        forall|i: int| name_start(path, end) <= i < end ==> #[trigger] path[i] != '/',
        name_start(path, end) > 0 ==> path[name_start(path, end) - 1] == '/',
    decreases end,
{
    if end > 0 && path[end - 1] != '/' {
        lemma_name_start(path, end - 1);
    }
}

/// A file name is not empty, holds no `/`, and is neither `.` nor `..`.
pub proof fn lemma_file_name(path: Seq<char>)
    ensures
        match file_name_of(path) {
            Some(name) => {
                &&& name.len() > 0
                &&& !name.contains('/')
                &&& name != seq!['.']
                &&& name != seq!['.', '.']
            },
            None => true,
        },
{
    lemma_last_component(path, path.len() as int);
    match last_component(path, path.len() as int) {
        None => {},
        Some((start, end)) => {
            let name = path.subrange(start, end);
            if name == seq!['.'] {
                assert(name.len() == 1);
                assert(name[0] == '.');
            }
        },
    }
}

/// The last component lies within the path, is not empty, holds no `/` and is
/// no single dot.
pub proof fn lemma_last_component(path: Seq<char>, end: int)
    requires
        end <= path.len(),
    ensures
        match last_component(path, end) {
            Some((a, b)) => {
                &&& 0 <= a < b <= end
                &&& a == name_start(path, b)
                &&& forall|i: int| a <= i < b ==> #[trigger] path[i] != '/'
                &&& !(b == a + 1 && path[a] == '.')
            },
            None => true,
        },
    decreases end,
{
    if end > 0 {
        lemma_name_start(path, end);
        lemma_last_component(path, end - 1);
    }
}

/// Tests whether `c` is white space.
pub fn is_whitespace(c: char) -> (b: bool)
    ensures
        b == is_space(c),
{
    let n: u32 = c as u32;
    (0x9 <= n && n <= 0xd) || n == 0x20 || n == 0x85 || n == 0xa0 || n == 0x1680 || (0x2000 <= n
        && n <= 0x200a) || n == 0x2028 || n == 0x2029 || n == 0x202f || n == 0x205f || n == 0x3000
}

/// The characters of `s`, one by one.
pub fn chars_of(s: &str) -> (v: Vec<char>)
    ensures
        v@ == s@,
{
    let n: usize = s.unicode_len();
    let mut v: Vec<char> = Vec::new();
    let mut i: usize = 0;
    while i < n
        invariant
            n == s@.len(),
            i <= n,
            v@ == s@.subrange(0, i as int),
        decreases n - i,
    {
        v.push(s.get_char(i));
        i += 1;
        assert(v@ =~= s@.subrange(0, i as int));
    }
    assert(v@ =~= s@);
    v
}

/// Tests whether the line `s` is blank.
pub fn line_is_blank(s: &Vec<char>) -> (b: bool)
    ensures
        b == is_blank(s@),
{
    let mut i: usize = 0;
    while i < s.len()
        invariant
            i <= s.len(),
            forall|j: int| 0 <= j < i ==> is_space(#[trigger] s@[j]),
        decreases s.len() - i,
    {
        if !is_whitespace(s[i]) {
            return false;
        }
        i += 1;
    }
    true
}

/// Tests whether the line `line` is blank.
pub fn blank(line: &str) -> (b: bool)
    ensures
        b == is_blank(line@),
{
    let chars = chars_of(line);
    line_is_blank(&chars)
}

/// Finds the first word of `s` that starts at or after `from`.
pub fn next_word(s: &Vec<char>, from: usize) -> (r: Option<(usize, usize)>)
    requires
        from <= s.len(),
    ensures
        match word_from(s@, from as int) {
            Some((a, b)) => r == Some((a as usize, b as usize)) && from <= a < b <= s.len(),
            None => r is None,
        },
        match r {
            Some((a, b)) => {
                &&& forall|i: int| from <= i < a ==> is_space(#[trigger] s@[i])
                &&& forall|i: int| a <= i < b ==> !is_space(#[trigger] s@[i])
                &&& b < s.len() ==> is_space(s@[b as int])
            },
            None => forall|i: int| from <= i < s.len() ==> is_space(#[trigger] s@[i]),
        },
{
    proof {
        lemma_skip_spaces(s@, from as int);
        lemma_skip_word(s@, skip_spaces(s@, from as int));
    }
    let mut start: usize = from;
    while start < s.len() && is_whitespace(s[start])
        invariant
            from <= start <= s.len(),
            skip_spaces(s@, from as int) == skip_spaces(s@, start as int),
        decreases s.len() - start,
    {
        start += 1;
    }
    if start >= s.len() {
        return None;
    }
    let mut end: usize = start + 1;
    while end < s.len() && !is_whitespace(s[end])
        invariant
            start < end <= s.len(),
            skip_word(s@, start as int) == skip_word(s@, end as int),
        decreases s.len() - end,
    {
        end += 1;
    }
    Some((start, end))
}

/// Where `s` has no word with the number `k`, it has none with a later
/// number.
pub proof fn lemma_no_later_word(s: Seq<char>, k: nat, n: nat)
    requires
        k <= n,
        word_bounds(s, k) is None,
    ensures
        word_bounds(s, n) is None,
    decreases n,
{
    if k < n {
        lemma_no_later_word(s, k, (n - 1) as nat);
    }
}

/// The word of `line` with the number `n`, counted from 0: `None` where the
/// line has fewer words.
pub fn nth_word(line: &str, n: usize) -> (r: Option<String>)
    ensures
        match word(line@, n as nat) {
            Some(w) => r is Some && r->Some_0@ == w,
            None => r is None,
        },
{
    let chars = chars_of(line);
    let mut found = next_word(&chars, 0);
    let mut k: usize = 0;
    while k < n
        invariant
            k <= n,
            chars@ == line@,
            match word_bounds(chars@, k as nat) {
                Some((a, b)) => found == Some((a as usize, b as usize)) && 0 <= a < b
                    <= chars.len(),
                None => found is None,
            },
        decreases n - k,
    {
        match found {
            None => {
                proof {
                    lemma_no_later_word(chars@, k as nat, n as nat);
                }
                return None;
            },
            Some((_, end)) => {
                found = next_word(&chars, end);
                k += 1;
            },
        }
    }
    match found {
        None => None,
        Some((start, end)) => Some(line.substring_char(start, end).to_owned()),
    }
}

/// The file name of `path`, where it has one.
pub fn file_name(path: &str) -> (name: Option<String>)
    ensures
        match file_name_of(path@) {
            Some(n) => name is Some && name->Some_0@ == n,
            None => name is None,
        },
{
    let chars = chars_of(path);
    let mut end: usize = chars.len();
    while end > 0
        invariant
            chars@ == path@,
            end <= chars.len(),
            last_component(chars@, chars.len() as int) == last_component(chars@, end as int),
        decreases end,
    {
        let mut start: usize = end;
        while start > 0 && chars[start - 1] != '/'
            invariant
                start <= end <= chars.len(),
                name_start(chars@, end as int) == name_start(chars@, start as int),
            decreases start,
        {
            start -= 1;
        }
        if start == end || (start == end - 1 && chars[start] == '.') {
            end -= 1;
        } else {
            let ghost name = chars@.subrange(start as int, end as int);
            if end - start == 2 && chars[start] == '.' && chars[start + 1] == '.' {
                assert(name =~= seq!['.', '.']);
                return None;
            }
            proof {
                if name == seq!['.', '.'] {
                    assert(name.len() == 2);
                    assert(name[0] == '.' && name[1] == '.');
                }
            }
            return Some(path.substring_char(start, end).to_owned());
        }
    }
    None
}

} // verus!
