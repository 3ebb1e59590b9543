//! The annotation `(in target '<T>' from project '<P>')` of a header line.

use vstd::prelude::*;
use crate::error::Error;
use crate::text::chars_of;

verus! {

/// Whether `needle` stands in `hay` at the index `at`.
pub open spec fn occurs_at(hay: Seq<char>, needle: Seq<char>, at: int) -> bool {
    0 <= at && at + needle.len() <= hay.len() && hay.subrange(at, at + needle.len()) == needle
}

/// The last index at which `needle` stands in `hay` and ends at or before
/// `end`.
pub open spec fn search_back(hay: Seq<char>, needle: Seq<char>, end: int) -> Option<int>
    decreases end + 1,
{
    if end < needle.len() || end > hay.len() {
        None
    } else if occurs_at(hay, needle, end - needle.len()) {
        Some(end - needle.len())
    } else {
        search_back(hay, needle, end - 1)
    }
}

/// What opens the annotation.
pub open spec fn opening() -> Seq<char> {
    "(in target '"@
}

/// What stands between the target and the project.
pub open spec fn joint() -> Seq<char> {
    "' from project '"@
}

/// What closes the annotation.
pub open spec fn closing() -> Seq<char> {
    "')"@
}

/// Target and project as sequences of characters.
pub ghost struct DescriptionView {
    pub target: Seq<char>,
    pub project: Seq<char>,
}

/// The target and the project that a header line attributes its step to.
#[derive(Clone, Debug)]
pub struct Description {
    pub target: String,
    pub project: String,
}

impl View for Description {
    type V = DescriptionView;

    open spec fn view(&self) -> DescriptionView {
        DescriptionView { target: self.target@, project: self.project@ }
    }
}

/// The description that `line` carries in its last annotation. The project
/// stands in front of the last closing of the line, behind the last joint in
/// front of that closing; the target stands in front of that joint, behind the
/// last opening in front of it. Neither is empty.
pub open spec fn description_of(line: Seq<char>) -> Option<DescriptionView> {
    match search_back(line, closing(), line.len() as int) {
        None => None,
        Some(c) => match search_back(line, joint(), c) {
            None => None,
            Some(b) => match search_back(line, opening(), b) {
                None => None,
                Some(a) => if a + opening().len() < b && b + joint().len() < c {
                    Some(
                        DescriptionView {
                            target: line.subrange(a + opening().len(), b),
                            project: line.subrange(b + joint().len(), c),
                        },
                    )
                } else {
                    None
                },
            },
        },
    }
}

/// A line that carries the annotation for `target` and `project`, with
/// `before` in front of it and `after` behind it.
pub open spec fn annotated(
    before: Seq<char>,
    target: Seq<char>,
    project: Seq<char>,
    after: Seq<char>,
) -> Seq<char> {
    before + opening() + target + joint() + project + closing() + after
}

/// Where `needle` stands at `at`, ends at or before `end`, and stands nowhere
/// behind `at` so that it ends at or before `end`, the search back from `end`
/// finds it at `at`.
pub proof fn lemma_search_back_last(hay: Seq<char>, needle: Seq<char>, end: int, at: int)
    requires
        at + needle.len() <= end <= hay.len(),
        occurs_at(hay, needle, at),
        forall|j: int| at < j && j + needle.len() <= end ==> !occurs_at(hay, needle, j),
    ensures
        search_back(hay, needle, end) == Some(at),
    decreases end,
{
    if at + needle.len() < end {
        lemma_search_back_last(hay, needle, end - 1, at);
    }
}

/// What a search back finds is an occurrence that ends at or before `end`,
/// with none behind it that does; where it finds nothing, none ends at or
/// before `end`.
pub proof fn lemma_search_back(hay: Seq<char>, needle: Seq<char>, end: int)
    requires
        end <= hay.len(),
    ensures
        match search_back(hay, needle, end) {
            Some(at) => at + needle.len() <= end && occurs_at(hay, needle, at) && forall|j: int|
                at < j && j + needle.len() <= end ==> !occurs_at(hay, needle, j),
            None => forall|j: int| j + needle.len() <= end ==> !occurs_at(hay, needle, j),
        },
    decreases end + 1,
{
    if end >= needle.len() && !occurs_at(hay, needle, end - needle.len()) {
        lemma_search_back(hay, needle, end - 1);
    }
}

/// Where `needle` stands in `hay` at `at`, the characters of the two agree.
pub proof fn lemma_occurrence(hay: Seq<char>, needle: Seq<char>, at: int, k: int)
    requires
        occurs_at(hay, needle, at),
        0 <= k < needle.len(),
    ensures
        hay[at + k] == needle[k],
{
    assert(hay.subrange(at, at + needle.len())[k] == needle[k]);
}

/// A closing with no quote behind it is the last closing of the line.
pub proof fn lemma_closing_is_last(line: Seq<char>, c: int)
    requires
        occurs_at(line, closing(), c),
        forall|j: int| c + closing().len() <= j < line.len() ==> #[trigger] line[j] != '\'',
    ensures
        search_back(line, closing(), line.len() as int) == Some(c),
{
    reveal_strlit("')");
    assert forall|j: int| c < j && j + closing().len() <= line.len() implies !occurs_at(
        line,
        closing(),
        j,
    ) by {
        if occurs_at(line, closing(), j) {
            lemma_occurrence(line, closing(), j, 0);
            lemma_occurrence(line, closing(), c, 1);
        }
    }
    lemma_search_back_last(line, closing(), line.len() as int, c);
}

/// A joint with no quote between it and `end` is the last joint that ends at
/// or before `end`.
pub proof fn lemma_joint_is_last(line: Seq<char>, b: int, end: int)
    requires
        occurs_at(line, joint(), b),
        b + joint().len() <= end <= line.len(),
        forall|j: int| b + joint().len() <= j < end ==> #[trigger] line[j] != '\'',
    ensures
        search_back(line, joint(), end) == Some(b),
{
    reveal_strlit("' from project '");
    assert forall|j: int| b < j && j + joint().len() <= end implies !occurs_at(
        line,
        joint(),
        j,
    ) by {
        if occurs_at(line, joint(), j) {
            if j == b + 15 {
                lemma_occurrence(line, joint(), j, 15);
            } else {
                lemma_occurrence(line, joint(), j, 0);
                if j < b + 15 {
                    lemma_occurrence(line, joint(), b, j - b);
                }
            }
        }
    }
    lemma_search_back_last(line, joint(), end, b);
}

/// An opening with no quote between it and `end` is the last opening that
/// ends at or before `end`.
pub proof fn lemma_opening_is_last(line: Seq<char>, a: int, end: int)
    requires
        occurs_at(line, opening(), a),
        a + opening().len() <= end <= line.len(),
        forall|j: int| a + opening().len() <= j < end ==> #[trigger] line[j] != '\'',
    ensures
        search_back(line, opening(), end) == Some(a),
{
    reveal_strlit("(in target '");
    assert forall|j: int| a < j && j + opening().len() <= end implies !occurs_at(
        line,
        opening(),
        j,
    ) by {
        if occurs_at(line, opening(), j) {
            lemma_occurrence(line, opening(), j, 11);
        }
    }
    lemma_search_back_last(line, opening(), end, a);
}

/// Where the parts of an annotated line stand in it.
pub proof fn lemma_annotated_parts(
    before: Seq<char>,
    target: Seq<char>,
    project: Seq<char>,
    after: Seq<char>,
)
    ensures
        ({
            let line = annotated(before, target, project, after);
            let a = before.len() as int;
            let t = a + opening().len();
            let b = t + target.len();
            let p = b + joint().len();
            let c = p + project.len();
            let e = c + closing().len();
            &&& line.len() == e + after.len()
            &&& occurs_at(line, opening(), a)
            &&& occurs_at(line, joint(), b)
            &&& occurs_at(line, closing(), c)
            &&& line.subrange(t, b) == target
            &&& line.subrange(p, c) == project
            &&& line.subrange(e, line.len() as int) == after
        }),
{
    let line = annotated(before, target, project, after);
    let a = before.len() as int;
    let t = a + opening().len();
    let b = t + target.len();
    let p = b + joint().len();
    let c = p + project.len();
    let e = c + closing().len();
    assert(line.subrange(a, t) =~= opening());
    assert(line.subrange(b, p) =~= joint());
    assert(line.subrange(c, e) =~= closing());
    assert(line.subrange(t, b) =~= target);
    assert(line.subrange(p, c) =~= project);
    assert(line.subrange(e, line.len() as int) =~= after);
}

/// A header line yields the target and the project of its last annotation as
/// they are written: where neither name is empty or holds a quote, and no
/// quote stands behind the annotation, the description of the line is these
/// two names, whatever stands in front of the annotation.
pub proof fn lemma_description_verbatim(
    before: Seq<char>,
    target: Seq<char>,
    project: Seq<char>,
    after: Seq<char>,
)
    requires
        target.len() > 0,
        project.len() > 0,
        !target.contains('\''),
        !project.contains('\''),
        !after.contains('\''),
    ensures
        description_of(annotated(before, target, project, after)) == Some(
            DescriptionView { target, project },
        ),
{
    let line = annotated(before, target, project, after);
    let a = before.len() as int;
    let t = a + opening().len();
    let b = t + target.len();
    let p = b + joint().len();
    let c = p + project.len();
    let e = c + closing().len();
    lemma_annotated_parts(before, target, project, after);
    assert forall|j: int| e <= j < line.len() implies #[trigger] line[j] != '\'' by {
        assert(line[j] == line.subrange(e, line.len() as int)[j - e]);
        assert(after.contains(after[j - e]));
    }
    lemma_closing_is_last(line, c);
    assert forall|j: int| p <= j < c implies #[trigger] line[j] != '\'' by {
        assert(line[j] == line.subrange(p, c)[j - p]);
        assert(project.contains(project[j - p]));
    }
    lemma_joint_is_last(line, b, c);
    assert forall|j: int| t <= j < b implies #[trigger] line[j] != '\'' by {
        assert(line[j] == line.subrange(t, b)[j - t]);
        assert(target.contains(target[j - t]));
    }
    lemma_opening_is_last(line, a, b);
}

/// Tests whether `needle` stands in `hay` at `at`.
pub fn stands_at(hay: &Vec<char>, needle: &Vec<char>, at: usize) -> (b: bool)
    ensures
        b == occurs_at(hay@, needle@, at as int),
{
    if needle.len() > hay.len() || at > hay.len() - needle.len() {
        return false;
    }
    let mut k: usize = 0;
    while k < needle.len()
        invariant
            k <= needle.len(),
            at + needle.len() <= hay.len(),
            forall|j: int| 0 <= j < k ==> hay@[at + j] == needle@[j],
        decreases needle.len() - k,
    {
        if hay[at + k] != needle[k] {
            assert(hay@.subrange(at as int, at + needle.len())[k as int] != needle@[k as int]);
            return false;
        }
        k += 1;
    }
    assert(hay@.subrange(at as int, at + needle.len()) =~= needle@);
    true
}

/// Finds the last index at which `needle` stands in `hay` and ends at or
/// before `end`.
pub fn find_back(hay: &Vec<char>, needle: &Vec<char>, end: usize) -> (r: Option<usize>)
    ensures
        match search_back(hay@, needle@, end as int) {
            Some(at) => r == Some(at as usize) && 0 <= at && at + needle.len() <= end,
            None => r is None,
        },
        match r {
            Some(at) => occurs_at(hay@, needle@, at as int) && forall|j: int|
                at < j && j + needle.len() <= end ==> !occurs_at(hay@, needle@, j),
            None => end <= hay.len() ==> forall|j: int|
                j + needle.len() <= end ==> !occurs_at(hay@, needle@, j),
        },
{
    if end > hay.len() || end < needle.len() {
        proof {
            if end <= hay.len() {
                lemma_search_back(hay@, needle@, end as int);
            }
        }
        return None;
    }
    let mut at: usize = end - needle.len();
    loop
        invariant
            at + needle.len() <= end <= hay.len(),
            search_back(hay@, needle@, end as int) == search_back(hay@, needle@, at + needle.len()),
        decreases at,
    {
        if stands_at(hay, needle, at) {
            proof {
                lemma_search_back(hay@, needle@, end as int);
            }
            return Some(at);
        }
        if at == 0 {
            proof {
                assert(search_back(hay@, needle@, needle.len() - 1) is None);
                lemma_search_back(hay@, needle@, end as int);
            }
            return None;
        }
        at -= 1;
    }
}

impl Description {
    /// Reads the description out of a header line.
    pub fn from_line(line: &str) -> (r: Result<Description, Error>)
        ensures
            match description_of(line@) {
                Some(d) => r is Ok && r->Ok_0@ == d,
                None => r == Err::<Description, Error>(Error::MalformedDescription),
            },
    {
        let hay = chars_of(line);
        let open = chars_of("(in target '");
        let mid = chars_of("' from project '");
        let close = chars_of("')");
        let c = match find_back(&hay, &close, hay.len()) {
            Some(c) => c,
            None => { return Err(Error::MalformedDescription); },
        };
        let b = match find_back(&hay, &mid, c) {
            Some(b) => b,
            None => { return Err(Error::MalformedDescription); },
        };
        let a = match find_back(&hay, &open, b) {
            Some(a) => a,
            None => { return Err(Error::MalformedDescription); },
        };
        let target_start: usize = a + open.len();
        let project_start: usize = b + mid.len();
        if target_start < b && project_start < c {
            let target = line.substring_char(target_start, b).to_owned();
            let project = line.substring_char(project_start, c).to_owned();
            Ok(Description { target, project })
        } else {
            Err(Error::MalformedDescription)
        }
    }

    /// The description as it is shown: the project and the target in square
    /// brackets, with a dot between them.
    pub fn to_string(&self) -> (s: String)
        ensures
            s@ == seq!['['] + self.project@ + seq!['.'] + self.target@ + seq![']'],
    {
        proof {
            reveal_strlit("[");
            reveal_strlit(".");
            reveal_strlit("]");
            assert("["@ =~= seq!['[']);
            assert("."@ =~= seq!['.']);
            assert("]"@ =~= seq![']']);
        }
        let mut s = "[".to_owned();
        s.append(self.project.as_str());
        s.append(".");
        s.append(self.target.as_str());
        s.append("]");
        s
    }
}

} // verus!
