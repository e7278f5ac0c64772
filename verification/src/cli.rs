//! Command-line surface and task-URL parsing.

use vstd::prelude::*;

use crate::text::{chars_eq_str, chars_of, copy_range, is_ascii_digit, string_of, trim_chars, trimmed};

verus! {

broadcast use vstd::string::group_string_axioms;

/// What the command line asked for.
pub struct Cli {
    /// A subcommand, if one was given.
    pub command: Option<Command>,
    /// An Asana task URL (or bare task id) to open directly in detail view.
    pub task_url: Option<String>,
}

/// The subcommands.
#[derive(Clone, Copy, Debug, PartialEq, Eq)]
pub enum Command {
    /// Authenticate with Asana and store a Personal Access Token.
    Login,
    /// Remove the stored Asana token.
    Logout,
}

/// No task id could be found in the given input.
#[derive(Debug)]
pub struct GidError {
    /// The input that held no task id.
    pub input: String,
}

impl GidError {
    /// The human-readable message: `could not find a task id in: <input>`.
    pub fn message(&self) -> (m: String)
        ensures
            m@ == "could not find a task id in: "@ + self.input@,
    {
        let mut m = String::from_str("could not find a task id in: ");
        m.append(self.input.as_str());
        m
    }
}

/// A non-empty run of `'0'..='9'`.
pub open spec fn is_gid(s: Seq<char>) -> bool {
    s.len() > 0 && forall|i: int| 0 <= i < s.len() ==> is_ascii_digit(#[trigger] s[i])
}

/// Whether `c` starts a query string or a fragment.
pub open spec fn is_query_start(c: char) -> bool {
    c == '?' || c == '#'
}

/// Index of the first `?` or `#` in `s`, or `s.len()` when there is none.
pub open spec fn query_start(s: Seq<char>) -> int
    decreases s.len(),
{
    if s.len() == 0 {
        0
    } else if is_query_start(s[0]) {
        0
    } else {
        1 + query_start(s.drop_first())
    }
}

/// The part of a URL before its query string or fragment.
pub open spec fn url_path(s: Seq<char>) -> Seq<char> {
    s.take(query_start(s))
}

/// Left-to-right splitting of `s` at `/`: the finished non-empty segments and
/// the segment still being read.
pub open spec fn split_state(s: Seq<char>) -> (Seq<Seq<char>>, Seq<char>)
    decreases s.len(),
{
    if s.len() == 0 {
        (Seq::empty(), Seq::empty())
    } else {
        let (done, cur) = split_state(s.drop_last());
        if s.last() == '/' {
            (if cur.len() > 0 { done.push(cur) } else { done }, Seq::empty())
        } else {
            (done, cur.push(s.last()))
        }
    }
}

/// The non-empty `/`-separated segments of `s`, in order.
pub open spec fn path_segments(s: Seq<char>) -> Seq<Seq<char>> {
    let (done, cur) = split_state(s);
    if cur.len() > 0 {
        done.push(cur)
    } else {
        done
    }
}

/// The literal `task`.
pub open spec fn task_marker() -> Seq<char> {
    seq!['t', 'a', 's', 'k']
}

/// Index of the first `task` segment, or `segs.len()` when there is none.
pub open spec fn marker_index(segs: Seq<Seq<char>>) -> int
    decreases segs.len(),
{
    if segs.len() == 0 {
        0
    } else if segs[0] == task_marker() {
        0
    } else {
        1 + marker_index(segs.drop_first())
    }
}

/// Index of the last segment that is a gid, or `-1` when there is none.
pub open spec fn last_gid_index(segs: Seq<Seq<char>>) -> int
    decreases segs.len(),
{
    if segs.len() == 0 {
        -1
    } else if is_gid(segs.last()) {
        segs.len() - 1
    } else {
        last_gid_index(segs.drop_last())
    }
}

/// The task gid that an input names: the trimmed input itself when it is all
/// digits; else, among the non-empty `/` segments of the part before any `?`
/// or `#`, the segment right after the first `task` segment when that one is
/// all digits; else the last all-digit segment; else none.
pub open spec fn task_gid(input: Seq<char>) -> Option<Seq<char>> {
    let t = trimmed(input);
    if is_gid(t) {
        Some(t)
    } else {
        let segs = path_segments(url_path(t));
        let m = marker_index(segs);
        if m + 1 < segs.len() && is_gid(segs[m + 1]) {
            Some(segs[m + 1])
        } else if last_gid_index(segs) >= 0 {
            Some(segs[last_gid_index(segs)])
        } else {
            None
        }
    }
}

proof fn lemma_query_start(s: Seq<char>, k: int)
    requires
        0 <= k <= s.len(),
        forall|i: int| 0 <= i < k ==> !is_query_start(#[trigger] s[i]),
        k == s.len() || is_query_start(s[k]),
    ensures
        query_start(s) == k,
    decreases k,
{
    if k > 0 {
        let t = s.drop_first();
        assert forall|i: int| 0 <= i < k - 1 implies !is_query_start(#[trigger] t[i]) by {
            assert(t[i] == s[i + 1]);
        }
        lemma_query_start(t, k - 1);
    }
}

proof fn lemma_marker_index(segs: Seq<Seq<char>>, k: int)
    requires
        0 <= k <= segs.len(),
        forall|i: int| 0 <= i < k ==> #[trigger] segs[i] != task_marker(),
        k == segs.len() || segs[k] == task_marker(),
    ensures
        marker_index(segs) == k,
    decreases k,
{
    if k > 0 {
        let t = segs.drop_first();
        assert forall|i: int| 0 <= i < k - 1 implies #[trigger] t[i] != task_marker() by {
            assert(t[i] == segs[i + 1]);
        }
        lemma_marker_index(t, k - 1);
    }
}

proof fn lemma_last_gid_index(segs: Seq<Seq<char>>, k: int)
    requires
        -1 <= k < segs.len(),
        forall|i: int| k < i < segs.len() ==> !is_gid(#[trigger] segs[i]),
        k == -1 || is_gid(segs[k]),
    ensures
        last_gid_index(segs) == k,
    decreases segs.len(),
{
    if segs.len() > 0 && k < segs.len() - 1 {
        let t = segs.drop_last();
        assert forall|i: int| k < i < t.len() implies !is_gid(#[trigger] t[i]) by {
            assert(t[i] == segs[i]);
        }
        lemma_last_gid_index(t, k);
    }
}

/// Whether `v` is a non-empty run of ASCII digits.
pub fn chars_are_gid(v: &[char]) -> (b: bool)
    ensures
        b == is_gid(v@),
{
    if v.len() == 0 {
        return false;
    }
    let mut i: usize = 0;
    while i < v.len()
        invariant
            0 < v@.len(),
            i <= v@.len(),
            forall|j: int| 0 <= j < i ==> is_ascii_digit(#[trigger] v@[j]),
        decreases v@.len() - i,
    {
        if !('0' <= v[i] && v[i] <= '9') {
            return false;
        }
        i = i + 1;
    }
    true
}

/// The character sequences held by a list of segments.
pub open spec fn seg_views(v: Seq<Vec<char>>) -> Seq<Seq<char>> {
    v.map_values(|x: Vec<char>| x@)
}

/// The part of `v` before its first `?` or `#`.
fn path_part(v: &[char]) -> (r: Vec<char>)
    ensures
        r@ == url_path(v@),
{
    let mut i: usize = 0;
    while i < v.len() && !(v[i] == '?' || v[i] == '#')
        invariant
            i <= v@.len(),
            forall|j: int| 0 <= j < i ==> !is_query_start(#[trigger] v@[j]),
        decreases v@.len() - i,
    {
        i = i + 1;
    }
    proof {
        lemma_query_start(v@, i as int);
    }
    copy_range(v, 0, i)
}

/// The non-empty `/`-separated segments of `v`.
fn segments_of(v: &[char]) -> (r: Vec<Vec<char>>)
    ensures
        seg_views(r@) == path_segments(v@),
{
    let mut done: Vec<Vec<char>> = Vec::new();
    let mut cur: Vec<char> = Vec::new();
    let mut i: usize = 0;
    while i < v.len()
        invariant
            i <= v@.len(),
            (seg_views(done@), cur@) == split_state(v@.take(i as int)),
        decreases v@.len() - i,
    {
        let c = v[i];
        proof {
            assert(v@.take(i + 1).drop_last() =~= v@.take(i as int));
        }
        if c == '/' {
            if cur.len() > 0 {
                let ghost d = done@;
                done.push(cur);
                assert(seg_views(done@) =~= seg_views(d).push(cur@));
            }
            cur = Vec::new();
        } else {
            cur.push(c);
        }
        i = i + 1;
    }
    assert(v@.take(v@.len() as int) =~= v@);
    if cur.len() > 0 {
        let ghost d = done@;
        done.push(cur);
        assert(seg_views(done@) =~= seg_views(d).push(cur@));
    }
    done
}

/// Extract a task gid from an Asana task URL (or accept a bare numeric id).
///
/// Handles the common shapes:
///   https://app.asana.com/0/<project>/<task>
///   https://app.asana.com/1/<workspace>/project/<p>/task/<task>
pub fn parse_task_gid(input: &str) -> (r: Result<String, GidError>)
    ensures
        match r {
            Ok(gid) => task_gid(input@) == Some(gid@),
            Err(e) => task_gid(input@) is None && e.input@ == input@,
        },
{
    let chars = chars_of(input);
    let t = trim_chars(chars.as_slice());
    if chars_are_gid(t.as_slice()) {
        return Ok(string_of(t.as_slice()));
    }
    let path = path_part(t.as_slice());
    let segs = segments_of(path.as_slice());
    let ghost sv = seg_views(segs@);
    proof {
        reveal_strlit("task");
        assert("task"@ =~= task_marker());
    }
    let mut m: usize = 0;
    while m < segs.len()
        invariant
            m <= segs@.len(),
            sv == seg_views(segs@),
            "task"@ == task_marker(),
            forall|j: int| 0 <= j < m ==> #[trigger] sv[j] != task_marker(),
        ensures
            m <= segs@.len(),
            forall|j: int| 0 <= j < m ==> #[trigger] sv[j] != task_marker(),
            m == segs@.len() || sv[m as int] == task_marker(),
        decreases segs@.len() - m,
    {
        assert(sv[m as int] == segs@[m as int]@);
        if chars_eq_str(segs[m].as_slice(), "task") {
            break;
        }
        m = m + 1;
    }
    proof {
        if m < segs.len() {
            assert(sv[m as int] == segs@[m as int]@);
        }
        lemma_marker_index(sv, m as int);
    }
    if m < segs.len() && m + 1 < segs.len() && chars_are_gid(segs[m + 1].as_slice()) {
        assert(sv[m + 1] == segs@[m + 1]@);
        return Ok(string_of(segs[m + 1].as_slice()));
    }
    let mut k: usize = segs.len();
    while k > 0 && !chars_are_gid(segs[k - 1].as_slice())
        invariant
            k <= segs@.len(),
            sv == seg_views(segs@),
            forall|j: int| k <= j < sv.len() ==> !is_gid(#[trigger] sv[j]),
        decreases k,
    {
        assert(sv[k - 1] == segs@[k - 1]@);
        k = k - 1;
    }
    proof {
        if k > 0 {
            assert(sv[k - 1] == segs@[k - 1]@);
        }
        lemma_last_gid_index(sv, k - 1);
    }
    if k > 0 {
        assert(sv[k - 1] == segs@[k - 1]@);
        Ok(string_of(segs[k - 1].as_slice()))
    } else {
        Err(GidError { input: String::from_str(input) })
    }
}

} // verus!
