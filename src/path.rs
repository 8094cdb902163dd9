use vstd::prelude::*;

use crate::parser::strings_view;
use crate::text::push_char;

verus! {

/// The pieces of `t` between occurrences of `sep`, the first of them
/// continuing `cur`; empty pieces are kept.
pub open spec fn split_on(t: Seq<char>, sep: char, cur: Seq<char>) -> Seq<Seq<char>>
    decreases t.len(),
{
    if t.len() == 0 {
        seq![cur]
    } else if t[0] == sep {
        seq![cur] + split_on(t.drop_first(), sep, Seq::empty())
    } else {
        split_on(t.drop_first(), sep, cur.push(t[0]))
    }
}

/// The directories listed in a `PATH` value, in order: the pieces between
/// its colons.
pub open spec fn path_entries(path: Seq<char>) -> Seq<Seq<char>> {
    split_on(path, ':', Seq::empty())
}

proof fn lemma_split_step(t: Seq<char>, i: int, sep: char, cur: Seq<char>)
    requires
        0 <= i < t.len(),
    ensures
        split_on(t.subrange(i, t.len() as int), sep, cur) == if t[i] == sep {
            seq![cur] + split_on(t.subrange(i + 1, t.len() as int), sep, Seq::empty())
        } else {
            split_on(t.subrange(i + 1, t.len() as int), sep, cur.push(t[i]))
        },
{
    let rest = t.subrange(i, t.len() as int);
    assert(rest.drop_first() =~= t.subrange(i + 1, t.len() as int));
}

/// Splits a `PATH` value on its colons.
pub fn path_directories(path: &str) -> (r: Vec<String>)
    ensures
        strings_view(r@) == path_entries(path@),
{
    let n = path.unicode_len();
    let mut out: Vec<String> = Vec::new();
    let mut cur = String::new();
    let mut i: usize = 0;
    assert(path@.subrange(0, n as int) =~= path@);
    assert(strings_view(out@) =~= Seq::<Seq<char>>::empty());
    assert(cur@ =~= Seq::<char>::empty());
    assert(Seq::<Seq<char>>::empty() + path_entries(path@) =~= path_entries(path@));
    while i < n
        invariant
            n == path@.len(),
            i <= n,
            strings_view(out@) + split_on(path@.subrange(i as int, n as int), ':', cur@)
                == path_entries(path@),
        decreases n - i,
    {
        let c = path.get_char(i);
        proof {
            lemma_split_step(path@, i as int, ':', cur@);
        }
        if c == ':' {
            let piece = cur.clone();
            cur = String::new();
            let ghost before = strings_view(out@);
            out.push(piece);
            assert(strings_view(out@) =~= before.push(piece@));
            assert(before + (seq![piece@] + split_on(path@.subrange(i + 1, n as int), ':', cur@))
                =~= strings_view(out@) + split_on(path@.subrange(i + 1, n as int), ':', cur@));
        } else {
            push_char(&mut cur, c);
        }
        i = i + 1;
    }
    let ghost before = strings_view(out@);
    out.push(cur);
    assert(path@.subrange(n as int, n as int) =~= Seq::<char>::empty());
    assert(strings_view(out@) =~= before + seq![cur@]);
    proof {
        assert(path@.subrange(0, n as int) =~= path@);
    }
    out
}

/// What a look at one candidate file found.
#[derive(Debug, Clone, PartialEq, Eq)]
pub struct PathCandidate {
    /// The directory joined with the command name.
    pub path: String,
    /// Whether it exists as a regular file.
    pub is_file: bool,
    /// Its permission bits (0 where it does not exist).
    pub mode: u32,
}

/// A regular file with an execute bit set for owner, group or others.
pub open spec fn is_executable(c: PathCandidate) -> bool {
    c.is_file && c.mode & 0o111u32 != 0
}

/// The index of the first executable candidate at or after `k`.
pub open spec fn first_executable_from(cs: Seq<PathCandidate>, k: int) -> Option<int>
    decreases cs.len() - k,
{
    if k < 0 || k >= cs.len() {
        None
    } else if is_executable(cs[k]) {
        Some(k)
    } else {
        first_executable_from(cs, k + 1)
    }
}

/// Picks, among the candidates for a command in `PATH` order, the first
/// that is executable, and gives its path.
pub fn find_in_path(candidates: &Vec<PathCandidate>) -> (r: Option<String>)
    ensures
        r is Some <==> first_executable_from(candidates@, 0) is Some,
        r is Some ==> r->0@ == candidates@[first_executable_from(candidates@, 0)->0].path@,
{
    let mut k: usize = 0;
    while k < candidates.len()
        invariant
            k <= candidates@.len(),
            first_executable_from(candidates@, 0) == first_executable_from(candidates@, k as int),
        decreases candidates@.len() - k,
    {
        let c = &candidates[k];
        if c.is_file && c.mode & 0o111u32 != 0 {
            return Some(c.path.clone());
        }
        k = k + 1;
    }
    None
}

} // verus!
