use vstd::prelude::*;

verus! {

/// The names offered when the command word is completed.
pub open spec fn builtin_names() -> Seq<Seq<char>> {
    seq!["echo"@, "exit"@, "type"@, "pwd"@, "cd"@]
}

pub open spec fn is_prefix_of(p: Seq<char>, s: Seq<char>) -> bool {
    p.len() <= s.len() && s.subrange(0, p.len() as int) == p
}

/// The names, in order, that `typed` is a prefix of.
pub open spec fn names_extending(names: Seq<Seq<char>>, typed: Seq<char>) -> Seq<Seq<char>>
    decreases names.len(),
{
    if names.len() == 0 {
        Seq::empty()
    } else if is_prefix_of(typed, names.last()) {
        names_extending(names.drop_last(), typed).push(names.last())
    } else {
        names_extending(names.drop_last(), typed)
    }
}

/// What completing the text before the cursor offers: builtin names, and
/// only while the command word is being typed.
pub open spec fn offered(names: Seq<Seq<char>>, typed: Seq<char>) -> Seq<Seq<char>> {
    if typed.len() == 0 || typed.contains(' ') {
        Seq::empty()
    } else {
        names_extending(names, typed)
    }
}

/// One completion: the name shown, and the text put in its place.
#[derive(Debug, Clone, PartialEq, Eq)]
pub struct Completion {
    pub display: String,
    pub replacement: String,
}

/// Completes the command word with builtin names.
pub struct ShellCompleter {
    builtins: Vec<String>,
}

impl View for ShellCompleter {
    type V = Seq<Seq<char>>;

    closed spec fn view(&self) -> Seq<Seq<char>> {
        self.builtins@.map_values(|x: String| x@)
    }
}

fn has_space(s: &str) -> (r: bool)
    ensures
        r == s@.contains(' '),
{
    let n = s.unicode_len();
    let mut i: usize = 0;
    while i < n
        invariant
            n == s@.len(),
            i <= n,
            forall|k: int| 0 <= k < i ==> s@[k] != ' ',
        decreases n - i,
    {
        if s.get_char(i) == ' ' {
            return true;
        }
        i = i + 1;
    }
    false
}

fn starts_with(s: &str, p: &str) -> (r: bool)
    ensures
        r == is_prefix_of(p@, s@),
{
    let n = p.unicode_len();
    if n > s.unicode_len() {
        return false;
    }
    let mut i: usize = 0;
    while i < n
        invariant
            n == p@.len(),
            n <= s@.len(),
            i <= n,
            forall|k: int| 0 <= k < i ==> s@[k] == p@[k],
        decreases n - i,
    {
        if s.get_char(i) != p.get_char(i) {
            assert(s@.subrange(0, n as int)[i as int] != p@[i as int]);
            return false;
        }
        i = i + 1;
    }
    assert(s@.subrange(0, n as int) =~= p@);
    true
}

impl ShellCompleter {
    pub fn new() -> (r: Self)
        ensures
            r@ == builtin_names(),
    {
        let r = ShellCompleter {
            builtins: vec![
                String::from_str("echo"),
                String::from_str("exit"),
                String::from_str("type"),
                String::from_str("pwd"),
                String::from_str("cd"),
            ],
        };
        assert(r@ =~= builtin_names());
        r
    }

    /// The completions for `typed`, the text before the cursor; each
    /// replacement is the name followed by a space.
    pub fn candidates(&self, typed: &str) -> (r: Vec<Completion>)
        ensures
            r@.len() == offered(self@, typed@).len(),
            forall|k: int| 0 <= k < r@.len() ==> {
                &&& (#[trigger] r@[k]).display@ == offered(self@, typed@)[k]
                &&& r@[k].replacement@ == offered(self@, typed@)[k] + " "@
            },
    {
        let mut out: Vec<Completion> = Vec::new();
        if typed.unicode_len() == 0 || has_space(typed) {
            return out;
        }
        let ghost names = self@;
        let mut k: usize = 0;
        while k < self.builtins.len()
            invariant
                names == self@,
                names.len() == self.builtins@.len(),
                k <= names.len(),
                out@.len() == names_extending(names.subrange(0, k as int), typed@).len(),
                forall|m: int| 0 <= m < out@.len() ==> {
                    &&& (#[trigger] out@[m]).display@ == names_extending(names.subrange(0, k as int), typed@)[m]
                    &&& out@[m].replacement@ == names_extending(names.subrange(0, k as int), typed@)[m] + " "@
                },
            decreases names.len() - k,
        {
            let name = &self.builtins[k];
            proof {
                assert(names.subrange(0, k as int + 1).drop_last() =~= names.subrange(0, k as int));
                assert(names.subrange(0, k as int + 1).last() == name@);
            }
            if starts_with(name.as_str(), typed) {
                let mut replacement = name.clone();
                replacement.append(" ");
                out.push(Completion { display: name.clone(), replacement });
            }
            k = k + 1;
        }
        assert(names.subrange(0, k as int) =~= names);
        out
    }
}

} // verus!
