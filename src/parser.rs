use vstd::prelude::*;

use crate::text::{chars_of, push_char, same_text};

verus! {

/// How a redirection target is opened.
#[derive(Debug, Clone, Copy, PartialEq, Eq, Structural)]
pub enum RedirectMode {
    /// Create the file, or empty it if it exists, then write.
    Write,
    /// Create the file if needed and write after its existing end.
    Append,
}

/// One parsed line: its arguments and at most one target per output stream.
pub struct ParsedCommand {
    pub args: Vec<String>,
    pub stdout_redirect: Option<(String, RedirectMode)>,
    pub stderr_redirect: Option<(String, RedirectMode)>,
}

/// The mathematical content of a `ParsedCommand`.
pub ghost struct CommandModel {
    pub args: Seq<Seq<char>>,
    pub stdout_redirect: Option<(Seq<char>, RedirectMode)>,
    pub stderr_redirect: Option<(Seq<char>, RedirectMode)>,
}

pub open spec fn strings_view(v: Seq<String>) -> Seq<Seq<char>> {
    v.map_values(|x: String| x@)
}

pub open spec fn redirect_view(r: Option<(String, RedirectMode)>) -> Option<(Seq<char>, RedirectMode)> {
    match r {
        Some((p, m)) => Some((p@, m)),
        None => None,
    }
}

impl View for ParsedCommand {
    type V = CommandModel;

    open spec fn view(&self) -> CommandModel {
        CommandModel {
            args: strings_view(self.args@),
            stdout_redirect: redirect_view(self.stdout_redirect),
            stderr_redirect: redirect_view(self.stderr_redirect),
        }
    }
}

/// Quoting context of the character being read.
#[derive(Debug, Clone, Copy, PartialEq, Eq, Structural)]
pub enum Quote {
    Unquoted,
    Single,
    Double,
}

/// What the scanner is reading: arguments, the blanks after a redirection
/// operator, or the redirection target itself.
#[derive(Debug, Clone, Copy, PartialEq, Eq, Structural)]
pub enum Phase {
    Words,
    Gap,
    Target,
}

/// State of the scan between two characters.
pub ghost struct Scan {
    pub args: Seq<Seq<char>>,
    /// The argument or target name read so far.
    pub cur: Seq<char>,
    pub quote: Quote,
    pub phase: Phase,
    /// Which stream the pending target is for.
    pub to_stderr: bool,
    pub mode: RedirectMode,
    pub stdout_redirect: Option<(Seq<char>, RedirectMode)>,
    pub stderr_redirect: Option<(Seq<char>, RedirectMode)>,
}

pub open spec fn is_blank(c: char) -> bool {
    c == ' ' || c == '\t'
}

/// The characters a backslash escapes inside double quotes.
pub open spec fn escapable_in_double(c: char) -> bool {
    c == '"' || c == '\\' || c == '$' || c == '`' || c == '\n'
}

/// Reading the character at `i` under quoting `q` by the quote and escape
/// rules: the characters it contributes, where reading resumes, and the
/// quoting that follows.
pub open spec fn quoted_step(s: Seq<char>, i: int, q: Quote) -> (Seq<char>, int, Quote) {
    let c = s[i];
    if c == '\\' {
        match q {
            Quote::Single => (seq![c], i + 1, q),
            Quote::Double => if i + 1 < s.len() && escapable_in_double(s[i + 1]) {
                (seq![s[i + 1]], i + 2, q)
            } else {
                (seq![c], i + 1, q)
            },
            Quote::Unquoted => if i + 1 < s.len() {
                (seq![s[i + 1]], i + 2, q)
            } else {
                (seq![c], i + 1, q)
            },
        }
    } else if c == '\'' && q != Quote::Double {
        (Seq::empty(), i + 1, if q == Quote::Single { Quote::Unquoted } else { Quote::Single })
    } else if c == '"' && q != Quote::Single {
        (Seq::empty(), i + 1, if q == Quote::Double { Quote::Unquoted } else { Quote::Double })
    } else {
        (seq![c], i + 1, q)
    }
}

impl Scan {
    pub open spec fn initial() -> Scan {
        Scan {
            args: Seq::empty(),
            cur: Seq::empty(),
            quote: Quote::Unquoted,
            phase: Phase::Words,
            to_stderr: false,
            mode: RedirectMode::Write,
            stdout_redirect: None,
            stderr_redirect: None,
        }
    }

    /// The pending argument, if it holds any character, moved to the arguments.
    pub open spec fn flushed(self) -> Scan {
        if self.cur.len() > 0 {
            Scan { args: self.args.push(self.cur), cur: Seq::empty(), ..self }
        } else {
            self
        }
    }

    pub open spec fn extended(self, t: Seq<char>, q: Quote, p: Phase) -> Scan {
        Scan { cur: self.cur + t, quote: q, phase: p, ..self }
    }

    /// The pending name stored as its stream's target (replacing an earlier
    /// one), and reading back to arguments.
    pub open spec fn target_stored(self) -> Scan {
        let r = Some((self.cur, self.mode));
        if self.to_stderr {
            Scan { stderr_redirect: r, cur: Seq::empty(), phase: Phase::Words, ..self }
        } else {
            Scan { stdout_redirect: r, cur: Seq::empty(), phase: Phase::Words, ..self }
        }
    }

    pub open spec fn model(self) -> CommandModel {
        CommandModel {
            args: self.args,
            stdout_redirect: self.stdout_redirect,
            stderr_redirect: self.stderr_redirect,
        }
    }
}

/// A `>` or `>>` read at `i` outside quotes: the pending argument is
/// flushed; a last argument of exactly `1` or `2` is taken as the stream.
pub open spec fn redirect_started(s: Seq<char>, i: int, st: Scan) -> (int, Scan) {
    let f = st.flushed();
    let append = i + 1 < s.len() && s[i + 1] == '>';
    let n = f.args.len();
    let picks = n > 0 && (f.args[n - 1] == "1"@ || f.args[n - 1] == "2"@);
    (
        if append { i + 2 } else { i + 1 },
        Scan {
            args: if picks { f.args.drop_last() } else { f.args },
            phase: Phase::Gap,
            to_stderr: n > 0 && f.args[n - 1] == "2"@,
            mode: if append { RedirectMode::Append } else { RedirectMode::Write },
            ..f
        },
    )
}

/// One character of a redirection target; an unquoted blank ends it.
pub open spec fn target_step(s: Seq<char>, i: int, st: Scan) -> (int, Scan) {
    if st.quote == Quote::Unquoted && is_blank(s[i]) {
        (i + 1, st.target_stored())
    } else {
        let (t, j, q) = quoted_step(s, i, st.quote);
        (j, st.extended(t, q, Phase::Target))
    }
}

/// One step of the scan at position `i`.
pub open spec fn advance(s: Seq<char>, i: int, st: Scan) -> (int, Scan) {
    let c = s[i];
    match st.phase {
        Phase::Words => if st.quote == Quote::Unquoted && c == '>' {
            redirect_started(s, i, st)
        } else if st.quote == Quote::Unquoted && is_blank(c) {
            (i + 1, st.flushed())
        } else {
            let (t, j, q) = quoted_step(s, i, st.quote);
            (j, st.extended(t, q, Phase::Words))
        },
        Phase::Gap => if is_blank(c) {
            (i + 1, st)
        } else {
            target_step(s, i, st)
        },
        Phase::Target => target_step(s, i, st),
    }
}

/// The scan from position `i` to the end of `s`.
pub open spec fn run(s: Seq<char>, i: int, st: Scan) -> Scan
    decreases s.len() - i,
{
    if 0 <= i < s.len() {
        let (j, next) = advance(s, i, st);
        run(s, j, next)
    } else {
        st
    }
}

/// The end of the line: a pending argument is flushed, a pending target stored.
pub open spec fn finished(st: Scan) -> Scan {
    match st.phase {
        Phase::Words => st.flushed(),
        _ => st.target_stored(),
    }
}

/// What a line means: its arguments and redirections.
pub open spec fn parse_spec(s: Seq<char>) -> CommandModel {
    finished(run(s, 0, Scan::initial())).model()
}

/// No argument is empty.
pub open spec fn tokens_nonempty(args: Seq<Seq<char>>) -> bool {
    forall|k: int| 0 <= k < args.len() ==> #[trigger] args[k].len() > 0
}

proof fn lemma_run_keeps_tokens_nonempty(s: Seq<char>, i: int, st: Scan)
    requires
        tokens_nonempty(st.args),
    ensures
        tokens_nonempty(run(s, i, st).args),
    decreases s.len() - i,
{
    if 0 <= i < s.len() {
        let (j, next) = advance(s, i, st);
        let f = st.flushed();
        assert(tokens_nonempty(f.args));
        if f.args.len() > 0 {
            assert(tokens_nonempty(f.args.drop_last()));
        }
        assert(tokens_nonempty(next.args));
        lemma_run_keeps_tokens_nonempty(s, j, next);
    }
}

/// A parsed line never holds an empty argument.
pub proof fn lemma_parse_tokens_nonempty(s: Seq<char>)
    ensures
        tokens_nonempty(parse_spec(s).args),
{
    let st = run(s, 0, Scan::initial());
    lemma_run_keeps_tokens_nonempty(s, 0, Scan::initial());
    assert(tokens_nonempty(st.flushed().args));
}

/// A character that quoting, escaping or redirection gives a meaning to.
pub open spec fn is_special(c: char) -> bool {
    c == '\\' || c == '\'' || c == '"' || c == '>'
}

/// A line that holds no special character.
pub open spec fn is_plain(s: Seq<char>) -> bool {
    forall|k: int| 0 <= k < s.len() ==> !is_special(#[trigger] s[k])
}

/// The blank-separated words of `t`, the first of them continuing `cur`.
pub open spec fn split_blanks(t: Seq<char>, cur: Seq<char>) -> Seq<Seq<char>>
    decreases t.len(),
{
    let done = if cur.len() > 0 { seq![cur] } else { Seq::empty() };
    if t.len() == 0 {
        done
    } else if is_blank(t[0]) {
        done + split_blanks(t.drop_first(), Seq::empty())
    } else {
        split_blanks(t.drop_first(), cur.push(t[0]))
    }
}

/// The words of `s`: its maximal runs of non-blank characters, in order.
pub open spec fn words(s: Seq<char>) -> Seq<Seq<char>> {
    split_blanks(s, Seq::empty())
}

/// Words joined with one space between neighbours.
pub open spec fn join_spaces(ws: Seq<Seq<char>>) -> Seq<char>
    decreases ws.len(),
{
    if ws.len() == 0 {
        Seq::empty()
    } else if ws.len() == 1 {
        ws[0]
    } else {
        join_spaces(ws.drop_last()) + seq![' '] + ws.last()
    }
}

/// `s` with its leading and trailing blanks removed and each inner run of
/// blanks replaced by one space.
pub open spec fn collapse_blanks(s: Seq<char>) -> Seq<char> {
    join_spaces(words(s))
}

proof fn lemma_run_plain(s: Seq<char>, i: int, st: Scan)
    requires
        is_plain(s),
        0 <= i <= s.len(),
        st.phase == Phase::Words,
        st.quote == Quote::Unquoted,
        st.stdout_redirect is None,
        st.stderr_redirect is None,
    ensures
        finished(run(s, i, st)).args == st.args + split_blanks(s.subrange(i, s.len() as int), st.cur),
        finished(run(s, i, st)).stdout_redirect is None,
        finished(run(s, i, st)).stderr_redirect is None,
    decreases s.len() - i,
{
    let rest = s.subrange(i, s.len() as int);
    if i < s.len() {
        assert(!is_special(s[i]));
        assert(rest.drop_first() =~= s.subrange(i + 1, s.len() as int));
        assert(rest[0] == s[i]);
        let (j, next) = advance(s, i, st);
        assert(run(s, i, st) == run(s, j, next));
        lemma_run_plain(s, j, next);
        let done = if st.cur.len() > 0 { seq![st.cur] } else { Seq::empty() };
        if is_blank(s[i]) {
            assert(j == i + 1 && next == st.flushed());
            assert(next.cur =~= Seq::<char>::empty());
            assert(split_blanks(rest, st.cur) == done + split_blanks(rest.drop_first(), Seq::empty()));
            assert(st.args + split_blanks(rest, st.cur) =~= next.args + split_blanks(
                s.subrange(i + 1, s.len() as int),
                Seq::empty(),
            ));
        } else {
            assert(quoted_step(s, i, st.quote) == (seq![s[i]], i + 1, Quote::Unquoted));
            assert(j == i + 1);
            assert(next.cur =~= st.cur.push(s[i]));
            assert(split_blanks(rest, st.cur) == split_blanks(rest.drop_first(), st.cur.push(s[i])));
            assert(next.args == st.args);
        }
        assert(finished(run(s, i, st)).args == next.args + split_blanks(s.subrange(j, s.len() as int), next.cur));
    } else {
        assert(rest.len() == 0);
        assert(run(s, i, st) == st);
        assert(st.args + split_blanks(rest, st.cur) =~= finished(st).args);
    }
}

/// On a line with no quote, backslash or `>`, the arguments are the words of
/// the line and there is no redirection; joining the arguments with single
/// spaces gives back the line with its blanks collapsed.
pub proof fn lemma_plain_line_round_trip(s: Seq<char>)
    requires
        is_plain(s),
    ensures
        parse_spec(s).args == words(s),
        parse_spec(s).stdout_redirect is None,
        parse_spec(s).stderr_redirect is None,
        join_spaces(parse_spec(s).args) == collapse_blanks(s),
{
    lemma_run_plain(s, 0, Scan::initial());
    assert(s.subrange(0, s.len() as int) =~= s);
    assert(Seq::<Seq<char>>::empty() + words(s) =~= words(s));
}

/// A line after which more text can follow without changing how the line
/// itself is read: it is empty or ends in a blank (so no escape or `>`
/// looks past its end), and its scan ends outside quotes and targets.
pub open spec fn ends_cleanly(s: Seq<char>) -> bool {
    &&& s.len() > 0 ==> is_blank(s.last())
    &&& run(s, 0, Scan::initial()).phase == Phase::Words
    &&& run(s, 0, Scan::initial()).quote == Quote::Unquoted
}

proof fn lemma_advance_in_prefix(s: Seq<char>, t: Seq<char>, i: int, st: Scan)
    requires
        0 <= i < s.len(),
        is_blank(s.last()),
    ensures
        advance(s + t, i, st) == advance(s, i, st),
        i < advance(s, i, st).0 <= s.len(),
{
    let u = s + t;
    assert(u[i] == s[i]);
    if i + 1 < s.len() {
        assert(u[i + 1] == s[i + 1]);
    } else {
        assert(s[i] == s.last());
    }
}

proof fn lemma_run_over_prefix(s: Seq<char>, t: Seq<char>, i: int, st: Scan)
    requires
        0 <= i <= s.len(),
        s.len() > 0 ==> is_blank(s.last()),
    ensures
        run(s + t, i, st) == run(s + t, s.len() as int, run(s, i, st)),
    decreases s.len() - i,
{
    if i < s.len() {
        lemma_advance_in_prefix(s, t, i, st);
        let (j, next) = advance(s, i, st);
        lemma_run_over_prefix(s, t, j, next);
    }
}

proof fn lemma_run_plain_target(u: Seq<char>, i: int, st: Scan)
    requires
        0 <= i <= u.len(),
        st.phase != Phase::Words,
        st.quote == Quote::Unquoted,
        forall|k: int| i <= k < u.len() ==> !is_special(#[trigger] u[k]) && !is_blank(u[k]),
    ensures
        finished(run(u, i, st)) == st.extended(
            u.subrange(i, u.len() as int),
            Quote::Unquoted,
            Phase::Target,
        ).target_stored(),
    decreases u.len() - i,
{
    if i < u.len() {
        let c = u[i];
        assert(!is_special(c) && !is_blank(c));
        assert(quoted_step(u, i, Quote::Unquoted) == (seq![c], i + 1, Quote::Unquoted));
        let next = st.extended(seq![c], Quote::Unquoted, Phase::Target);
        assert(advance(u, i, st) == (i + 1, next));
        lemma_run_plain_target(u, i + 1, next);
        assert(next.cur + u.subrange(i + 1, u.len() as int) =~= st.cur + u.subrange(i, u.len() as int));
    } else {
        assert(st.cur + u.subrange(i, u.len() as int) =~= st.cur);
    }
}

/// Last one wins: a redirection of standard output written at the end of a
/// line replaces whatever target the line gave standard output before, and
/// leaves the target of standard error as it was.
pub proof fn lemma_later_stdout_redirect_wins(s: Seq<char>, w: Seq<char>)
    requires
        ends_cleanly(s),
        forall|k: int| 0 <= k < w.len() ==> !is_special(#[trigger] w[k]) && !is_blank(w[k]),
    ensures
        parse_spec(s + "1> "@ + w).stdout_redirect == Some((w, RedirectMode::Write)),
        parse_spec(s + "1> "@ + w).stderr_redirect == parse_spec(s).stderr_redirect,
{
    reveal_strlit("1> ");
    reveal_strlit("1");
    reveal_strlit("2");
    let u = s + "1> "@ + w;
    let a = s.len() as int;
    assert(u =~= s + ("1> "@ + w));
    lemma_run_over_prefix(s, "1> "@ + w, 0, Scan::initial());
    let st0 = run(s, 0, Scan::initial());
    assert(s.subrange(0, a) =~= s);
    assert(u[a] == '1' && u[a + 1] == '>' && u[a + 2] == ' ');
    let st1 = st0.extended(seq!['1'], Quote::Unquoted, Phase::Words);
    assert(quoted_step(u, a, Quote::Unquoted) == (seq!['1'], a + 1, Quote::Unquoted));
    assert(advance(u, a, st0) == (a + 1, st1));
    let f = st1.flushed();
    assert(st1.cur.len() > 0);
    assert(f.args.last() == st1.cur);
    assert(st1.cur.last() == '1');
    assert(f.args.last() != "2"@);
    let (j2, st2) = redirect_started(u, a + 1, st1);
    assert(j2 == a + 2);
    assert(st2.phase == Phase::Gap && !st2.to_stderr && st2.mode == RedirectMode::Write);
    assert(st2.cur.len() == 0);
    assert(advance(u, a + 2, st2) == (a + 3, st2));
    assert forall|k: int| a + 3 <= k < u.len() implies !is_special(#[trigger] u[k]) && !is_blank(u[k]) by {
        assert(u[k] == w[k - a - 3]);
    }
    lemma_run_plain_target(u, a + 3, st2);
    assert(u.subrange(a + 3, u.len() as int) =~= w);
    assert(st2.cur + w =~= w);
    assert(advance(u, a + 1, st1) == (a + 2, st2));
    assert(run(u, 0, Scan::initial()) == run(u, a, st0));
    assert(run(u, a, st0) == run(u, a + 1, st1));
    assert(run(u, a + 1, st1) == run(u, a + 2, st2));
    assert(run(u, a + 2, st2) == run(u, a + 3, st2));
    assert(finished(st0) == st0.flushed());
}

/// The scan state as it is held while a line is read.
struct Scanner {
    args: Vec<String>,
    cur: String,
    quote: Quote,
    phase: Phase,
    to_stderr: bool,
    mode: RedirectMode,
    stdout_redirect: Option<(String, RedirectMode)>,
    stderr_redirect: Option<(String, RedirectMode)>,
}

impl View for Scanner {
    type V = Scan;

    closed spec fn view(&self) -> Scan {
        Scan {
            args: strings_view(self.args@),
            cur: self.cur@,
            quote: self.quote,
            phase: self.phase,
            to_stderr: self.to_stderr,
            mode: self.mode,
            stdout_redirect: redirect_view(self.stdout_redirect),
            stderr_redirect: redirect_view(self.stderr_redirect),
        }
    }
}

fn is_blank_char(c: char) -> (r: bool)
    ensures
        r == is_blank(c),
{
    c == ' ' || c == '\t'
}

fn escapable_char(c: char) -> (r: bool)
    ensures
        r == escapable_in_double(c),
{
    c == '"' || c == '\\' || c == '$' || c == '`' || c == '\n'
}

impl Scanner {
    fn flush(&mut self)
        ensures
            final(self)@ == old(self)@.flushed(),
    {
        if self.cur.as_str().unicode_len() > 0 {
            let word = self.cur.clone();
            self.cur = String::new();
            self.args.push(word);
            assert(strings_view(self.args@) =~= strings_view(old(self).args@).push(old(self).cur@));
        }
    }

    fn store_target(&mut self)
        ensures
            final(self)@ == old(self)@.target_stored(),
    {
        let name = self.cur.clone();
        self.cur = String::new();
        if self.to_stderr {
            self.stderr_redirect = Some((name, self.mode));
        } else {
            self.stdout_redirect = Some((name, self.mode));
        }
        self.phase = Phase::Words;
    }

    /// Reads the character at `i` by the quote and escape rules.
    fn take_quoted(&mut self, s: &Vec<char>, i: usize, p: Phase) -> (j: usize)
        requires
            i < s@.len(),
        ensures
            ({
                let (t, k, q) = quoted_step(s@, i as int, old(self)@.quote);
                j == k && final(self)@ == old(self)@.extended(t, q, p)
            }),
    {
        let c = s[i];
        let n = s.len();
        let j: usize;
        if c == '\\' {
            match self.quote {
                Quote::Single => {
                    push_char(&mut self.cur, c);
                    j = i + 1;
                },
                Quote::Double => {
                    if i + 1 < n && escapable_char(s[i + 1]) {
                        push_char(&mut self.cur, s[i + 1]);
                        j = i + 2;
                    } else {
                        push_char(&mut self.cur, c);
                        j = i + 1;
                    }
                },
                Quote::Unquoted => {
                    if i + 1 < n {
                        push_char(&mut self.cur, s[i + 1]);
                        j = i + 2;
                    } else {
                        push_char(&mut self.cur, c);
                        j = i + 1;
                    }
                },
            }
        } else if c == '\'' && self.quote != Quote::Double {
            self.quote = if self.quote == Quote::Single { Quote::Unquoted } else { Quote::Single };
            j = i + 1;
        } else if c == '"' && self.quote != Quote::Single {
            self.quote = if self.quote == Quote::Double { Quote::Unquoted } else { Quote::Double };
            j = i + 1;
        } else {
            push_char(&mut self.cur, c);
            j = i + 1;
        }
        self.phase = p;
        proof {
            let (t, k, q) = quoted_step(s@, i as int, old(self)@.quote);
            assert(self.cur@ =~= old(self).cur@ + t);
        }
        j
    }

    /// Starts a redirection at the `>` found at `i`.
    fn start_redirect(&mut self, s: &Vec<char>, i: usize) -> (j: usize)
        requires
            i < s@.len(),
        ensures
            (j as int, final(self)@) == redirect_started(s@, i as int, old(self)@),
    {
        let len = s.len();
        self.flush();
        let append = i + 1 < len && s[i + 1] == '>';
        let n = self.args.len();
        let mut to_stderr = false;
        if n > 0 {
            let is_one = same_text(self.args[n - 1].as_str(), "1");
            let is_two = same_text(self.args[n - 1].as_str(), "2");
            if is_one || is_two {
                self.args.pop();
                assert(strings_view(self.args@) =~= old(self)@.flushed().args.drop_last());
            }
            to_stderr = is_two;
        }
        self.to_stderr = to_stderr;
        self.mode = if append { RedirectMode::Append } else { RedirectMode::Write };
        self.phase = Phase::Gap;
        if append { i + 2 } else { i + 1 }
    }

    fn target_char(&mut self, s: &Vec<char>, i: usize) -> (j: usize)
        requires
            i < s@.len() <= usize::MAX,
        ensures
            (j as int, final(self)@) == target_step(s@, i as int, old(self)@),
    {
        if self.quote == Quote::Unquoted && is_blank_char(s[i]) {
            self.store_target();
            i + 1
        } else {
            self.take_quoted(s, i, Phase::Target)
        }
    }

    fn step(&mut self, s: &Vec<char>, i: usize) -> (j: usize)
        requires
            i < s@.len() <= usize::MAX,
        ensures
            (j as int, final(self)@) == advance(s@, i as int, old(self)@),
    {
        let c = s[i];
        match self.phase {
            Phase::Words => {
                if self.quote == Quote::Unquoted && c == '>' {
                    self.start_redirect(s, i)
                } else if self.quote == Quote::Unquoted && is_blank_char(c) {
                    self.flush();
                    i + 1
                } else {
                    self.take_quoted(s, i, Phase::Words)
                }
            },
            Phase::Gap => {
                if is_blank_char(c) {
                    i + 1
                } else {
                    self.target_char(s, i)
                }
            },
            Phase::Target => self.target_char(s, i),
        }
    }
}

/// Parses one line into arguments and redirections.
pub fn parse_arguments(input: &str) -> (r: ParsedCommand)
    ensures
        r@ == parse_spec(input@),
        tokens_nonempty(r@.args),
{
    proof {
        lemma_parse_tokens_nonempty(input@);
    }
    let s = chars_of(input);
    let n = s.len();
    let mut sc = Scanner {
        args: Vec::new(),
        cur: String::new(),
        quote: Quote::Unquoted,
        phase: Phase::Words,
        to_stderr: false,
        mode: RedirectMode::Write,
        stdout_redirect: None,
        stderr_redirect: None,
    };
    assert(sc@.args =~= Seq::<Seq<char>>::empty());
    let mut i: usize = 0;
    while i < n
        invariant
            n == s@.len(),
            s@ == input@,
            i <= n,
            run(s@, 0, Scan::initial()) == run(s@, i as int, sc@),
        decreases n - i,
    {
        i = sc.step(&s, i);
    }
    if sc.phase == Phase::Words {
        sc.flush();
    } else {
        sc.store_target();
    }
    ParsedCommand { args: sc.args, stdout_redirect: sc.stdout_redirect, stderr_redirect: sc.stderr_redirect }
}

} // verus!
