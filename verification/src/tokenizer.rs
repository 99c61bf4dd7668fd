use vstd::prelude::*;

use crate::text::{
    chars_of, opt_str, split_char, split_on, string_from_chars,
    strings_view, trim, trimmed,
};

verus! {

/// One command of a command line, split into words, with its redirections.
pub struct ParsedCmd {
    pub cmd: String,
    pub args: Vec<String>,
    pub stout: Option<String>,
    pub sterr: Option<String>,
    pub append: bool,
}

/// The mathematical value of a `ParsedCmd`.
pub struct SpecParsedCmd {
    pub cmd: Seq<char>,
    pub args: Seq<Seq<char>>,
    pub stout: Option<Seq<char>>,
    pub sterr: Option<Seq<char>>,
    pub append: bool,
}

impl View for ParsedCmd {
    type V = SpecParsedCmd;

    open spec fn view(&self) -> SpecParsedCmd {
        SpecParsedCmd {
            cmd: self.cmd@,
            args: strings_view(self.args@),
            stout: opt_str(self.stout),
            sterr: opt_str(self.sterr),
            append: self.append,
        }
    }
}

/// The state of the scanner after some prefix of a line.
pub struct ScanModel {
    pub tokens: Seq<Seq<char>>,
    pub current: Seq<char>,
    pub in_quotes: bool,
    pub in_db_quotes: bool,
    pub backslash: bool,
    pub expect_stdout: bool,
    pub expect_stderr: bool,
    pub stout: Option<Seq<char>>,
    pub sterr: Option<Seq<char>>,
    pub append: bool,
    pub saw_redirect: bool,
}

/// The scanner before the first character.
pub open spec fn scan_init() -> ScanModel {
    ScanModel {
        tokens: Seq::empty(),
        current: Seq::empty(),
        in_quotes: false,
        in_db_quotes: false,
        backslash: false,
        expect_stdout: false,
        expect_stderr: false,
        stout: None,
        sterr: None,
        append: false,
        saw_redirect: false,
    }
}

/// The word being built ends: it becomes the pending redirection target,
/// or else the next word.
pub open spec fn close_word(st: ScanModel) -> ScanModel {
    if st.expect_stdout {
        ScanModel { stout: Some(st.current), current: Seq::empty(), expect_stdout: false, ..st }
    } else if st.expect_stderr {
        ScanModel { sterr: Some(st.current), current: Seq::empty(), expect_stderr: false, ..st }
    } else {
        ScanModel { tokens: st.tokens.push(st.current), current: Seq::empty(), ..st }
    }
}

pub open spec fn keep(st: ScanModel, c: char) -> ScanModel {
    ScanModel { current: st.current.push(c), ..st }
}

/// The scanner's reaction to one character.
///
/// A backslash outside single quotes takes the next character literally;
/// single and double quotes group characters (each literal inside the other);
/// an unquoted space ends a word; an unquoted `>` starts a redirection:
/// `1>` and `>` of standard output, `2>` of standard error, and a second
/// redirection on the line switches to appending.
pub open spec fn scan_step(st: ScanModel, c: char) -> ScanModel {
    if st.backslash {
        ScanModel { current: st.current.push(c), backslash: false, ..st }
    } else if c == '\\' {
        if st.in_quotes { keep(st, c) } else { ScanModel { backslash: true, ..st } }
    } else if c == '\'' {
        if !st.in_db_quotes { ScanModel { in_quotes: !st.in_quotes, ..st } } else { keep(st, c) }
    } else if c == '"' {
        if !st.in_quotes { ScanModel { in_db_quotes: !st.in_db_quotes, ..st } } else { keep(st, c) }
    } else if c == ' ' {
        if st.in_quotes || st.in_db_quotes {
            keep(st, c)
        } else if st.current.len() != 0 {
            close_word(st)
        } else {
            st
        }
    } else if c == '>' {
        if !st.in_quotes && !st.in_db_quotes {
            let st1 = if st.saw_redirect { ScanModel { append: true, ..st } } else { st };
            if st1.current == seq!['1'] {
                ScanModel { current: Seq::empty(), expect_stdout: true, ..st1 }
            } else if st1.current == seq!['2'] {
                ScanModel { current: Seq::empty(), expect_stderr: true, ..st1 }
            } else if st1.current.len() != 0 {
                ScanModel { tokens: st1.tokens.push(st1.current), current: Seq::empty(), ..st1 }
            } else {
                ScanModel {
                    saw_redirect: !st1.saw_redirect,
                    current: Seq::empty(),
                    expect_stdout: true,
                    ..st1
                }
            }
        } else {
            keep(st, c)
        }
    } else {
        keep(st, c)
    }
}

/// The scanner after a whole sequence of characters.
pub open spec fn scan_run(s: Seq<char>) -> ScanModel
    decreases s.len(),
{
    if s.len() == 0 {
        scan_init()
    } else {
        scan_step(scan_run(s.drop_last()), s.last())
    }
}

/// The end of the line: a trailing backslash is kept, and the last word
/// becomes the pending redirection target, or else the last word if it is
/// not empty.
pub open spec fn scan_finish(st: ScanModel) -> ScanModel {
    let cur = if st.backslash { st.current.push('\\') } else { st.current };
    let st1 = ScanModel { current: cur, ..st };
    if st1.expect_stdout {
        ScanModel { stout: Some(cur), ..st1 }
    } else if st1.expect_stderr {
        ScanModel { sterr: Some(cur), ..st1 }
    } else if cur.len() != 0 {
        ScanModel { tokens: st1.tokens.push(cur), ..st1 }
    } else {
        st1
    }
}

/// What a line scans to.
pub open spec fn scan_line(line: Seq<char>) -> ScanModel {
    scan_finish(scan_run(line))
}

/// A line that names a command: its scan yields at least one word.
pub open spec fn names_command(line: Seq<char>) -> bool {
    scan_line(line).tokens.len() > 0
}

/// The command that a line names: the first word is the command, the rest
/// its arguments.
pub open spec fn spec_tokenize(line: Seq<char>) -> SpecParsedCmd {
    let f = scan_line(line);
    SpecParsedCmd {
        cmd: f.tokens[0],
        args: f.tokens.drop_first(),
        stout: f.stout,
        sterr: f.sterr,
        append: f.append,
    }
}

/// The words and redirections of a line, before the command is picked out.
pub struct Scan {
    pub tokens: Vec<String>,
    pub stout: Option<String>,
    pub sterr: Option<String>,
    pub append: bool,
}

struct Scanner {
    tokens: Vec<String>,
    current: Vec<char>,
    in_quotes: bool,
    in_db_quotes: bool,
    backslash: bool,
    expect_stdout: bool,
    expect_stderr: bool,
    stout: Option<String>,
    sterr: Option<String>,
    append: bool,
    saw_redirect: bool,
}

impl View for Scanner {
    type V = ScanModel;

    closed spec fn view(&self) -> ScanModel {
        ScanModel {
            tokens: strings_view(self.tokens@),
            current: self.current@,
            in_quotes: self.in_quotes,
            in_db_quotes: self.in_db_quotes,
            backslash: self.backslash,
            expect_stdout: self.expect_stdout,
            expect_stderr: self.expect_stderr,
            stout: opt_str(self.stout),
            sterr: opt_str(self.sterr),
            append: self.append,
            saw_redirect: self.saw_redirect,
        }
    }
}

impl Scanner {
    fn take_current(&mut self) -> (res: String)
        ensures
            res@ == old(self)@.current,
            final(self)@ == (ScanModel { current: Seq::empty(), ..old(self)@ }),
    {
        let res = string_from_chars(&self.current);
        self.current = Vec::new();
        res
    }

    fn push_token(&mut self)
        ensures
            final(self)@ == (ScanModel {
                tokens: old(self)@.tokens.push(old(self)@.current),
                current: Seq::empty(),
                ..old(self)@
            }),
    {
        let t = self.take_current();
        let ghost before = strings_view(self.tokens@);
        self.tokens.push(t);
        assert(strings_view(self.tokens@) == before.push(t@));
    }

    fn close_word(&mut self)
        ensures
            final(self)@ == close_word(old(self)@),
    {
        if self.expect_stdout {
            let t = self.take_current();
            self.stout = Some(t);
            self.expect_stdout = false;
        } else if self.expect_stderr {
            let t = self.take_current();
            self.sterr = Some(t);
            self.expect_stderr = false;
        } else {
            self.push_token();
        }
    }

    fn current_is(&self, d: char) -> (res: bool)
        ensures
            res == (self@.current == seq![d]),
    {
        let r = self.current.len() == 1 && self.current[0] == d;
        proof {
            if self.current@ == seq![d] {
                assert(self.current@[0] == d);
            }
            if r {
                assert(self.current@ == seq![d]);
            }
        }
        r
    }

    fn step(&mut self, c: char)
        ensures
            final(self)@ == scan_step(old(self)@, c),
    {
        if self.backslash {
            self.current.push(c);
            self.backslash = false;
        } else if c == '\\' {
            if self.in_quotes {
                self.current.push(c);
            } else {
                self.backslash = true;
            }
        } else if c == '\'' {
            if !self.in_db_quotes {
                self.in_quotes = !self.in_quotes;
            } else {
                self.current.push(c);
            }
        } else if c == '"' {
            if !self.in_quotes {
                self.in_db_quotes = !self.in_db_quotes;
            } else {
                self.current.push(c);
            }
        } else if c == ' ' {
            if self.in_quotes || self.in_db_quotes {
                self.current.push(c);
            } else if self.current.len() != 0 {
                self.close_word();
            }
        } else if c == '>' {
            if !self.in_quotes && !self.in_db_quotes {
                if self.saw_redirect {
                    self.append = true;
                }
                if self.current_is('1') {
                    self.current = Vec::new();
                    self.expect_stdout = true;
                } else if self.current_is('2') {
                    self.current = Vec::new();
                    self.expect_stderr = true;
                } else if self.current.len() != 0 {
                    self.push_token();
                } else {
                    self.saw_redirect = !self.saw_redirect;
                    self.current = Vec::new();
                    self.expect_stdout = true;
                }
            } else {
                self.current.push(c);
            }
        } else {
            self.current.push(c);
        }
    }

    fn finish(self) -> (res: Scan)
        ensures
            strings_view(res.tokens@) == scan_finish(self@).tokens,
            opt_str(res.stout) == scan_finish(self@).stout,
            opt_str(res.sterr) == scan_finish(self@).sterr,
            res.append == scan_finish(self@).append,
    {
        let mut s = self;
        if s.backslash {
            s.current.push('\\');
        }
        if s.expect_stdout {
            let t = s.take_current();
            s.stout = Some(t);
        } else if s.expect_stderr {
            let t = s.take_current();
            s.sterr = Some(t);
        } else if s.current.len() != 0 {
            s.push_token();
        }
        Scan { tokens: s.tokens, stout: s.stout, sterr: s.sterr, append: s.append }
    }
}

/// Scans a line into its words and redirections.
pub fn scan(line: &str) -> (res: Scan)
    ensures
        strings_view(res.tokens@) == scan_line(line@).tokens,
        opt_str(res.stout) == scan_line(line@).stout,
        opt_str(res.sterr) == scan_line(line@).sterr,
        res.append == scan_line(line@).append,
{
    let chars = chars_of(line);
    let mut st = Scanner {
        tokens: Vec::new(),
        current: Vec::new(),
        in_quotes: false,
        in_db_quotes: false,
        backslash: false,
        expect_stdout: false,
        expect_stderr: false,
        stout: None,
        sterr: None,
        append: false,
        saw_redirect: false,
    };
    assert(strings_view(st.tokens@) == Seq::<Seq<char>>::empty());
    assert(st@ == scan_run(chars@.take(0)));
    let mut i: usize = 0;
    while i < chars.len()
        invariant
            i <= chars.len(),
            chars@ == line@,
            st@ == scan_run(chars@.take(i as int)),
        decreases chars.len() - i,
    {
        st.step(chars[i]);
        assert(chars@.take(i + 1).drop_last() == chars@.take(i as int));
        i = i + 1;
    }
    assert(chars@.take(chars.len() as int) == chars@);
    st.finish()
}

/// Splits a line into a command, its arguments and its redirections.
/// A line that yields no word has no command, and is refused.
pub fn tokenize(line: &str) -> (res: ParsedCmd)
    requires
        names_command(line@),
    ensures
        res@ == spec_tokenize(line@),
{
    let s = scan(line);
    let mut tokens = s.tokens;
    let ghost all = strings_view(tokens@);
    let cmd = tokens.remove(0);
    assert(strings_view(tokens@) == all.drop_first());
    ParsedCmd { cmd, args: tokens, stout: s.stout, sterr: s.sterr, append: s.append }
}

/// The parsed views of a sequence of commands.
pub open spec fn cmds_view(v: Seq<ParsedCmd>) -> Seq<SpecParsedCmd> {
    v.map_values(|p: ParsedCmd| p@)
}

/// The pieces of a command line: the texts between the `|` signs, without
/// surrounding white space.
pub open spec fn line_pieces(line: Seq<char>) -> Seq<Seq<char>> {
    split_on(line, '|').map_values(|p: Seq<char>| trimmed(p))
}

/// A line each of whose pieces names a command.
pub open spec fn names_commands(line: Seq<char>) -> bool {
    forall|i: int| 0 <= i < line_pieces(line).len() ==> names_command(#[trigger] line_pieces(line)[i])
}

/// The commands of a line: one for each piece between `|` signs.
pub open spec fn spec_parse_commands(line: Seq<char>) -> Seq<SpecParsedCmd> {
    line_pieces(line).map_values(|p: Seq<char>| spec_tokenize(p))
}

/// Splits a command line at its `|` signs and parses each piece. A piece
/// that names no command is refused.
pub fn parse_commands(line: &str) -> (res: Vec<ParsedCmd>)
    requires
        names_commands(line@),
    ensures
        cmds_view(res@) == spec_parse_commands(line@),
{
    match try_parse_commands(line) {
        Some(v) => v,
        None => {
            assert(false);
            Vec::new()
        },
    }
}

/// Splits a command line at its `|` signs and parses each piece; `None`
/// when some piece names no command.
pub fn try_parse_commands(line: &str) -> (res: Option<Vec<ParsedCmd>>)
    ensures
        res is Some <==> names_commands(line@),
        res matches Some(v) ==> cmds_view(v@) == spec_parse_commands(line@),
{
    let pieces = split_char(line, '|');
    let ghost ps = line_pieces(line@);
    assert(ps.len() == pieces@.len());
    let mut out: Vec<ParsedCmd> = Vec::new();
    let mut i: usize = 0;
    while i < pieces.len()
        invariant
            i <= pieces.len(),
            ps == line_pieces(line@),
            strings_view(pieces@) == split_on(line@, '|'),
            ps.len() == pieces@.len(),
            forall|k: int| 0 <= k < i ==> names_command(#[trigger] ps[k]),
            cmds_view(out@) == ps.take(i as int).map_values(|p: Seq<char>| spec_tokenize(p)),
        decreases pieces.len() - i,
    {
        let t = trim(pieces[i].as_str());
        assert(t@ == ps[i as int]);
        let sc = scan(t.as_str());
        if sc.tokens.len() == 0 {
            assert(!names_command(ps[i as int]));
            return None;
        }
        let parsed = tokenize(t.as_str());
        let ghost before = cmds_view(out@);
        out.push(parsed);
        assert(cmds_view(out@) == before.push(parsed@));
        assert(ps.take(i + 1) == ps.take(i as int).push(ps[i as int]));
        i = i + 1;
    }
    assert(ps.take(pieces.len() as int) == ps);
    Some(out)
}

} // verus!
