use vstd::prelude::*;

use crate::shell::{var_values, Shell};
use crate::text::{chars_of, push_char, string_from_chars, strings_view};
use crate::tokenizer::{ParsedCmd, SpecParsedCmd};

verus! {

/// A character that may continue a bare variable name: `_` or an ASCII
/// letter or digit.
pub open spec fn is_name_char(c: char) -> bool {
    c == '_' || ('a' <= c && c <= 'z') || ('A' <= c && c <= 'Z') || ('0' <= c && c <= '9')
}

fn name_char(c: char) -> (res: bool)
    ensures
        res == is_name_char(c),
{
    c == '_' || ('a' <= c && c <= 'z') || ('A' <= c && c <= 'Z') || ('0' <= c && c <= '9')
}

/// The length of the run of name characters that starts a sequence.
pub open spec fn name_run(s: Seq<char>) -> nat
    decreases s.len(),
{
    if s.len() > 0 && is_name_char(s[0]) {
        1 + name_run(s.drop_first())
    } else {
        0
    }
}

/// The position of the first `}` in a sequence, or its length if there is
/// none.
pub open spec fn brace_end(s: Seq<char>) -> nat
    decreases s.len(),
{
    if s.len() == 0 {
        0
    } else if s[0] == '}' {
        0
    } else {
        1 + brace_end(s.drop_first())
    }
}

/// The name that follows a `$` (whose text, after the `$`, is `rest`), and
/// the text after that reference: `${name}` (up to the first `}`, or to the
/// end) or a bare run of name characters.
pub open spec fn reference(rest: Seq<char>) -> (Seq<char>, Seq<char>) {
    if rest.len() > 0 && rest[0] == '{' {
        let body = rest.drop_first();
        let k = brace_end(body) as int;
        (body.take(k), if k < body.len() { body.skip(k + 1) } else { Seq::empty() })
    } else {
        let k = name_run(rest) as int;
        (rest.take(k), rest.skip(k))
    }
}

/// What a reference to `name` stands for: a `$` when the name is empty, the
/// variable's value when it is set, nothing otherwise.
pub open spec fn substitution(name: Seq<char>, vars: Map<Seq<char>, Seq<char>>) -> Seq<char> {
    if name.len() == 0 {
        seq!['$']
    } else if vars.contains_key(name) {
        vars[name]
    } else {
        Seq::empty()
    }
}

pub proof fn lemma_reference_shorter(rest: Seq<char>)
    ensures
        reference(rest).1.len() <= rest.len(),
{
    if rest.len() > 0 && rest[0] == '{' {
        lemma_brace_end_bound(rest.drop_first());
    } else {
        lemma_name_run_bound(rest);
    }
}

pub proof fn lemma_brace_end_bound(s: Seq<char>)
    ensures
        brace_end(s) <= s.len(),
        brace_end(s) < s.len() ==> s[brace_end(s) as int] == '}',
        forall|i: int| 0 <= i < brace_end(s) ==> s[i] != '}',
    decreases s.len(),
{
    if s.len() > 0 && s[0] != '}' {
        lemma_brace_end_bound(s.drop_first());
        assert forall|i: int| 0 <= i < brace_end(s) implies s[i] != '}' by {
            if i > 0 {
                assert(s[i] == s.drop_first()[i - 1]);
            }
        }
    }
}

pub proof fn lemma_name_run_bound(s: Seq<char>)
    ensures
        name_run(s) <= s.len(),
        name_run(s) < s.len() ==> !is_name_char(s[name_run(s) as int]),
        forall|i: int| 0 <= i < name_run(s) ==> is_name_char(s[i]),
    decreases s.len(),
{
    if s.len() > 0 && is_name_char(s[0]) {
        lemma_name_run_bound(s.drop_first());
        assert forall|i: int| 0 <= i < name_run(s) implies is_name_char(s[i]) by {
            if i > 0 {
                assert(s[i] == s.drop_first()[i - 1]);
            }
        }
    }
}

/// A text with every variable reference replaced by what it stands for.
pub open spec fn expanded(s: Seq<char>, vars: Map<Seq<char>, Seq<char>>) -> Seq<char>
    decreases s.len(),
{
    if s.len() == 0 {
        Seq::empty()
    } else if s[0] != '$' {
        seq![s[0]] + expanded(s.drop_first(), vars)
    } else {
        let r = reference(s.drop_first());
        proof {
            lemma_reference_shorter(s.drop_first());
        }
        substitution(r.0, vars) + expanded(r.1, vars)
    }
}

/// Finds where a brace reference ends, scanning from `from`.
fn find_brace_end(c: &Vec<char>, from: usize) -> (res: usize)
    requires
        from <= c.len(),
    ensures
        res == from + brace_end(c@.skip(from as int)),
        res <= c.len(),
{
    let mut j = from;
    while j < c.len() && c[j] != '}'
        invariant
            from <= j <= c.len(),
            brace_end(c@.skip(from as int)) == (j - from) + brace_end(c@.skip(j as int)),
        decreases c.len() - j,
    {
        assert(c@.skip(j as int).drop_first() == c@.skip(j + 1));
        j = j + 1;
    }
    j
}

/// Finds where a bare name ends, scanning from `from`.
fn find_name_end(c: &Vec<char>, from: usize) -> (res: usize)
    requires
        from <= c.len(),
    ensures
        res == from + name_run(c@.skip(from as int)),
        res <= c.len(),
{
    let mut j = from;
    while j < c.len() && name_char(c[j])
        invariant
            from <= j <= c.len(),
            name_run(c@.skip(from as int)) == (j - from) + name_run(c@.skip(j as int)),
        decreases c.len() - j,
    {
        assert(c@.skip(j as int).drop_first() == c@.skip(j + 1));
        j = j + 1;
    }
    j
}

fn sub_chars(c: &Vec<char>, from: usize, to: usize) -> (res: Vec<char>)
    requires
        from <= to <= c.len(),
    ensures
        res@ == c@.subrange(from as int, to as int),
{
    let mut out: Vec<char> = Vec::new();
    let mut k = from;
    while k < to
        invariant
            from <= k <= to <= c.len(),
            out@ == c@.subrange(from as int, k as int),
        decreases to - k,
    {
        out.push(c[k]);
        assert(c@.subrange(from as int, k + 1) == c@.subrange(from as int, k as int).push(c@[k as int]));
        k = k + 1;
    }
    out
}

/// Replaces every variable reference in a text: `$name`, where the name is
/// a run of `_`, letters and digits, and `${name}`. A set variable gives its
/// value, an unset one nothing, and a `$` that names nothing stays.
pub fn expand_vars(s: &str, shell: &Shell) -> (res: String)
    ensures
        res@ == expanded(s@, var_values(shell.vars@)),
{
    let ghost vars = var_values(shell.vars@);
    let c = chars_of(s);
    let n = c.len();
    let mut result = String::new();
    let mut i: usize = 0;
    assert(c@.skip(0) == c@);
    while i < n
        invariant
            n == c.len(),
            c@ == s@,
            i <= n,
            vars == var_values(shell.vars@),
            expanded(c@, vars) == result@ + expanded(c@.skip(i as int), vars),
        decreases n - i,
    {
        let ghost t = c@.skip(i as int);
        let ch = c[i];
        if ch != '$' {
            push_char(&mut result, ch);
            assert(t.drop_first() == c@.skip(i + 1));
            i = i + 1;
        } else {
            let ghost rest = t.drop_first();
            assert(rest == c@.skip(i + 1));
            let (name_from, name_to, next) = if i + 1 < n && c[i + 1] == '{' {
                let e = find_brace_end(&c, i + 2);
                proof {
                    assert(rest.drop_first() == c@.skip(i + 2));
                    lemma_brace_end_bound(c@.skip(i + 2));
                }
                (i + 2, e, if e < n { e + 1 } else { e })
            } else {
                let e = find_name_end(&c, i + 1);
                proof {
                    lemma_name_run_bound(c@.skip(i + 1));
                }
                (i + 1, e, e)
            };
            let name_chars = sub_chars(&c, name_from, name_to);
            proof {
                let r = reference(rest);
                assert(name_chars@ == r.0);
                assert(c@.skip(next as int) == r.1);
            }
            if name_chars.len() == 0 {
                push_char(&mut result, '$');
            } else {
                let name = string_from_chars(&name_chars);
                match shell.vars.get(name.as_str()) {
                    Some(value) => {
                        result.append(value.as_str());
                    },
                    None => {},
                }
            }
            i = next;
        }
    }
    result
}

/// The command with every variable reference in its words and redirection
/// targets replaced.
pub open spec fn expanded_cmd(p: SpecParsedCmd, vars: Map<Seq<char>, Seq<char>>) -> SpecParsedCmd {
    SpecParsedCmd {
        cmd: expanded(p.cmd, vars),
        args: p.args.map_values(|a: Seq<char>| expanded(a, vars)),
        stout: match p.stout {
            Some(t) => Some(expanded(t, vars)),
            None => None,
        },
        sterr: match p.sterr {
            Some(t) => Some(expanded(t, vars)),
            None => None,
        },
        append: p.append,
    }
}

/// Replaces the variable references in a command's words and redirection
/// targets.
pub fn expand_command(parsed: &mut ParsedCmd, shell: &Shell)
    ensures
        final(parsed)@ == expanded_cmd(old(parsed)@, var_values(shell.vars@)),
{
    let ghost vars = var_values(shell.vars@);
    parsed.cmd = expand_vars(parsed.cmd.as_str(), shell);
    let mut args: Vec<String> = Vec::new();
    let mut i: usize = 0;
    while i < parsed.args.len()
        invariant
            i <= parsed.args.len(),
            parsed.args == old(parsed).args,
            vars == var_values(shell.vars@),
            strings_view(args@) == strings_view(parsed.args@).take(i as int).map_values(
                |a: Seq<char>| expanded(a, vars),
            ),
        decreases parsed.args.len() - i,
    {
        let e = expand_vars(parsed.args[i].as_str(), shell);
        let ghost before = strings_view(args@);
        args.push(e);
        assert(strings_view(args@) == before.push(e@));
        assert(strings_view(parsed.args@).take(i + 1) == strings_view(parsed.args@).take(
            i as int,
        ).push(parsed.args@[i as int]@));
        i = i + 1;
    }
    assert(strings_view(parsed.args@).take(parsed.args.len() as int) == strings_view(
        parsed.args@,
    ));
    parsed.args = args;
    let stout = match &parsed.stout {
        Some(p) => Some(expand_vars(p.as_str(), shell)),
        None => None,
    };
    parsed.stout = stout;
    let sterr = match &parsed.sterr {
        Some(p) => Some(expand_vars(p.as_str(), shell)),
        None => None,
    };
    parsed.sterr = sterr;
}

} // verus!
