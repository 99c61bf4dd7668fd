use vstd::prelude::*;

verus! {

/// The characters of an optional string.
pub open spec fn opt_str(o: Option<String>) -> Option<Seq<char>> {
    match o {
        Some(s) => Some(s@),
        None => None,
    }
}

/// The characters of each string of a sequence.
pub open spec fn strings_view(v: Seq<String>) -> Seq<Seq<char>> {
    v.map_values(|s: String| s@)
}

/// Appends one character to a string (`String::push`).
/// Trusted: the result's characters are the old ones followed by `c`,
/// as the standard library documents for `push`.
#[verifier::external_body]
pub fn push_char(s: &mut String, c: char)
    ensures
        final(s)@ == old(s)@.push(c),
{
    s.push(c);
}

/// The characters of a string slice, in order (`str::chars` collected).
pub fn chars_of(s: &str) -> (res: Vec<char>)
    ensures
        res@ == s@,
{
    let mut res: Vec<char> = Vec::new();
    for c in it: s.chars()
        invariant
            res@ == it.seq().take(it.index() as int),
    {
        res.push(c);
    }
    res
}

/// Builds a string from a sequence of characters.
pub fn string_from_chars(chars: &Vec<char>) -> (res: String)
    ensures
        res@ == chars@,
{
    let mut res = String::new();
    let mut i: usize = 0;
    while i < chars.len()
        invariant
            i <= chars.len(),
            res@ == chars@.take(i as int),
        decreases chars.len() - i,
    {
        push_char(&mut res, chars[i]);
        assert(chars@.take(i + 1) == chars@.take(i as int).push(chars@[i as int]));
        i = i + 1;
    }
    assert(chars@.take(chars.len() as int) == chars@);
    res
}

/// Whether two string slices hold the same characters.
pub fn same_text(a: &str, b: &str) -> (res: bool)
    ensures
        res == (a@ == b@),
{
    let x = chars_of(a);
    let y = chars_of(b);
    if x.len() != y.len() {
        return false;
    }
    let mut i: usize = 0;
    while i < x.len()
        invariant
            x@ == a@,
            y@ == b@,
            x.len() == y.len(),
            i <= x.len(),
            forall|k: int| 0 <= k < i ==> x@[k] == y@[k],
        decreases x.len() - i,
    {
        if x[i] != y[i] {
            return false;
        }
        i = i + 1;
    }
    assert(x@ =~= y@);
    true
}

/// Unicode white space, as `char::is_whitespace` classifies it.
pub open spec fn is_space(c: char) -> bool {
    ||| ('\t' <= c && c <= '\r')
    ||| c == ' '
    ||| c == '\u{85}'
    ||| c == '\u{a0}'
    ||| c == '\u{1680}'
    ||| ('\u{2000}' <= c && c <= '\u{200a}')
    ||| c == '\u{2028}'
    ||| c == '\u{2029}'
    ||| c == '\u{202f}'
    ||| c == '\u{205f}'
    ||| c == '\u{3000}'
}

pub fn is_space_char(c: char) -> (res: bool)
    ensures
        res == is_space(c),
{
    ('\t' <= c && c <= '\r') || c == ' ' || c == '\u{85}' || c == '\u{a0}' || c == '\u{1680}'
        || ('\u{2000}' <= c && c <= '\u{200a}') || c == '\u{2028}' || c == '\u{2029}' || c
        == '\u{202f}' || c == '\u{205f}' || c == '\u{3000}'
}

/// A sequence without its leading white space.
pub open spec fn trim_start(s: Seq<char>) -> Seq<char>
    decreases s.len(),
{
    if s.len() > 0 && is_space(s[0]) {
        trim_start(s.drop_first())
    } else {
        s
    }
}

/// A sequence without its trailing white space.
pub open spec fn trim_end(s: Seq<char>) -> Seq<char>
    decreases s.len(),
{
    if s.len() > 0 && is_space(s.last()) {
        trim_end(s.drop_last())
    } else {
        s
    }
}

/// A sequence without its leading and trailing white space.
pub open spec fn trimmed(s: Seq<char>) -> Seq<char> {
    trim_end(trim_start(s))
}

/// Removes leading and trailing white space.
pub fn trim(s: &str) -> (res: String)
    ensures
        res@ == trimmed(s@),
{
    let c = chars_of(s);
    let n = c.len();
    let mut i: usize = 0;
    assert(c@.skip(0) == c@);
    while i < n && is_space_char(c[i])
        invariant
            c@ == s@,
            n == c.len(),
            i <= n,
            trim_start(c@) == trim_start(c@.skip(i as int)),
        decreases n - i,
    {
        assert(c@.skip(i as int).drop_first() == c@.skip(i + 1));
        i = i + 1;
    }
    assert(trim_start(c@) == c@.skip(i as int));
    let mut j: usize = n;
    assert(c@.subrange(i as int, n as int) == c@.skip(i as int));
    while j > i && is_space_char(c[j - 1])
        invariant
            c@ == s@,
            n == c.len(),
            i <= j <= n,
            trim_start(c@) == c@.skip(i as int),
            trimmed(c@) == trim_end(c@.subrange(i as int, j as int)),
        decreases j,
    {
        assert(c@.subrange(i as int, j as int).drop_last() == c@.subrange(i as int, j - 1));
        j = j - 1;
    }
    let mut out: Vec<char> = Vec::new();
    let mut k: usize = i;
    while k < j
        invariant
            i <= k <= j <= n,
            n == c.len(),
            out@ == c@.subrange(i as int, k as int),
        decreases j - k,
    {
        out.push(c[k]);
        assert(c@.subrange(i as int, k + 1) == c@.subrange(i as int, k as int).push(c@[k as int]));
        k = k + 1;
    }
    string_from_chars(&out)
}

/// The pieces of a sequence between the occurrences of a separator
/// (as `str::split` with a character gives them).
pub open spec fn split_on(s: Seq<char>, d: char) -> Seq<Seq<char>>
    decreases s.len(),
{
    if s.len() == 0 {
        seq![Seq::empty()]
    } else {
        let r = split_on(s.drop_last(), d);
        if s.last() == d {
            r.push(Seq::empty())
        } else {
            r.update(r.len() - 1, r.last().push(s.last()))
        }
    }
}

pub proof fn lemma_split_on_nonempty(s: Seq<char>, d: char)
    ensures
        split_on(s, d).len() >= 1,
    decreases s.len(),
{
    if s.len() > 0 {
        lemma_split_on_nonempty(s.drop_last(), d);
    }
}

/// Splits a string at every occurrence of a separator character.
pub fn split_char(s: &str, d: char) -> (res: Vec<String>)
    ensures
        strings_view(res@) == split_on(s@, d),
{
    let c = chars_of(s);
    let mut pieces: Vec<String> = Vec::new();
    let mut cur: Vec<char> = Vec::new();
    let mut i: usize = 0;
    assert(c@.take(0) == Seq::<char>::empty());
    assert(strings_view(pieces@).push(cur@) == split_on(c@.take(0), d));
    while i < c.len()
        invariant
            c@ == s@,
            i <= c.len(),
            strings_view(pieces@).push(cur@) == split_on(c@.take(i as int), d),
        decreases c.len() - i,
    {
        let ghost pre = c@.take(i as int);
        assert(c@.take(i + 1).drop_last() == pre);
        assert(c@.take(i + 1).last() == c@[i as int]);
        proof {
            lemma_split_on_nonempty(pre, d);
        }
        if c[i] == d {
            let t = string_from_chars(&cur);
            let ghost before = strings_view(pieces@);
            pieces.push(t);
            assert(strings_view(pieces@) == before.push(t@));
            cur = Vec::new();
        } else {
            cur.push(c[i]);
        }
        i = i + 1;
    }
    assert(c@.take(c.len() as int) == c@);
    let t = string_from_chars(&cur);
    let ghost before = strings_view(pieces@);
    pieces.push(t);
    assert(strings_view(pieces@) == before.push(t@));
    pieces
}

/// The character of a decimal digit.
pub open spec fn digit_char(d: nat) -> char {
    (48 + d) as char
}

/// The decimal notation of a natural number, without leading zeros.
pub open spec fn decimal(n: nat) -> Seq<char>
    decreases n,
{
    if n < 10 {
        seq![digit_char(n)]
    } else {
        decimal(n / 10).push(digit_char(n % 10))
    }
}

/// Writes a number in decimal.
pub fn format_usize(n: usize) -> (res: String)
    ensures
        res@ == decimal(n as nat),
    decreases n,
{
    let d = (n % 10) as u8;
    if n < 10 {
        let mut s = String::new();
        push_char(&mut s, (48 + d) as char);
        s
    } else {
        let mut s = format_usize(n / 10);
        push_char(&mut s, (48 + d) as char);
        s
    }
}

/// An ASCII decimal digit.
pub open spec fn is_digit(c: char) -> bool {
    '0' <= c && c <= '9'
}

/// The value of a sequence of decimal digits.
pub open spec fn digits_value(s: Seq<char>) -> nat
    decreases s.len(),
{
    if s.len() == 0 {
        0
    } else {
        digits_value(s.drop_last()) * 10 + ((s.last() as nat) - 48) as nat
    }
}

/// The digits of an unsigned number: an optional leading `+` is dropped.
pub open spec fn unsigned_digits(s: Seq<char>) -> Seq<char> {
    if s.len() > 0 && s[0] == '+' {
        s.drop_first()
    } else {
        s
    }
}

/// Whether `usize::from_str` accepts a text: an optional `+`, then one or
/// more decimal digits whose value fits in a `usize`.
pub open spec fn parses_usize(s: Seq<char>) -> bool {
    let d = unsigned_digits(s);
    &&& d.len() > 0
    &&& forall|i: int| 0 <= i < d.len() ==> is_digit(#[trigger] d[i])
    &&& digits_value(d) <= usize::MAX
}

/// The number that a text accepted by `parses_usize` denotes.
pub open spec fn usize_value(s: Seq<char>) -> nat {
    digits_value(unsigned_digits(s))
}

proof fn lemma_digits_value_prefix(s: Seq<char>, k: int)
    requires
        0 <= k <= s.len(),
        forall|i: int| 0 <= i < s.len() ==> is_digit(#[trigger] s[i]),
    ensures
        digits_value(s.take(k)) <= digits_value(s),
    decreases s.len(),
{
    if k < s.len() {
        assert(s.drop_last().take(k) == s.take(k));
        assert forall|i: int| 0 <= i < s.drop_last().len() implies is_digit(
            #[trigger] s.drop_last()[i],
        ) by {
            assert(s.drop_last()[i] == s[i]);
        }
        lemma_digits_value_prefix(s.drop_last(), k);
    } else {
        assert(s.take(k) == s);
    }
}

/// Reads an unsigned number as `usize::from_str` does.
pub fn parse_usize(s: &str) -> (res: Option<usize>)
    ensures
        res is Some <==> parses_usize(s@),
        res matches Some(v) ==> v == usize_value(s@),
{
    let c = chars_of(s);
    let start: usize = if c.len() > 0 && c[0] == '+' {
        1
    } else {
        0
    };
    let ghost d = unsigned_digits(s@);
    assert(d == c@.skip(start as int));
    if start >= c.len() {
        return None;
    }
    let mut v: usize = 0;
    let mut i: usize = start;
    assert(d.take(0) == Seq::<char>::empty());
    while i < c.len()
        invariant
            c@ == s@,
            start <= i <= c.len(),
            d == c@.skip(start as int),
            d == unsigned_digits(s@),
            v == digits_value(d.take(i - start)),
            forall|k: int| 0 <= k < i - start ==> is_digit(#[trigger] d[k]),
        decreases c.len() - i,
    {
        let ch = c[i];
        assert(ch == d[i - start]);
        if !('0' <= ch && ch <= '9') {
            assert(!is_digit(d[i - start]));
            return None;
        }
        let dv = (ch as u32 - 48) as usize;
        assert(d.take(i - start + 1).drop_last() == d.take(i - start));
        assert(digits_value(d.take(i - start + 1)) == v * 10 + dv);
        if v > (usize::MAX - dv) / 10 {
            assert(v * 10 + dv > usize::MAX) by (nonlinear_arith)
                requires
                    v > (usize::MAX - dv) / 10,
                    dv <= 9,
            ;
            proof {
                if forall|k: int| 0 <= k < d.len() ==> is_digit(#[trigger] d[k]) {
                    lemma_digits_value_prefix(d, i - start + 1);
                }
            }
            return None;
        }
        v = v * 10 + dv;
        i = i + 1;
    }
    assert(d.take(i - start) == d);
    Some(v)
}

/// The position of the first occurrence of a character, or the length of
/// the sequence if there is none.
pub open spec fn index_of(s: Seq<char>, c: char) -> nat
    decreases s.len(),
{
    if s.len() == 0 {
        0
    } else if s[0] == c {
        0
    } else {
        1 + index_of(s.drop_first(), c)
    }
}

pub proof fn lemma_index_of(s: Seq<char>, c: char)
    ensures
        index_of(s, c) <= s.len(),
        index_of(s, c) < s.len() ==> s[index_of(s, c) as int] == c,
        forall|i: int| 0 <= i < index_of(s, c) ==> s[i] != c,
    decreases s.len(),
{
    if s.len() > 0 && s[0] != c {
        lemma_index_of(s.drop_first(), c);
        assert forall|i: int| 0 <= i < index_of(s, c) implies s[i] != c by {
            if i > 0 {
                assert(s[i] == s.drop_first()[i - 1]);
            }
        }
    }
}

/// Finds the first occurrence of a character in a string and returns the
/// text before it and the text after it (`str::split_once`).
pub fn split_once(s: &str, c: char) -> (res: Option<(String, String)>)
    ensures
        res is None <==> index_of(s@, c) == s@.len(),
        res matches Some(p) ==> p.0@ == s@.take(index_of(s@, c) as int) && p.1@ == s@.skip(
            index_of(s@, c) as int + 1,
        ),
{
    let v = chars_of(s);
    let mut i: usize = 0;
    assert(v@.skip(0) == v@);
    while i < v.len() && v[i] != c
        invariant
            v@ == s@,
            i <= v.len(),
            index_of(s@, c) == i + index_of(v@.skip(i as int), c),
        decreases v.len() - i,
    {
        assert(v@.skip(i as int).drop_first() == v@.skip(i + 1));
        i = i + 1;
    }
    if i == v.len() {
        return None;
    }
    let mut before: Vec<char> = Vec::new();
    let mut k: usize = 0;
    while k < i
        invariant
            k <= i < v.len(),
            before@ == v@.take(k as int),
        decreases i - k,
    {
        before.push(v[k]);
        assert(v@.take(k + 1) == v@.take(k as int).push(v@[k as int]));
        k = k + 1;
    }
    let mut after: Vec<char> = Vec::new();
    let mut m: usize = i + 1;
    while m < v.len()
        invariant
            i < m <= v.len(),
            after@ == v@.subrange(i + 1, m as int),
        decreases v.len() - m,
    {
        after.push(v[m]);
        assert(v@.subrange(i + 1, m + 1) == v@.subrange(i + 1, m as int).push(v@[m as int]));
        m = m + 1;
    }
    assert(v@.subrange(i + 1, v.len() as int) == v@.skip(i + 1));
    Some((string_from_chars(&before), string_from_chars(&after)))
}

/// The pieces joined, with the separator between each two.
pub open spec fn joined(parts: Seq<Seq<char>>, sep: Seq<char>) -> Seq<char>
    decreases parts.len(),
{
    if parts.len() == 0 {
        Seq::empty()
    } else if parts.len() == 1 {
        parts[0]
    } else {
        joined(parts.drop_last(), sep) + sep + parts.last()
    }
}

/// Joins strings with a separator between each two.
pub fn join(parts: &Vec<String>, sep: &str) -> (res: String)
    ensures
        res@ == joined(strings_view(parts@), sep@),
{
    let mut res = String::new();
    let mut i: usize = 0;
    let ghost all = strings_view(parts@);
    assert(all.take(0) == Seq::<Seq<char>>::empty());
    while i < parts.len()
        invariant
            i <= parts.len(),
            all == strings_view(parts@),
            res@ == joined(all.take(i as int), sep@),
        decreases parts.len() - i,
    {
        assert(all.take(i + 1).drop_last() == all.take(i as int));
        if i != 0 {
            res.append(sep);
        } else {
            assert(all.take(1) == seq![all[0]]);
        }
        res.append(parts[i].as_str());
        i = i + 1;
    }
    assert(all.take(parts.len() as int) == all);
    res
}

} // verus!
