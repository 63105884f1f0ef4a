//! Dynamic completions: turning the output of a `complete` command into
//! choices and optional descriptions.

use vstd::prelude::*;

use crate::text::{char_is_whitespace, string_from_chars, string_push, unicode_white_space, views};

verus! {

/// Parse `value:description` from `s`, with `acc` the value read so far;
/// `\:` stands for a colon inside the value.
pub open spec fn parse_line(s: Seq<char>, acc: Seq<char>) -> Option<(Seq<char>, Seq<char>)>
    decreases s.len(),
{
    if s.len() == 0 {
        None
    } else if s[0] == '\\' && s.len() > 1 && s[1] == ':' {
        parse_line(s.skip(2), acc.push(':'))
    } else if s[0] == ':' {
        Some((acc, s.skip(1)))
    } else {
        parse_line(s.skip(1), acc.push(s[0]))
    }
}

/// Whether `r` carries the value and description that `parse_line` finds in `s`.
pub open spec fn parsed_as(r: Option<(String, String)>, s: Seq<char>) -> bool {
    match (r, parse_line(s, Seq::empty())) {
        (Some((v, d)), Some((pv, pd))) => v@ == pv && d@ == pd,
        (None, None) => true,
        _ => false,
    }
}

/// Parse a completion line in "value:description" format.
/// Colons can be escaped with `\:`.
pub fn parse_completion_line(line: &str) -> (r: Option<(String, String)>)
    ensures
        parsed_as(r, line@),
{
    let chars = crate::text::chars_of(line);
    let n = chars.len();
    let mut value = String::new();
    let mut i: usize = 0;
    assert(line@.skip(0) =~= line@);
    while i < n
        invariant
            n == chars@.len(),
            chars@ == line@,
            i <= n,
            parse_line(line@, Seq::empty()) == parse_line(line@.skip(i as int), value@),
        decreases n - i,
    {
        let ch = chars[i];
        let ghost rest = line@.skip(i as int);
        assert(rest[0] == ch);
        if ch == '\\' && i + 1 < n && chars[i + 1] == ':' {
            assert(rest[1] == ':');
            assert(rest.skip(2) =~= line@.skip(i + 2));
            string_push(&mut value, ':');
            i = i + 2;
        } else if ch == ':' {
            let mut desc = String::new();
            let mut j: usize = i + 1;
            while j < n
                invariant
                    n == chars@.len(),
                    chars@ == line@,
                    i < j <= n,
                    desc@ == line@.subrange(i + 1, j as int),
                decreases n - j,
            {
                string_push(&mut desc, chars[j]);
                assert(line@.subrange(i + 1, j + 1) =~= line@.subrange(i + 1, j as int).push(
                    line@[j as int],
                ));
                j = j + 1;
            }
            assert(rest.skip(1) =~= line@.subrange(i + 1, n as int));
            return Some((value, desc));
        } else {
            assert(rest.skip(1) =~= line@.skip(i + 1));
            string_push(&mut value, ch);
            i = i + 1;
        }
    }
    assert(line@.skip(n as int).len() == 0);
    None
}

/// `v` with each colon written as `\:`.
pub open spec fn escape_colons(v: Seq<char>) -> Seq<char>
    decreases v.len(),
{
    if v.len() == 0 {
        Seq::empty()
    } else {
        (if v[0] == ':' {
            seq!['\\', ':']
        } else {
            seq![v[0]]
        }) + escape_colons(v.skip(1))
    }
}

proof fn lemma_escaped_prefix(v: Seq<char>, t: Seq<char>, acc: Seq<char>)
    requires
        !(v.len() > 0 && v.last() == '\\' && t.len() > 0 && t[0] == ':'),
    ensures
        parse_line(escape_colons(v) + t, acc) == parse_line(t, acc + v),
    decreases v.len(),
{
    if v.len() == 0 {
        assert(escape_colons(v) + t =~= t);
        assert(acc + v =~= acc);
    } else {
        let rest = v.skip(1);
        let s = escape_colons(v) + t;
        if rest.len() > 0 {
            assert(rest.last() == v.last());
        }
        lemma_escaped_prefix(rest, t, acc.push(v[0]));
        assert(acc.push(v[0]) + rest =~= acc + v);
        if v[0] == ':' {
            assert(s[0] == '\\' && s[1] == ':');
            assert(s.skip(2) =~= escape_colons(rest) + t);
        } else {
            assert(s[0] == v[0]);
            assert(s.skip(1) =~= escape_colons(rest) + t);
            if v[0] == '\\' && s.len() > 1 {
                if rest.len() > 0 {
                    if rest[0] == ':' {
                        assert(s[1] == '\\');
                    } else {
                        assert(s[1] == rest[0]);
                    }
                } else {
                    assert(s[1] == t[0]);
                }
            }
        }
    }
}

/// A line written as the value with its colons escaped, a colon and the
/// description parses back to that value and description, unless the value
/// ends with a backslash (which would escape the separating colon).
pub proof fn lemma_escaped_line_parses(v: Seq<char>, d: Seq<char>)
    requires
        !(v.len() > 0 && v.last() == '\\'),
    ensures
        parse_line(escape_colons(v) + seq![':'] + d, Seq::empty()) == Some((v, d)),
{
    let t = seq![':'] + d;
    assert(escape_colons(v) + seq![':'] + d =~= escape_colons(v) + t);
    lemma_escaped_prefix(v, t, Seq::empty());
    assert(Seq::<char>::empty() + v =~= v);
    assert(t.skip(1) =~= d);
}

// ── Lines and trimming ──────────────────────────────────────────────

/// How line splitting stands after a prefix: the finished lines and the line in progress.
pub open spec fn line_state(s: Seq<char>) -> (Seq<Seq<char>>, Seq<char>)
    decreases s.len(),
{
    if s.len() == 0 {
        (Seq::empty(), Seq::empty())
    } else {
        let (ls, cur) = line_state(s.drop_last());
        if s.last() == '\n' {
            (ls.push(cur), Seq::empty())
        } else {
            (ls, cur.push(s.last()))
        }
    }
}

/// A line without its final carriage return, if it has one.
pub open spec fn strip_cr(l: Seq<char>) -> Seq<char> {
    if l.len() > 0 && l.last() == '\r' {
        l.drop_last()
    } else {
        l
    }
}

/// The lines of `s` as `str::lines` gives them: split at each `\n`, a final
/// `\r` removed from each, and no empty last line after a final newline.
pub open spec fn text_lines(s: Seq<char>) -> Seq<Seq<char>> {
    let (ls, cur) = line_state(s);
    let all = if cur.len() > 0 {
        ls.push(cur)
    } else {
        ls
    };
    all.map_values(|l: Seq<char>| strip_cr(l))
}

/// `s` without leading whitespace.
pub open spec fn trim_start_spec(s: Seq<char>) -> Seq<char>
    decreases s.len(),
{
    if s.len() > 0 && unicode_white_space(s[0]) {
        trim_start_spec(s.drop_first())
    } else {
        s
    }
}

/// `s` without trailing whitespace.
pub open spec fn trim_end_spec(s: Seq<char>) -> Seq<char>
    decreases s.len(),
{
    if s.len() > 0 && unicode_white_space(s.last()) {
        trim_end_spec(s.drop_last())
    } else {
        s
    }
}

/// `s` without leading or trailing whitespace.
pub open spec fn trim_spec(s: Seq<char>) -> Seq<char> {
    trim_end_spec(trim_start_spec(s))
}

/// Split `s` into lines as `str::lines` does.
pub fn split_lines(s: &str) -> (r: Vec<Vec<char>>)
    ensures
        r@.len() == text_lines(s@).len(),
        forall|k: int| 0 <= k < r@.len() ==> #[trigger] r@[k]@ == text_lines(s@)[k],
{
    let chars = crate::text::chars_of(s);
    let n = chars.len();
    let mut lines: Vec<Vec<char>> = Vec::new();
    let mut cur: Vec<char> = Vec::new();
    let mut i: usize = 0;
    while i < n
        invariant
            n == chars@.len(),
            chars@ == s@,
            i <= n,
            lines@.map_values(|l: Vec<char>| l@) == line_state(s@.subrange(0, i as int)).0,
            cur@ == line_state(s@.subrange(0, i as int)).1,
        decreases n - i,
    {
        assert(s@.subrange(0, i + 1).drop_last() =~= s@.subrange(0, i as int));
        let c = chars[i];
        if c == '\n' {
            let ghost before = lines@.map_values(|l: Vec<char>| l@);
            let done = cur;
            lines.push(done);
            cur = Vec::new();
            assert(lines@.map_values(|l: Vec<char>| l@) =~= before.push(done@));
        } else {
            cur.push(c);
        }
        i = i + 1;
    }
    assert(s@.subrange(0, n as int) =~= s@);
    if cur.len() > 0 {
        let ghost before = lines@.map_values(|l: Vec<char>| l@);
        let done = cur;
        lines.push(done);
        assert(lines@.map_values(|l: Vec<char>| l@) =~= before.push(done@));
    }
    let ghost all = lines@.map_values(|l: Vec<char>| l@);
    let mut out: Vec<Vec<char>> = Vec::new();
    let mut k: usize = 0;
    while k < lines.len()
        invariant
            k <= lines.len(),
            all == lines@.map_values(|l: Vec<char>| l@),
            out@.len() == k,
            forall|j: int| 0 <= j < k ==> #[trigger] out@[j]@ == strip_cr(all[j]),
        decreases lines.len() - k,
    {
        let l = &lines[k];
        let mut m = l.len();
        if m > 0 && l[m - 1] == '\r' {
            m = m - 1;
        }
        let mut t: Vec<char> = Vec::new();
        let mut j: usize = 0;
        while j < m
            invariant
                m <= l@.len(),
                j <= m,
                t@ == l@.subrange(0, j as int),
            decreases m - j,
        {
            t.push(l[j]);
            assert(l@.subrange(0, j + 1) =~= l@.subrange(0, j as int).push(l@[j as int]));
            j = j + 1;
        }
        assert(all[k as int] == l@);
        assert(t@ =~= strip_cr(l@));
        out.push(t);
        k = k + 1;
    }
    out
}

proof fn lemma_trim_start_skip(s: Seq<char>, a: int)
    requires
        0 <= a <= s.len(),
        forall|j: int| 0 <= j < a ==> unicode_white_space(#[trigger] s[j]),
    ensures
        trim_start_spec(s) == trim_start_spec(s.skip(a)),
    decreases a,
{
    if a > 0 {
        assert(s.skip(1).skip(a - 1) =~= s.skip(a));
        assert(s.drop_first() =~= s.skip(1));
        assert forall|j: int| 0 <= j < a - 1 implies unicode_white_space(#[trigger] s.skip(1)[j]) by {
            assert(s.skip(1)[j] == s[j + 1]);
        }
        lemma_trim_start_skip(s.skip(1), a - 1);
    } else {
        assert(s.skip(0) =~= s);
    }
}

proof fn lemma_trim_end_take(s: Seq<char>, b: int)
    requires
        0 <= b <= s.len(),
        forall|j: int| b <= j < s.len() ==> unicode_white_space(#[trigger] s[j]),
    ensures
        trim_end_spec(s) == trim_end_spec(s.take(b)),
    decreases s.len() - b,
{
    if b < s.len() {
        assert(s.drop_last().take(b) =~= s.take(b));
        assert forall|j: int| b <= j < s.drop_last().len() implies unicode_white_space(
            #[trigger] s.drop_last()[j],
        ) by {
            assert(s.drop_last()[j] == s[j]);
        }
        lemma_trim_end_take(s.drop_last(), b);
    } else {
        assert(s.take(b) =~= s);
    }
}

/// `s` without leading or trailing whitespace.
pub fn trim_chars(s: &Vec<char>) -> (r: Vec<char>)
    ensures
        r@ == trim_spec(s@),
{
    let n = s.len();
    let mut a: usize = 0;
    while a < n && char_is_whitespace(s[a])
        invariant
            n == s@.len(),
            a <= n,
            forall|j: int| 0 <= j < a ==> unicode_white_space(#[trigger] s@[j]),
        decreases n - a,
    {
        a = a + 1;
    }
    proof {
        lemma_trim_start_skip(s@, a as int);
    }
    let ghost st = s@.skip(a as int);
    assert(a < n ==> !unicode_white_space(st[0]));
    assert(trim_start_spec(st) == st);
    let mut b: usize = n;
    while b > a && char_is_whitespace(s[b - 1])
        invariant
            n == s@.len(),
            a <= b <= n,
            st == s@.skip(a as int),
            forall|j: int| b - a <= j < st.len() ==> unicode_white_space(#[trigger] st[j]),
        decreases b,
    {
        assert(st[(b - 1 - a) as int] == s@[b - 1]);
        b = b - 1;
    }
    proof {
        lemma_trim_end_take(st, (b - a) as int);
    }
    let mut r: Vec<char> = Vec::new();
    let mut j: usize = a;
    while j < b
        invariant
            a <= j <= b <= n,
            n == s@.len(),
            r@ == s@.subrange(a as int, j as int),
        decreases b - j,
    {
        r.push(s[j]);
        assert(s@.subrange(a as int, j + 1) =~= s@.subrange(a as int, j as int).push(s@[j as int]));
        j = j + 1;
    }
    let ghost tk = st.take((b - a) as int);
    assert(tk =~= s@.subrange(a as int, b as int));
    assert(b > a ==> !unicode_white_space(tk.last()));
    assert(trim_end_spec(tk) == tk);
    r
}

// ── Completion output ───────────────────────────────────────────────

/// The choices (with optional descriptions) listed by the lines `ls`:
/// blank lines are skipped; with `descriptions`, a `value:description`
/// line gives both, any other line is a bare choice.
pub open spec fn completion_entries(ls: Seq<Seq<char>>, descriptions: bool) -> Seq<
    (Seq<char>, Option<Seq<char>>),
>
    decreases ls.len(),
{
    if ls.len() == 0 {
        Seq::empty()
    } else {
        let rest = completion_entries(ls.drop_last(), descriptions);
        let t = trim_spec(ls.last());
        if t.len() == 0 {
            rest
        } else {
            match parse_line(t, Seq::empty()) {
                Some((v, d)) => if descriptions {
                    rest.push((v, Some(d)))
                } else {
                    rest.push((t, None))
                },
                None => rest.push((t, None)),
            }
        }
    }
}

/// Whether `r` lists exactly the entries `es` (choices and descriptions side by side).
pub open spec fn lists_entries(
    r: (Vec<String>, Vec<Option<String>>),
    es: Seq<(Seq<char>, Option<Seq<char>>)>,
) -> bool {
    &&& r.0@.len() == es.len()
    &&& r.1@.len() == es.len()
    &&& forall|k: int| 0 <= k < es.len() ==> #[trigger] r.0@[k]@ == es[k].0
    &&& forall|k: int|
        0 <= k < es.len() ==> match (#[trigger] r.1@[k], es[k].1) {
            (Some(d), Some(e)) => d@ == e,
            (None, None) => true,
            _ => false,
        }
}

/// The choices a completion command's output offers: `None` when the
/// command failed or listed nothing.
pub fn completions_from_output(success: bool, stdout: &str, descriptions: bool) -> (r: Option<
    (Vec<String>, Vec<Option<String>>),
>)
    ensures
        !success ==> r is None,
        success ==> (r is None <==> completion_entries(text_lines(stdout@), descriptions).len()
            == 0),
        r matches Some(p) ==> lists_entries(p, completion_entries(text_lines(stdout@), descriptions)),
{
    if !success {
        return None;
    }
    let lines = split_lines(stdout);
    let ghost ls = text_lines(stdout@);
    let mut choices: Vec<String> = Vec::new();
    let mut descs: Vec<Option<String>> = Vec::new();
    let mut i: usize = 0;
    while i < lines.len()
        invariant
            i <= lines.len(),
            lines@.len() == ls.len(),
            forall|k: int| 0 <= k < lines@.len() ==> #[trigger] lines@[k]@ == ls[k],
            lists_entries((choices, descs), completion_entries(ls.take(i as int), descriptions)),
        decreases lines.len() - i,
    {
        let ghost before = completion_entries(ls.take(i as int), descriptions);
        assert(ls.take(i + 1).drop_last() =~= ls.take(i as int));
        assert(ls.take(i + 1).last() == lines@[i as int]@);
        let t = trim_chars(&lines[i]);
        if t.len() > 0 {
            let line = string_from_chars(&t);
            let mut handled = false;
            if descriptions {
                match parse_completion_line(line.as_str()) {
                    Some((value, desc)) => {
                        choices.push(value);
                        descs.push(Some(desc));
                        handled = true;
                    },
                    None => {},
                }
            }
            if !handled {
                choices.push(line);
                descs.push(None);
            }
        }
        i = i + 1;
    }
    assert(ls.take(lines@.len() as int) =~= ls);
    if choices.len() == 0 {
        return None;
    }
    Some((choices, descs))
}

} // verus!
