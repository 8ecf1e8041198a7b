//! The engine behind user-defined commands: a shell-like tokenizer that
//! honors single quotes, double quotes and backslash escapes, and a literal
//! `{name}` template substitution over a fixed vocabulary. Substituted text
//! is never scanned again, so a value cannot smuggle a placeholder in.

use vstd::prelude::*;

use crate::text::{
    chars_string, find_char, spec_find, spec_is_space, str_chars, subrange_chars,
};

verus! {

/// The quoting state of the tokenizer.
#[derive(Debug, Clone, Copy, PartialEq, Eq, Structural)]
pub enum QuoteMode {
    Plain,
    Single,
    Double,
}

/// What scanning the rest of the input yields, given the position, quoting
/// state, current token and tokens already collected: the final token list,
/// or the error text for an unterminated construct.
pub open spec fn spec_tokenize(
    s: Seq<char>,
    i: int,
    mode: QuoteMode,
    cur: Seq<char>,
    acc: Seq<Seq<char>>,
) -> Result<Seq<Seq<char>>, Seq<char>>
    decreases s.len() - i,
{
    if i < 0 {
        Err("custom command has unmatched quote"@)
    } else if i >= s.len() {
        match mode {
            QuoteMode::Plain => Ok(
                if cur.len() > 0 {
                    acc.push(cur)
                } else {
                    acc
                },
            ),
            _ => Err("custom command has unmatched quote"@),
        }
    } else {
        let c = s[i];
        match mode {
            QuoteMode::Single => if c == '\'' {
                spec_tokenize(s, i + 1, QuoteMode::Plain, cur, acc)
            } else {
                spec_tokenize(s, i + 1, QuoteMode::Single, cur.push(c), acc)
            },
            QuoteMode::Double => if c == '"' {
                spec_tokenize(s, i + 1, QuoteMode::Plain, cur, acc)
            } else if c == '\\' {
                if i + 1 >= s.len() {
                    Err("custom command has trailing escape"@)
                } else {
                    spec_tokenize(s, i + 2, QuoteMode::Double, cur.push(s[i + 1]), acc)
                }
            } else {
                spec_tokenize(s, i + 1, QuoteMode::Double, cur.push(c), acc)
            },
            QuoteMode::Plain => if c == '\'' {
                spec_tokenize(s, i + 1, QuoteMode::Single, cur, acc)
            } else if c == '"' {
                spec_tokenize(s, i + 1, QuoteMode::Double, cur, acc)
            } else if c == '\\' {
                if i + 1 >= s.len() {
                    Err("custom command has trailing escape"@)
                } else {
                    spec_tokenize(s, i + 2, QuoteMode::Plain, cur.push(s[i + 1]), acc)
                }
            } else if spec_is_space(c) {
                spec_tokenize(
                    s,
                    i + 1,
                    QuoteMode::Plain,
                    Seq::empty(),
                    if cur.len() > 0 {
                        acc.push(cur)
                    } else {
                        acc
                    },
                )
            } else {
                spec_tokenize(s, i + 1, QuoteMode::Plain, cur.push(c), acc)
            },
        }
    }
}

/// What parsing a command line yields: the program and its arguments, or the
/// error text — an unmatched quote, a trailing escape, or nothing left after
/// tokenizing.
pub open spec fn spec_parse_parts(s: Seq<char>) -> Result<(Seq<char>, Seq<Seq<char>>), Seq<char>> {
    match spec_tokenize(s, 0, QuoteMode::Plain, Seq::empty(), Seq::empty()) {
        Err(m) => Err(m),
        Ok(parts) => if parts.len() == 0 {
            Err("custom command has empty executable"@)
        } else {
            Ok((parts[0], parts.drop_first()))
        },
    }
}

/// Tokenizes a command line into a program and arguments, honoring single
/// quotes (verbatim), double quotes (with backslash escapes) and backslash
/// escapes outside quotes.
pub fn parse_command_parts(raw: &str) -> (r: Result<(String, Vec<String>), String>)
    ensures
        match r {
            Ok(pa) => spec_parse_parts(raw@) == Ok::<_, Seq<char>>(
                (pa.0@, pa.1@.map_values(|a: String| a@)),
            ),
            Err(e) => spec_parse_parts(raw@) == Err::<(Seq<char>, Seq<Seq<char>>), _>(e@),
        },
{
    let s = str_chars(raw);
    let n = s.len();
    let mut i: usize = 0;
    let mut mode = QuoteMode::Plain;
    let mut cur: Vec<char> = Vec::new();
    let mut acc: Vec<Vec<char>> = Vec::new();
    proof {
        assert(cur@ =~= Seq::<char>::empty());
        assert(acc@.map_values(|t: Vec<char>| t@) =~= Seq::<Seq<char>>::empty());
    }
    while i < n
        invariant
            0 <= i <= n,
            n == s@.len(),
            s@ == raw@,
            spec_tokenize(raw@, 0, QuoteMode::Plain, Seq::empty(), Seq::empty()) == spec_tokenize(
                raw@,
                i as int,
                mode,
                cur@,
                acc@.map_values(|t: Vec<char>| t@),
            ),
        decreases n - i,
    {
        let c = s[i];
        let ghost accv = acc@.map_values(|t: Vec<char>| t@);
        match mode {
            QuoteMode::Single => {
                if c == '\'' {
                    mode = QuoteMode::Plain;
                } else {
                    cur.push(c);
                }
                i = i + 1;
            },
            QuoteMode::Double => {
                if c == '"' {
                    mode = QuoteMode::Plain;
                    i = i + 1;
                } else if c == '\\' {
                    if i + 1 >= n {
                        return Err("custom command has trailing escape".to_owned());
                    }
                    cur.push(s[i + 1]);
                    i = i + 2;
                } else {
                    cur.push(c);
                    i = i + 1;
                }
            },
            QuoteMode::Plain => {
                if c == '\'' {
                    mode = QuoteMode::Single;
                    i = i + 1;
                } else if c == '"' {
                    mode = QuoteMode::Double;
                    i = i + 1;
                } else if c == '\\' {
                    if i + 1 >= n {
                        return Err("custom command has trailing escape".to_owned());
                    }
                    cur.push(s[i + 1]);
                    i = i + 2;
                } else if crate::text::is_space(c) {
                    if cur.len() > 0 {
                        proof {
                            assert(acc@.push(cur).map_values(|t: Vec<char>| t@) =~= accv.push(
                                cur@,
                            ));
                        }
                        acc.push(cur);
                        cur = Vec::new();
                    }
                    proof {
                        assert(cur@ =~= Seq::<char>::empty());
                    }
                    i = i + 1;
                } else {
                    cur.push(c);
                    i = i + 1;
                }
            },
        }
    }
    match mode {
        QuoteMode::Plain => {},
        _ => {
            return Err("custom command has unmatched quote".to_owned());
        },
    }
    let ghost accv = acc@.map_values(|t: Vec<char>| t@);
    if cur.len() > 0 {
        proof {
            assert(acc@.push(cur).map_values(|t: Vec<char>| t@) =~= accv.push(cur@));
        }
        acc.push(cur);
    }
    if acc.len() == 0 {
        return Err("custom command has empty executable".to_owned());
    }
    let program = chars_string(&acc[0]);
    let mut args: Vec<String> = Vec::new();
    let m = acc.len();
    let mut k: usize = 1;
    let ghost final_accv = acc@.map_values(|t: Vec<char>| t@);
    proof {
        assert(args@.map_values(|a: String| a@) =~= final_accv.subrange(1, 1));
    }
    while k < m
        invariant
            1 <= k <= m,
            m == acc@.len(),
            final_accv == acc@.map_values(|t: Vec<char>| t@),
            args@.map_values(|a: String| a@) == final_accv.subrange(1, k as int),
        decreases m - k,
    {
        let a = chars_string(&acc[k]);
        proof {
            assert(args@.push(a).map_values(|x: String| x@) =~= args@.map_values(
                |x: String| x@,
            ).push(a@));
            assert(final_accv.subrange(1, k + 1) =~= final_accv.subrange(1, k as int).push(
                final_accv[k as int],
            ));
        }
        args.push(a);
        k = k + 1;
    }
    proof {
        assert(final_accv.subrange(1, m as int) =~= final_accv.drop_first());
    }
    Ok((program, args))
}

/// The fixed vocabulary of template variables.
pub fn supported_template_vars() -> (r: Vec<&'static str>)
    ensures
        r@.map_values(|s: &str| s@) == spec_supported_vars(),
{
    let mut v: Vec<&'static str> = Vec::new();
    v.push("repo_root");
    v.push("branch");
    v.push("file");
    v.push("rev");
    v.push("node");
    proof {
        assert(v@.map_values(|s: &str| s@) =~= spec_supported_vars());
    }
    v
}

/// The supported template variable names.
pub open spec fn spec_supported_vars() -> Seq<Seq<char>> {
    seq!["repo_root"@, "branch"@, "file"@, "rev"@, "node"@]
}

/// A valid template variable name: a letter or underscore, then letters,
/// digits and underscores.
pub open spec fn spec_is_var_name(s: Seq<char>) -> bool {
    &&& s.len() > 0
    &&& (('a' <= s[0] <= 'z') || ('A' <= s[0] <= 'Z') || s[0] == '_')
    &&& (forall|i: int|
        1 <= i < s.len() ==> (('a' <= #[trigger] s[i] <= 'z') || ('A' <= s[i] <= 'Z')
            || ('0' <= s[i] <= '9') || s[i] == '_'))
}

/// Checks a candidate template variable name.
pub fn is_template_var_name(v: &Vec<char>) -> (r: bool)
    ensures
        r == spec_is_var_name(v@),
{
    let n = v.len();
    if n == 0 {
        return false;
    }
    let c0 = v[0];
    if !(('a' <= c0 && c0 <= 'z') || ('A' <= c0 && c0 <= 'Z') || c0 == '_') {
        return false;
    }
    let mut i: usize = 1;
    while i < n
        invariant
            1 <= i <= n,
            n == v@.len(),
            forall|j: int|
                1 <= j < i ==> (('a' <= #[trigger] v@[j] <= 'z') || ('A' <= v@[j] <= 'Z') || ('0'
                    <= v@[j] <= '9') || v@[j] == '_'),
        decreases n - i,
    {
        let c = v[i];
        if !(('a' <= c && c <= 'z') || ('A' <= c && c <= 'Z') || ('0' <= c && c <= '9') || c
            == '_') {
            return false;
        }
        i = i + 1;
    }
    true
}

/// Whether a list of names contains the given one.
pub open spec fn spec_contains_name(names: Seq<Seq<char>>, name: Seq<char>) -> bool {
    exists|i: int| 0 <= i < names.len() && names[i] == name
}

/// The `{name}` placeholders of a text, in order of first appearance: for
/// each `{`, the text up to the next `}` is a candidate; valid unseen names
/// are collected and the scan resumes after the `}`.
pub open spec fn spec_template_vars(s: Seq<char>, i: int, found: Seq<Seq<char>>) -> Seq<Seq<char>>
    decreases s.len() - i,
{
    if i < 0 || i >= s.len() {
        Seq::empty()
    } else {
        let open_rel = spec_find(s.skip(i), '{');
        if !(0 <= open_rel < s.skip(i).len()) {
            Seq::empty()
        } else {
            let a = i + open_rel;
            if a + 1 >= s.len() {
                Seq::empty()
            } else {
                let close_rel = spec_find(s.skip(a + 1), '}');
                if !(0 <= close_rel < s.skip(a + 1).len()) {
                    Seq::empty()
                } else {
                    let b = a + 1 + close_rel;
                    let cand = s.subrange(a + 1, b);
                    if spec_is_var_name(cand) && !spec_contains_name(found, cand) {
                        seq![cand] + spec_template_vars(s, b + 1, found.push(cand))
                    } else {
                        spec_template_vars(s, b + 1, found)
                    }
                }
            }
        }
    }
}

/// Collects the `{name}` placeholders of a text, de-duplicated, in order.
pub fn template_vars(raw: &str) -> (r: Vec<String>)
    ensures
        r@.map_values(|x: String| x@) == spec_template_vars(raw@, 0, Seq::empty()),
{
    let s = str_chars(raw);
    let n = s.len();
    let mut out: Vec<String> = Vec::new();
    let mut found: Vec<Vec<char>> = Vec::new();
    let mut i: usize = 0;
    proof {
        assert(found@.map_values(|t: Vec<char>| t@) =~= Seq::<Seq<char>>::empty());
        assert(out@.map_values(|x: String| x@) =~= Seq::<Seq<char>>::empty());
        assert(Seq::<Seq<char>>::empty() + spec_template_vars(raw@, 0, Seq::empty())
            =~= spec_template_vars(raw@, 0, Seq::empty()));
    }
    while i < n
        invariant
            0 <= i <= n,
            n == s@.len(),
            s@ == raw@,
            spec_template_vars(raw@, 0, Seq::empty()) == out@.map_values(|x: String| x@)
                + spec_template_vars(raw@, i as int, found@.map_values(|t: Vec<char>| t@)),
        decreases n - i,
    {
        let ghost foundv = found@.map_values(|t: Vec<char>| t@);
        let rest = subrange_chars(&s, i, n);
        proof {
            assert(rest@ =~= s@.skip(i as int));
        }
        let open_rel = match find_char(&rest, '{') {
            None => {
                proof {
                    assert(spec_template_vars(raw@, i as int, foundv) =~= Seq::<Seq<char>>::empty());
                    assert(out@.map_values(|x: String| x@) + Seq::<Seq<char>>::empty()
                        =~= out@.map_values(|x: String| x@));
                }
                return out;
            },
            Some(p) => p,
        };
        let a = i + open_rel;
        if a + 1 >= n {
            proof {
                assert(spec_template_vars(raw@, i as int, foundv) =~= Seq::<Seq<char>>::empty());
                assert(out@.map_values(|x: String| x@) + Seq::<Seq<char>>::empty()
                    =~= out@.map_values(|x: String| x@));
            }
            return out;
        }
        let after = subrange_chars(&s, a + 1, n);
        proof {
            assert(after@ =~= s@.skip(a + 1));
        }
        let close_rel = match find_char(&after, '}') {
            None => {
                proof {
                    assert(spec_template_vars(raw@, i as int, foundv) =~= Seq::<Seq<char>>::empty());
                    assert(out@.map_values(|x: String| x@) + Seq::<Seq<char>>::empty()
                        =~= out@.map_values(|x: String| x@));
                }
                return out;
            },
            Some(p) => p,
        };
        let b = a + 1 + close_rel;
        let cand = subrange_chars(&s, a + 1, b);
        proof {
            assert(cand@ =~= s@.subrange(a + 1, b as int));
        }
        let valid = is_template_var_name(&cand);
        let mut seen = false;
        let fl = found.len();
        let mut fi: usize = 0;
        while fi < fl
            invariant
                0 <= fi <= fl,
                fl == found@.len(),
                foundv == found@.map_values(|t: Vec<char>| t@),
                seen == (exists|m: int| 0 <= m < fi && foundv[m] == cand@),
            decreases fl - fi,
        {
            proof {
                assert(foundv[fi as int] == found@[fi as int]@);
            }
            if crate::text::chars_eq(&found[fi], &cand) {
                seen = true;
            }
            fi = fi + 1;
        }
        if valid && !seen {
            let name = chars_string(&cand);
            proof {
                assert(!spec_contains_name(foundv, cand@));
                assert(out@.push(name).map_values(|x: String| x@) =~= out@.map_values(
                    |x: String| x@,
                ).push(name@));
                assert(found@.push(cand).map_values(|t: Vec<char>| t@) =~= foundv.push(cand@));
                assert(spec_template_vars(raw@, i as int, foundv) == seq![cand@]
                    + spec_template_vars(raw@, b + 1, foundv.push(cand@)));
                let ov = out@.map_values(|x: String| x@);
                assert(ov + (seq![cand@] + spec_template_vars(raw@, b + 1, foundv.push(cand@)))
                    =~= ov.push(cand@) + spec_template_vars(raw@, b + 1, foundv.push(cand@)));
            }
            out.push(name);
            found.push(cand);
        } else {
            proof {
                if !valid {
                    assert(spec_template_vars(raw@, i as int, foundv) == spec_template_vars(
                        raw@,
                        b + 1,
                        foundv,
                    ));
                } else {
                    assert(spec_contains_name(foundv, cand@));
                    assert(spec_template_vars(raw@, i as int, foundv) == spec_template_vars(
                        raw@,
                        b + 1,
                        foundv,
                    ));
                }
            }
        }
        i = b + 1;
    }
    proof {
        let foundv = found@.map_values(|t: Vec<char>| t@);
        assert(spec_template_vars(raw@, n as int, foundv) =~= Seq::<Seq<char>>::empty());
        assert(out@.map_values(|x: String| x@) + Seq::<Seq<char>>::empty() =~= out@.map_values(
            |x: String| x@,
        ));
    }
    out
}

/// The placeholders of a text that are not in the supported vocabulary.
pub open spec fn spec_unknown_vars(s: Seq<char>) -> Seq<Seq<char>> {
    spec_template_vars(s, 0, Seq::empty()).filter(
        |name: Seq<char>| !spec_contains_name(spec_supported_vars(), name),
    )
}

/// Lists the placeholders of a text outside the supported vocabulary.
pub fn unknown_template_vars(raw: &str) -> (r: Vec<String>)
    ensures
        r@.map_values(|x: String| x@) == spec_unknown_vars(raw@),
{
    let vars = template_vars(raw);
    let supported = supported_template_vars();
    let mut out: Vec<String> = Vec::new();
    let n = vars.len();
    let mut i: usize = 0;
    let ghost varsv = vars@.map_values(|x: String| x@);
    proof {
        crate::text::lemma_filter_empty::<Seq<char>>(
            |name: Seq<char>| !spec_contains_name(spec_supported_vars(), name),
        );
        assert(varsv.take(0int) =~= Seq::<Seq<char>>::empty());
        assert(out@.map_values(|x: String| x@) =~= Seq::<Seq<char>>::empty());
    }
    while i < n
        invariant
            0 <= i <= n,
            n == vars@.len(),
            varsv == vars@.map_values(|x: String| x@),
            supported@.map_values(|s: &str| s@) == spec_supported_vars(),
            out@.map_values(|x: String| x@) == varsv.take(i as int).filter(
                |name: Seq<char>| !spec_contains_name(spec_supported_vars(), name),
            ),
        decreases n - i,
    {
        let pred_holds = !name_in_list(&supported, &vars[i]);
        proof {
            let pred = |name: Seq<char>| !spec_contains_name(spec_supported_vars(), name);
            assert(varsv[i as int] == vars@[i as int]@);
            assert(varsv.take(i + 1) =~= varsv.take(i as int).push(varsv[i as int]));
            crate::text::lemma_filter_push(varsv.take(i as int), varsv[i as int], pred);
        }
        if pred_holds {
            let name = vars[i].clone();
            proof {
                assert(out@.push(name).map_values(|x: String| x@) =~= out@.map_values(
                    |x: String| x@,
                ).push(name@));
            }
            out.push(name);
        }
        i = i + 1;
    }
    proof {
        assert(varsv.take(n as int) =~= varsv);
    }
    out
}

/// Whether the name appears in the list.
fn name_in_list(names: &Vec<&'static str>, name: &String) -> (r: bool)
    ensures
        r == spec_contains_name(names@.map_values(|s: &str| s@), name@),
{
    let ghost namesv = names@.map_values(|s: &str| s@);
    let n = names.len();
    let mut i: usize = 0;
    while i < n
        invariant
            0 <= i <= n,
            n == names@.len(),
            namesv == names@.map_values(|s: &str| s@),
            forall|j: int| 0 <= j < i ==> namesv[j] != name@,
        decreases n - i,
    {
        proof {
            assert(namesv[i as int] == names@[i as int]@);
        }
        if crate::text::str_eq(names[i], name.as_str()) {
            return true;
        }
        i = i + 1;
    }
    false
}

/// The placeholders of a text with no binding among the given variables.
pub open spec fn spec_unresolved_vars(s: Seq<char>, vars: Seq<(Seq<char>, Seq<char>)>) -> Seq<
    Seq<char>,
> {
    spec_template_vars(s, 0, Seq::empty()).filter(
        |name: Seq<char>| !spec_binding_exists(vars, name),
    )
}

/// Whether a binding for the name exists.
pub open spec fn spec_binding_exists(vars: Seq<(Seq<char>, Seq<char>)>, name: Seq<char>) -> bool {
    exists|i: int| 0 <= i < vars.len() && (#[trigger] vars[i]).0 == name
}

/// Lists the placeholders of a text that the given variables do not bind.
pub fn unresolved_template_vars(raw: &str, vars: &Vec<(String, String)>) -> (r: Vec<String>)
    ensures
        r@.map_values(|x: String| x@) == spec_unresolved_vars(
            raw@,
            vars@.map_values(|p: (String, String)| (p.0@, p.1@)),
        ),
{
    let ghost varsv = vars@.map_values(|p: (String, String)| (p.0@, p.1@));
    let names = template_vars(raw);
    let mut out: Vec<String> = Vec::new();
    let n = names.len();
    let mut i: usize = 0;
    let ghost namesv = names@.map_values(|x: String| x@);
    proof {
        crate::text::lemma_filter_empty::<Seq<char>>(
            |name: Seq<char>| !spec_binding_exists(varsv, name),
        );
        assert(namesv.take(0int) =~= Seq::<Seq<char>>::empty());
        assert(out@.map_values(|x: String| x@) =~= Seq::<Seq<char>>::empty());
    }
    while i < n
        invariant
            0 <= i <= n,
            n == names@.len(),
            namesv == names@.map_values(|x: String| x@),
            varsv == vars@.map_values(|p: (String, String)| (p.0@, p.1@)),
            out@.map_values(|x: String| x@) == namesv.take(i as int).filter(
                |name: Seq<char>| !spec_binding_exists(varsv, name),
            ),
        decreases n - i,
    {
        let mut bound = false;
        let vn = vars.len();
        let mut vi: usize = 0;
        while vi < vn
            invariant
                0 <= vi <= vn,
                0 <= i < n,
                vn == vars@.len(),
                n == names@.len(),
                namesv == names@.map_values(|x: String| x@),
                varsv == vars@.map_values(|p: (String, String)| (p.0@, p.1@)),
                bound == (exists|m: int| 0 <= m < vi && (#[trigger] varsv[m]).0 == namesv[i as int]),
            decreases vn - vi,
        {
            proof {
                assert(varsv[vi as int].0 == vars@[vi as int].0@);
                assert(namesv[i as int] == names@[i as int]@);
            }
            if crate::text::str_eq(vars[vi].0.as_str(), names[i].as_str()) {
                bound = true;
            }
            vi = vi + 1;
        }
        proof {
            let pred = |name: Seq<char>| !spec_binding_exists(varsv, name);
            assert(namesv[i as int] == names@[i as int]@);
            assert(namesv.take(i + 1) =~= namesv.take(i as int).push(namesv[i as int]));
            crate::text::lemma_filter_push(namesv.take(i as int), namesv[i as int], pred);
            assert(bound == spec_binding_exists(varsv, namesv[i as int]));
        }
        if !bound {
            let name = names[i].clone();
            proof {
                assert(out@.push(name).map_values(|x: String| x@) =~= out@.map_values(
                    |x: String| x@,
                ).push(name@));
            }
            out.push(name);
        }
        i = i + 1;
    }
    proof {
        assert(namesv.take(n as int) =~= namesv);
    }
    out
}

/// The first variable whose `{name}` placeholder starts at position `i`, or
/// -1 when none matches there.
pub open spec fn spec_var_at(s: Seq<char>, i: int, vars: Seq<(Seq<char>, Seq<char>)>, k: int) -> int
    decreases vars.len() - k,
{
    if k < 0 || k >= vars.len() {
        -1
    } else {
        let name = vars[k].0;
        if i + name.len() + 2 <= s.len() && s.subrange(i, i + name.len() + 2) == "{"@ + name
            + "}"@ {
            k
        } else {
            spec_var_at(s, i, vars, k + 1)
        }
    }
}

/// The text with every `{name}` placeholder replaced by its value, scanning
/// left to right; substituted text is not scanned again.
pub open spec fn spec_render(s: Seq<char>, i: int, vars: Seq<(Seq<char>, Seq<char>)>) -> Seq<char>
    decreases s.len() - i,
{
    if i < 0 || i >= s.len() {
        Seq::empty()
    } else {
        let k = spec_var_at(s, i, vars, 0);
        if 0 <= k < vars.len() && i + vars[k].0.len() + 2 <= s.len() {
            vars[k].1 + spec_render(s, i + vars[k].0.len() + 2, vars)
        } else {
            seq![s[i]] + spec_render(s, i + 1, vars)
        }
    }
}

/// Whether the placeholder of the named variable starts at `i`.
fn var_matches_at(s: &Vec<char>, i: usize, name: &String) -> (r: bool)
    requires
        i <= s@.len(),
    ensures
        r == (i + name@.len() + 2 <= s@.len() && s@.subrange(i as int, i + name@.len() + 2) == "{"@
            + name@ + "}"@),
{
    let name_chars = str_chars(name.as_str());
    let name_len = name_chars.len();
    let s_len = s.len();
    if s_len < 2 || i > s_len - 2 || name_len > s_len - 2 - i {
        return false;
    }
    let ghost pattern = "{"@ + name@ + "}"@;
    proof {
        reveal_strlit("{");
        reveal_strlit("}");
        assert("{"@ =~= seq!['{']);
        assert("}"@ =~= seq!['}']);
    }
    if s[i] != '{' {
        proof {
            assert(pattern[0] == '{');
            assert(s@.subrange(i as int, i + name@.len() + 2)[0] == s@[i as int]);
        }
        return false;
    }
    if s[i + 1 + name_len] != '}' {
        proof {
            assert(pattern[name@.len() as int + 1] == '}');
            assert(s@.subrange(i as int, i + name@.len() + 2)[name@.len() as int + 1] == s@[i + 1
                + name@.len()]);
        }
        return false;
    }
    let mut j: usize = 0;
    while j < name_len
        invariant
            0 <= j <= name_len,
            name_len == name@.len(),
            name_chars@ == name@,
            s_len == s@.len(),
            i + name_len + 2 <= s_len,
            pattern == "{"@ + name@ + "}"@,
            forall|m: int| 0 <= m < j ==> s@[i + 1 + m] == name@[m],
        decreases name_len - j,
    {
        if s[i + 1 + j] != name_chars[j] {
            proof {
                reveal_strlit("{");
                reveal_strlit("}");
                assert("{"@ =~= seq!['{']);
                assert(pattern[j as int + 1] == name@[j as int]);
                assert(s@.subrange(i as int, i + name@.len() + 2)[j as int + 1] == s@[i + 1 + j]);
            }
            return false;
        }
        j = j + 1;
    }
    proof {
        reveal_strlit("{");
        reveal_strlit("}");
        assert("{"@ =~= seq!['{']);
        assert("}"@ =~= seq!['}']);
        assert(s@.subrange(i as int, i + name@.len() + 2) =~= pattern);
    }
    true
}

/// Replaces every `{name}` placeholder with its value, left to right, never
/// rescanning substituted text.
pub fn render_template(raw: &str, vars: &Vec<(String, String)>) -> (r: String)
    ensures
        r@ == spec_render(raw@, 0, vars@.map_values(|p: (String, String)| (p.0@, p.1@))),
{
    let ghost varsv = vars@.map_values(|p: (String, String)| (p.0@, p.1@));
    let s = str_chars(raw);
    let n = s.len();
    let mut out = String::new();
    let mut i: usize = 0;
    proof {
        assert(out@ + spec_render(raw@, 0, varsv) =~= spec_render(raw@, 0, varsv));
    }
    while i < n
        invariant
            0 <= i <= n,
            n == s@.len(),
            s@ == raw@,
            varsv == vars@.map_values(|p: (String, String)| (p.0@, p.1@)),
            spec_render(raw@, 0, varsv) == out@ + spec_render(raw@, i as int, varsv),
        decreases n - i,
    {
        // find the first variable whose placeholder starts here
        let vn = vars.len();
        let mut vk: usize = 0;
        let mut hit: Option<usize> = None;
        while vk < vn
            invariant
                0 <= vk <= vn,
                0 <= i < n,
                n == s@.len(),
                s@ == raw@,
                vn == vars@.len(),
                varsv == vars@.map_values(|p: (String, String)| (p.0@, p.1@)),
                hit is None ==> spec_var_at(raw@, i as int, varsv, 0) == spec_var_at(
                    raw@,
                    i as int,
                    varsv,
                    vk as int,
                ),
                match hit {
                    Some(k) => k < vn && spec_var_at(raw@, i as int, varsv, 0) == k && i
                        + varsv[k as int].0.len() + 2 <= n,
                    None => true,
                },
            decreases vn - vk,
        {
            if hit.is_none() {
                proof {
                    assert(varsv[vk as int].0 == vars@[vk as int].0@);
                    assert(varsv[vk as int].1 == vars@[vk as int].1@);
                }
                if var_matches_at(&s, i, &vars[vk].0) {
                    hit = Some(vk);
                    proof {
                        assert(spec_var_at(raw@, i as int, varsv, vk as int) == vk);
                    }
                }
            }
            vk = vk + 1;
        }
        match hit {
            Some(k) => {
                let ghost out_old = out@;
                let name_len = vars[k].0.as_str().unicode_len();
                out.append(vars[k].1.as_str());
                proof {
                    assert(varsv[k as int].0 == vars@[k as int].0@);
                    assert(varsv[k as int].1 == vars@[k as int].1@);
                    assert(spec_render(raw@, i as int, varsv) == varsv[k as int].1 + spec_render(
                        raw@,
                        i + varsv[k as int].0.len() + 2,
                        varsv,
                    ));
                    assert(out_old + (varsv[k as int].1 + spec_render(
                        raw@,
                        i + varsv[k as int].0.len() + 2,
                        varsv,
                    )) =~= (out_old + varsv[k as int].1) + spec_render(
                        raw@,
                        i + varsv[k as int].0.len() + 2,
                        varsv,
                    ));
                }
                i = i + name_len + 2;
            },
            None => {
                let ghost out_old = out@;
                let mut one: Vec<char> = Vec::new();
                one.push(s[i]);
                let one_s = chars_string(&one);
                out.append(one_s.as_str());
                proof {
                    assert(one@ =~= seq![s@[i as int]]);
                    assert(spec_render(raw@, i as int, varsv) == seq![raw@[i as int]]
                        + spec_render(raw@, i + 1, varsv));
                    assert(out_old + (seq![raw@[i as int]] + spec_render(raw@, i + 1, varsv))
                        =~= (out_old + seq![raw@[i as int]]) + spec_render(raw@, i + 1, varsv));
                }
                i = i + 1;
            },
        }
    }
    proof {
        assert(spec_render(raw@, n as int, varsv) =~= Seq::<char>::empty());
        assert(out@ + Seq::<char>::empty() =~= out@);
    }
    out
}

} // verus!
