//! Text codec for the configuration document.
//!
//! The document's persisted form is a small TOML-style text: a `[main]`
//! section whose only key is the optional `log_directory` string, then a
//! `[render]` section whose only key is the optional `preferred_gpu` name.
//! Serialization and parsing are defined here from first principles, and the
//! parser is proved to invert the serializer on every document.

use vstd::prelude::*;

use crate::config::{Main, PowerPreference, Render, Root, RootView};

verus! {

// ---------------------------------------------------------------------------
// The grammar's fixed pieces
// ---------------------------------------------------------------------------

pub open spec fn lit_main() -> Seq<char> {
    "[main]\n"@
}

pub open spec fn lit_logdir() -> Seq<char> {
    "log_directory = \""@
}

/// Closing quote of a value, then the end of its line.
pub open spec fn lit_qnl() -> Seq<char> {
    "\"\n"@
}

/// Blank separator line, then the `[render]` section header.
pub open spec fn lit_render() -> Seq<char> {
    "\n[render]\n"@
}

pub open spec fn lit_pref() -> Seq<char> {
    "preferred_gpu = \""@
}

/// The persisted name of each power mode.
pub open spec fn name_of_pref(pp: PowerPreference) -> Seq<char> {
    match pp {
        PowerPreference::NoPreference => "NoPreference"@,
        PowerPreference::LowPower => "LowPower"@,
        PowerPreference::HighPerformance => "HighPerformance"@,
    }
}

/// The power mode a quoted name denotes, if any.
pub open spec fn pref_of_name(nm: Seq<char>) -> Option<PowerPreference> {
    if nm == "NoPreference"@ {
        Some(PowerPreference::NoPreference)
    } else if nm == "LowPower"@ {
        Some(PowerPreference::LowPower)
    } else if nm == "HighPerformance"@ {
        Some(PowerPreference::HighPerformance)
    } else {
        None
    }
}

// ---------------------------------------------------------------------------
// Escaping of quoted string values
// ---------------------------------------------------------------------------

/// How one character appears inside a quoted value: `"` and `\` take a
/// leading backslash, everything else stands as itself.
pub open spec fn esc_char(c: char) -> Seq<char> {
    if c == '"' || c == '\\' {
        seq!['\\', c]
    } else {
        seq![c]
    }
}

/// The escaped form of a whole string value.
pub open spec fn spec_escape(s: Seq<char>) -> Seq<char>
    decreases s.len(),
{
    if s.len() == 0 {
        Seq::<char>::empty()
    } else {
        esc_char(s[0]) + spec_escape(s.skip(1))
    }
}

// ---------------------------------------------------------------------------
// Serialization
// ---------------------------------------------------------------------------

/// The persisted text of a document.
pub open spec fn spec_serialize(v: RootView) -> Seq<char> {
    lit_main() + (match v.log_directory {
        Some(p) => lit_logdir() + spec_escape(p) + lit_qnl(),
        None => Seq::<char>::empty(),
    }) + lit_render() + lit_pref() + name_of_pref(v.preferred_gpu) + lit_qnl()
}

// ---------------------------------------------------------------------------
// Parsing
// ---------------------------------------------------------------------------

/// The characters of `t` stand in `s` starting at position `i`.
pub open spec fn prefix_at(s: Seq<char>, i: int, t: Seq<char>) -> bool {
    0 <= i && i + t.len() <= s.len() && (forall|k: int|
        0 <= k < t.len() ==> s[i + k] == t[k])
}

/// Reads a quoted value in `s` from position `i` (the opening quote already
/// consumed): the unescaped content, and the position after the closing
/// quote. `None` on a lone backslash, an unknown escape, or a missing close.
pub open spec fn spec_quoted(s: Seq<char>, i: int) -> Option<(Seq<char>, int)>
    decreases s.len() - i,
        when 0 <= i <= s.len()
{
    if i == s.len() {
        None
    } else if s[i] == '"' {
        Some((Seq::<char>::empty(), i + 1))
    } else if s[i] == '\\' {
        if i + 1 < s.len() && (s[i + 1] == '"' || s[i + 1] == '\\') {
            match spec_quoted(s, i + 2) {
                Some(r) => Some((seq![s[i + 1]] + r.0, r.1)),
                None => None,
            }
        } else {
            None
        }
    } else {
        match spec_quoted(s, i + 1) {
            Some(r) => Some((seq![s[i]] + r.0, r.1)),
            None => None,
        }
    }
}

/// Parses the `[render]` section at position `i` and finishes the document;
/// `dir` is the already-parsed `main` section content. A missing
/// `preferred_gpu` key means the default power mode.
pub open spec fn spec_tail(s: Seq<char>, i: int, dir: Option<Seq<char>>) -> Option<RootView> {
    if !prefix_at(s, i, lit_render()) {
        None
    } else {
        let k = i + lit_render().len();
        if k == s.len() {
            Some(RootView { log_directory: dir, preferred_gpu: PowerPreference::NoPreference })
        } else if prefix_at(s, k, lit_pref()) {
            match spec_quoted(s, k + lit_pref().len()) {
                Some(r) => {
                    if r.1 < s.len() && s[r.1] == '\n' && r.1 + 1 == s.len() {
                        match pref_of_name(r.0) {
                            Some(pp) => Some(
                                RootView { log_directory: dir, preferred_gpu: pp },
                            ),
                            None => None,
                        }
                    } else {
                        None
                    }
                },
                None => None,
            }
        } else {
            None
        }
    }
}

/// The document a text denotes, if it is well formed. A missing
/// `log_directory` key means no log directory.
pub open spec fn spec_deserialize(s: Seq<char>) -> Option<RootView> {
    if !prefix_at(s, 0, lit_main()) {
        None
    } else {
        let i = lit_main().len() as int;
        if prefix_at(s, i, lit_logdir()) {
            match spec_quoted(s, i + lit_logdir().len()) {
                Some(r) => {
                    if r.1 < s.len() && s[r.1] == '\n' {
                        spec_tail(s, r.1 + 1, Some(r.0))
                    } else {
                        None
                    }
                },
                None => None,
            }
        } else {
            spec_tail(s, i, None)
        }
    }
}

// ---------------------------------------------------------------------------
// Executable code
// ---------------------------------------------------------------------------

/// Relies on `String::push`: appends the given character to the end of the
/// string.
#[verifier::external_body]
fn push_char(s: &mut String, c: char)
    ensures
        final(s)@ == old(s)@.push(c),
{
    s.push(c)
}

/// The characters of a string slice, as an indexable vector.
fn to_chars(s: &str) -> (r: Vec<char>)
    ensures
        r@ == s@,
{
    let n = s.unicode_len();
    let mut v: Vec<char> = Vec::new();
    let mut i: usize = 0;
    while i < n
        invariant
            i <= n,
            n == s@.len(),
            v@ == s@.subrange(0, i as int),
        decreases n - i,
    {
        v.push(s.get_char(i));
        proof {
            assert(s@.subrange(0, (i + 1) as int) =~= s@.subrange(0, i as int).push(
                s@[i as int],
            ));
        }
        i += 1;
    }
    proof {
        assert(s@.subrange(0, n as int) =~= s@);
    }
    v
}

/// Whether the literal `lit` stands at position `i`; on success, the position
/// just past it.
fn lit_at(cs: &Vec<char>, i: usize, lit: &str) -> (r: Option<usize>)
    requires
        i <= cs@.len(),
    ensures
        match r {
            Some(j) => prefix_at(cs@, i as int, lit@) && j as int == i + lit@.len() && j
                <= cs@.len(),
            None => !prefix_at(cs@, i as int, lit@),
        },
{
    let n = lit.unicode_len();
    if n > cs.len() - i {
        return None;
    }
    let mut j: usize = 0;
    while j < n
        invariant
            j <= n,
            i + n <= cs@.len(),
            i + n <= usize::MAX,
            n == lit@.len(),
            forall|k: int| 0 <= k < j ==> cs@[i + k] == lit@[k],
        decreases n - j,
    {
        if cs[i + j] != lit.get_char(j) {
            proof {
                assert(!prefix_at(cs@, i as int, lit@));
            }
            return None;
        }
        j += 1;
    }
    Some(i + n)
}

/// Reads a quoted value (opening quote already consumed), unescaping it.
fn parse_quoted(cs: &Vec<char>, i: usize) -> (r: Option<(String, usize)>)
    requires
        i <= cs@.len(),
    ensures
        match r {
            Some(p) => spec_quoted(cs@, i as int) == Some((p.0@, p.1 as int)) && i < p.1 && p.1
                <= cs@.len(),
            None => spec_quoted(cs@, i as int) is None,
        },
    decreases cs@.len() - i,
{
    if i == cs.len() {
        return None;
    }
    let ch = cs[i];
    if ch == '"' {
        Some((String::new(), i + 1))
    } else if ch == '\\' {
        if i + 1 < cs.len() {
            let ch2 = cs[i + 1];
            if ch2 == '"' || ch2 == '\\' {
                match parse_quoted(cs, i + 2) {
                    Some(p) => {
                        let (t, j) = p;
                        let mut s = String::new();
                        push_char(&mut s, ch2);
                        s.append(t.as_str());
                        proof {
                            assert(s@ =~= seq![cs@[i + 1]] + t@);
                        }
                        Some((s, j))
                    },
                    None => None,
                }
            } else {
                None
            }
        } else {
            None
        }
    } else {
        match parse_quoted(cs, i + 1) {
            Some(p) => {
                let (t, j) = p;
                let mut s = String::new();
                push_char(&mut s, ch);
                s.append(t.as_str());
                proof {
                    assert(s@ =~= seq![cs@[i as int]] + t@);
                }
                Some((s, j))
            },
            None => None,
        }
    }
}

/// The power mode a parsed name denotes, if any.
fn pref_from_name(nm: &String) -> (r: Option<PowerPreference>)
    ensures
        r == pref_of_name(nm@),
{
    let a = String::from_str("NoPreference");
    if *nm == a {
        return Some(PowerPreference::NoPreference);
    }
    let b = String::from_str("LowPower");
    if *nm == b {
        return Some(PowerPreference::LowPower);
    }
    let c = String::from_str("HighPerformance");
    if *nm == c {
        return Some(PowerPreference::HighPerformance);
    }
    None
}

/// The persisted name of a power mode.
fn pref_name_str(pp: PowerPreference) -> (r: &'static str)
    ensures
        r@ == name_of_pref(pp),
{
    match pp {
        PowerPreference::NoPreference => "NoPreference",
        PowerPreference::LowPower => "LowPower",
        PowerPreference::HighPerformance => "HighPerformance",
    }
}

/// Appends the escaped form of `p` to `out`.
fn append_escaped(out: &mut String, p: &String)
    ensures
        final(out)@ == old(out)@ + spec_escape(p@),
{
    let ghost base: Seq<char> = out@;
    let n = p.as_str().unicode_len();
    let mut i: usize = 0;
    while i < n
        invariant
            i <= n,
            n == p@.len(),
            out@ == base + spec_escape(p@.subrange(0, i as int)),
        decreases n - i,
    {
        let ch = p.as_str().get_char(i);
        if ch == '"' || ch == '\\' {
            push_char(out, '\\');
            push_char(out, ch);
        } else {
            push_char(out, ch);
        }
        proof {
            assert(p@.subrange(0, (i + 1) as int) =~= p@.subrange(0, i as int).push(
                p@[i as int],
            ));
            lemma_escape_snoc(p@.subrange(0, i as int), p@[i as int]);
            assert(out@ =~= base + spec_escape(p@.subrange(0, (i + 1) as int)));
        }
        i += 1;
    }
    proof {
        assert(p@.subrange(0, n as int) =~= p@);
    }
}

/// The persisted text of a document.
pub fn serialize(c: &Root) -> (r: String)
    ensures
        r@ == spec_serialize(c@),
{
    let mut out = String::new();
    out.append("[main]\n");
    match &c.main.log_directory {
        Some(p) => {
            out.append("log_directory = \"");
            append_escaped(&mut out, p);
            out.append("\"\n");
        },
        None => {},
    }
    out.append("\n[render]\n");
    out.append("preferred_gpu = \"");
    out.append(pref_name_str(c.render.preferred_gpu));
    out.append("\"\n");
    proof {
        assert(out@ =~= spec_serialize(c@));
    }
    out
}

/// The document a text denotes, or `None` if the text is not well formed.
pub fn deserialize(s: &str) -> (r: Option<Root>)
    ensures
        match r {
            Some(c) => spec_deserialize(s@) == Some(c@),
            None => spec_deserialize(s@) is None,
        },
{
    let cs = to_chars(s);
    let i0 = match lit_at(&cs, 0, "[main]\n") {
        Some(j) => j,
        None => {
            return None;
        },
    };
    let (dir, i1): (Option<String>, usize) = match lit_at(&cs, i0, "log_directory = \"") {
        Some(j0) => {
            match parse_quoted(&cs, j0) {
                Some(p) => {
                    let (path, j) = p;
                    if j < cs.len() && cs[j] == '\n' {
                        (Some(path), j + 1)
                    } else {
                        return None;
                    }
                },
                None => {
                    return None;
                },
            }
        },
        None => (None, i0),
    };
    let i2 = match lit_at(&cs, i1, "\n[render]\n") {
        Some(j) => j,
        None => {
            return None;
        },
    };
    if i2 == cs.len() {
        return Some(
            Root {
                main: Main { log_directory: dir },
                render: Render { preferred_gpu: PowerPreference::NoPreference },
            },
        );
    }
    let m = match lit_at(&cs, i2, "preferred_gpu = \"") {
        Some(j) => j,
        None => {
            return None;
        },
    };
    match parse_quoted(&cs, m) {
        Some(p) => {
            let (nm, j2) = p;
            if j2 < cs.len() && cs[j2] == '\n' && j2 + 1 == cs.len() {
                match pref_from_name(&nm) {
                    Some(pp) => Some(
                        Root {
                            main: Main { log_directory: dir },
                            render: Render { preferred_gpu: pp },
                        },
                    ),
                    None => None,
                }
            } else {
                None
            }
        },
        None => None,
    }
}

// ---------------------------------------------------------------------------
// The round-trip law
// ---------------------------------------------------------------------------

proof fn lemma_escape_snoc(s: Seq<char>, c: char)
    ensures
        spec_escape(s.push(c)) == spec_escape(s) + esc_char(c),
    decreases s.len(),
{
    if s.len() == 0 {
        assert(s.push(c).skip(1) =~= s);
        assert(s.push(c)[0] == c);
        assert(spec_escape(s.push(c)) == esc_char(c) + spec_escape(s));
        assert(spec_escape(s) =~= Seq::<char>::empty());
        assert(esc_char(c) + spec_escape(s) =~= spec_escape(s) + esc_char(c));
    } else {
        assert(s.push(c).skip(1) =~= s.skip(1).push(c));
        lemma_escape_snoc(s.skip(1), c);
        assert(s.push(c)[0] == s[0]);
        assert(spec_escape(s.push(c)) == esc_char(s[0]) + (spec_escape(s.skip(1)) + esc_char(
            c,
        )));
        assert(spec_escape(s) == esc_char(s[0]) + spec_escape(s.skip(1)));
        assert(esc_char(s[0]) + (spec_escape(s.skip(1)) + esc_char(c)) =~= (esc_char(s[0])
            + spec_escape(s.skip(1))) + esc_char(c));
    }
}

proof fn lemma_escape_id(s: Seq<char>)
    requires
        forall|k: int| 0 <= k < s.len() ==> s[k] != '"' && s[k] != '\\',
    ensures
        spec_escape(s) == s,
    decreases s.len(),
{
    if s.len() == 0 {
        assert(spec_escape(s) =~= s);
    } else {
        assert(forall|k: int|
            0 <= k < s.skip(1).len() ==> s.skip(1)[k] == s[k + 1] && s.skip(1)[k] != '"'
                && s.skip(1)[k] != '\\');
        lemma_escape_id(s.skip(1));
        assert(spec_escape(s) =~= s);
    }
}

/// A text that carries the escaped form of `p` and then a closing quote
/// parses back to exactly `p`.
proof fn lemma_quoted_inverts_escape(s: Seq<char>, i: int, p: Seq<char>)
    requires
        prefix_at(s, i, spec_escape(p)),
        i + spec_escape(p).len() < s.len(),
        s[i + spec_escape(p).len()] == '"',
    ensures
        spec_quoted(s, i) == Some((p, i + spec_escape(p).len() + 1)),
    decreases p.len(),
{
    let e = spec_escape(p);
    if p.len() == 0 {
        assert(e =~= Seq::<char>::empty());
        assert(p =~= Seq::<char>::empty());
        assert(spec_quoted(s, i) == Some((p, i + e.len() + 1)));
    } else {
        let c = p[0];
        let q = p.skip(1);
        let eq = spec_escape(q);
        assert(e == esc_char(c) + eq);
        if c == '"' || c == '\\' {
            assert(s[i] == e[0] && e[0] == '\\');
            assert(s[i + 1] == e[1] && e[1] == c);
            assert forall|k: int| 0 <= k < eq.len() implies s[i + 2 + k] == eq[k] by {
                assert(s[i + (2 + k)] == e[2 + k]);
                assert(e[2 + k] == eq[k]);
            }
            assert(prefix_at(s, i + 2, eq));
            lemma_quoted_inverts_escape(s, i + 2, q);
            assert(seq![s[i + 1]] + q =~= p);
            assert(spec_quoted(s, i) == Some((p, i + e.len() + 1)));
        } else {
            assert(s[i] == e[0] && e[0] == c);
            assert forall|k: int| 0 <= k < eq.len() implies s[i + 1 + k] == eq[k] by {
                assert(s[i + (1 + k)] == e[1 + k]);
                assert(e[1 + k] == eq[k]);
            }
            assert(prefix_at(s, i + 1, eq));
            lemma_quoted_inverts_escape(s, i + 1, q);
            assert(seq![s[i]] + q =~= p);
            assert(spec_quoted(s, i) == Some((p, i + e.len() + 1)));
        }
    }
}

/// A sequence stands at its own start.
proof fn lemma_prefix_self(t: Seq<char>)
    ensures
        prefix_at(t, 0, t),
{
    assert forall|k: int| #![trigger t[k]] 0 <= k < t.len() implies t[0 + k] == t[k] by {}
}

/// A prefix of `b` is a prefix of `a + b`, shifted by the length of `a`.
proof fn lemma_prefix_left(a: Seq<char>, b: Seq<char>, i: int, t: Seq<char>)
    requires
        prefix_at(b, i, t),
    ensures
        prefix_at(a + b, a.len() + i, t),
{
    assert forall|k: int| #![trigger t[k]] 0 <= k < t.len() implies (a + b)[a.len() + i + k] == t[k] by {
        assert(b[i + k] == t[k]);
        assert((a + b)[a.len() + i + k] == b[i + k]);
    }
}

/// A prefix wholly inside `a` is a prefix of `a + b` at the same place.
proof fn lemma_prefix_right(a: Seq<char>, b: Seq<char>, i: int, t: Seq<char>)
    requires
        prefix_at(a, i, t),
    ensures
        prefix_at(a + b, i, t),
{
    assert forall|k: int| #![trigger t[k]] 0 <= k < t.len() implies (a + b)[i + k] == t[k] by {
        assert(a[i + k] == t[k]);
        assert((a + b)[i + k] == a[i + k]);
    }
}

/// One character of a prefix, read back out of the larger sequence.
proof fn lemma_prefix_char(s: Seq<char>, i: int, t: Seq<char>, k: int)
    requires
        prefix_at(s, i, t),
        0 <= k < t.len(),
    ensures
        s[i + k] == t[k],
{
    assert(s[i + k] == t[k]);
}

/// No power-mode name holds a character that escaping would change.
proof fn lemma_name_escape(pp: PowerPreference)
    ensures
        spec_escape(name_of_pref(pp)) == name_of_pref(pp),
{
    reveal_strlit("NoPreference");
    reveal_strlit("LowPower");
    reveal_strlit("HighPerformance");
    let nm = name_of_pref(pp);
    assert(forall|k: int| 0 <= k < nm.len() ==> nm[k] != '"' && nm[k] != '\\');
    lemma_escape_id(nm);
}

/// Round-trip for a document without a log directory.
proof fn lemma_round_trip_none(v: RootView)
    requires
        v.log_directory is None,
    ensures
        spec_deserialize(spec_serialize(v)) == Some(v),
{
    reveal_strlit("[main]\n");
    reveal_strlit("log_directory = \"");
    reveal_strlit("\"\n");
    reveal_strlit("\n[render]\n");
    reveal_strlit("preferred_gpu = \"");
    let lm = lit_main();
    let ld = lit_logdir();
    let ql = lit_qnl();
    let lr = lit_render();
    let lp = lit_pref();
    let nm = name_of_pref(v.preferred_gpu);
    let opt = Seq::<char>::empty();
    let s = spec_serialize(v);
    assert(s == lm + opt + lr + lp + nm + ql);
    assert(lm + opt =~= lm);
    // where each piece of the text stands
    lemma_prefix_self(lm);
    lemma_prefix_right(lm, lr, 0, lm);
    lemma_prefix_right(lm + lr, lp, 0, lm);
    lemma_prefix_right(lm + lr + lp, nm, 0, lm);
    lemma_prefix_right(lm + lr + lp + nm, ql, 0, lm);
    assert(prefix_at(s, 0, lm));
    lemma_prefix_self(lr);
    lemma_prefix_left(lm, lr, 0, lr);
    lemma_prefix_right(lm + lr, lp, 7, lr);
    lemma_prefix_right(lm + lr + lp, nm, 7, lr);
    lemma_prefix_right(lm + lr + lp + nm, ql, 7, lr);
    assert(prefix_at(s, 7, lr));
    lemma_prefix_self(lp);
    lemma_prefix_left(lm + lr, lp, 0, lp);
    lemma_prefix_right(lm + lr + lp, nm, 17, lp);
    lemma_prefix_right(lm + lr + lp + nm, ql, 17, lp);
    assert(prefix_at(s, 17, lp));
    lemma_prefix_self(nm);
    lemma_prefix_left(lm + lr + lp, nm, 0, nm);
    lemma_prefix_right(lm + lr + lp + nm, ql, 34, nm);
    assert(prefix_at(s, 34, nm));
    lemma_prefix_self(ql);
    lemma_prefix_left(lm + lr + lp + nm, ql, 0, ql);
    assert(prefix_at(s, 34 + nm.len() as int, ql));
    // no `log_directory` key: the next character opens the `[render]` header
    lemma_prefix_char(s, 7, lr, 0);
    assert(s[7 + 0int] == lr[0int]);
    assert(lr[0int] == '\n');
    assert(ld[0int] == 'l');
    assert(!prefix_at(s, 7, ld)) by {
        if prefix_at(s, 7, ld) {
            lemma_prefix_char(s, 7, ld, 0);
        }
    }
    // the quoted power-mode name parses back to itself
    lemma_name_escape(v.preferred_gpu);
    lemma_prefix_char(s, 34 + nm.len() as int, ql, 0);
    lemma_prefix_char(s, 34 + nm.len() as int, ql, 1);
    assert(s.len() == 36 + nm.len());
    lemma_quoted_inverts_escape(s, 34, nm);
    lemma_pref_names(v.preferred_gpu);
    assert(spec_quoted(s, 17 + lp.len() as int) == Some((nm, 34 + nm.len() as int + 1)));
    assert(spec_tail(s, 7, None) == Some(v));
    assert(spec_deserialize(s) == Some(v));
}

/// Round-trip for a document with a log directory.
proof fn lemma_round_trip_some(v: RootView)
    requires
        v.log_directory is Some,
    ensures
        spec_deserialize(spec_serialize(v)) == Some(v),
{
    reveal_strlit("[main]\n");
    reveal_strlit("log_directory = \"");
    reveal_strlit("\"\n");
    reveal_strlit("\n[render]\n");
    reveal_strlit("preferred_gpu = \"");
    let lm = lit_main();
    let ld = lit_logdir();
    let ql = lit_qnl();
    let lr = lit_render();
    let lp = lit_pref();
    let nm = name_of_pref(v.preferred_gpu);
    let p = v.log_directory->0;
    let e = spec_escape(p);
    let en = e.len() as int;
    let opt = ld + e + ql;
    let s = spec_serialize(v);
    assert(s == lm + opt + lr + lp + nm + ql);
    // where each piece of the text stands
    lemma_prefix_self(lm);
    lemma_prefix_right(lm, opt, 0, lm);
    lemma_prefix_right(lm + opt, lr, 0, lm);
    lemma_prefix_right(lm + opt + lr, lp, 0, lm);
    lemma_prefix_right(lm + opt + lr + lp, nm, 0, lm);
    lemma_prefix_right(lm + opt + lr + lp + nm, ql, 0, lm);
    assert(prefix_at(s, 0, lm));
    lemma_prefix_self(ld);
    lemma_prefix_right(ld, e, 0, ld);
    lemma_prefix_right(ld + e, ql, 0, ld);
    lemma_prefix_left(lm, opt, 0, ld);
    lemma_prefix_right(lm + opt, lr, 7, ld);
    lemma_prefix_right(lm + opt + lr, lp, 7, ld);
    lemma_prefix_right(lm + opt + lr + lp, nm, 7, ld);
    lemma_prefix_right(lm + opt + lr + lp + nm, ql, 7, ld);
    assert(prefix_at(s, 7, ld));
    lemma_prefix_self(e);
    lemma_prefix_left(ld, e, 0, e);
    lemma_prefix_right(ld + e, ql, 17, e);
    lemma_prefix_left(lm, opt, 17, e);
    lemma_prefix_right(lm + opt, lr, 24, e);
    lemma_prefix_right(lm + opt + lr, lp, 24, e);
    lemma_prefix_right(lm + opt + lr + lp, nm, 24, e);
    lemma_prefix_right(lm + opt + lr + lp + nm, ql, 24, e);
    assert(prefix_at(s, 24, e));
    lemma_prefix_self(ql);
    lemma_prefix_left(ld + e, ql, 0, ql);
    lemma_prefix_left(lm, opt, 17 + en, ql);
    lemma_prefix_right(lm + opt, lr, 24 + en, ql);
    lemma_prefix_right(lm + opt + lr, lp, 24 + en, ql);
    lemma_prefix_right(lm + opt + lr + lp, nm, 24 + en, ql);
    lemma_prefix_right(lm + opt + lr + lp + nm, ql, 24 + en, ql);
    assert(prefix_at(s, 24 + en, ql));
    lemma_prefix_self(lr);
    lemma_prefix_left(lm + opt, lr, 0, lr);
    lemma_prefix_right(lm + opt + lr, lp, 26 + en, lr);
    lemma_prefix_right(lm + opt + lr + lp, nm, 26 + en, lr);
    lemma_prefix_right(lm + opt + lr + lp + nm, ql, 26 + en, lr);
    assert(prefix_at(s, 26 + en, lr));
    lemma_prefix_self(lp);
    lemma_prefix_left(lm + opt + lr, lp, 0, lp);
    lemma_prefix_right(lm + opt + lr + lp, nm, 36 + en, lp);
    lemma_prefix_right(lm + opt + lr + lp + nm, ql, 36 + en, lp);
    assert(prefix_at(s, 36 + en, lp));
    lemma_prefix_self(nm);
    lemma_prefix_left(lm + opt + lr + lp, nm, 0, nm);
    lemma_prefix_right(lm + opt + lr + lp + nm, ql, 53 + en, nm);
    assert(prefix_at(s, 53 + en, nm));
    lemma_prefix_left(lm + opt + lr + lp + nm, ql, 0, ql);
    assert(prefix_at(s, 53 + en + nm.len() as int, ql));
    // the quoted path parses back to exactly the path
    assert(s.len() == 55 + en + nm.len());
    lemma_prefix_char(s, 24 + en, ql, 0);
    lemma_prefix_char(s, 24 + en, ql, 1);
    assert(ql[0int] == '"');
    assert(ql[1int] == '\n');
    lemma_quoted_inverts_escape(s, 24, p);
    assert(spec_quoted(s, 7 + ld.len() as int) == Some((p, 25 + en)));
    // then the `[render]` section, and the quoted power-mode name
    lemma_name_escape(v.preferred_gpu);
    lemma_prefix_char(s, 53 + en + nm.len() as int, ql, 0);
    lemma_prefix_char(s, 53 + en + nm.len() as int, ql, 1);
    lemma_quoted_inverts_escape(s, 53 + en, nm);
    lemma_pref_names(v.preferred_gpu);
    assert(spec_quoted(s, 36 + en + lp.len() as int) == Some((nm, 53 + en + nm.len() as int + 1)));
    assert(spec_tail(s, 26 + en, Some(p)) == Some(v));
    assert(spec_deserialize(s) == Some(v));
}

/// Round-trip: parsing the serialized text of any document yields exactly
/// that document.
pub proof fn lemma_round_trip(v: RootView)
    ensures
        spec_deserialize(spec_serialize(v)) == Some(v),
{
    match v.log_directory {
        None => lemma_round_trip_none(v),
        Some(_) => lemma_round_trip_some(v),
    }
}

/// Each power-mode name denotes that mode and no other.
proof fn lemma_pref_names(pp: PowerPreference)
    ensures
        pref_of_name(name_of_pref(pp)) == Some(pp),
{
    reveal_strlit("NoPreference");
    reveal_strlit("LowPower");
    reveal_strlit("HighPerformance");
    assert(("NoPreference"@).len() == 12);
    assert(("LowPower"@).len() == 8);
    assert(("HighPerformance"@).len() == 15);
}

} // verus!
