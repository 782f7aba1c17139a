//! Whitespace normalization for extracted article text.
//!
//! A run of three or more newlines collapses to exactly two (paragraph
//! breaks survive, larger gaps do not), a run of two or more spaces
//! collapses to one, and the result is trimmed of leading and trailing
//! whitespace. Newline collapsing happens before space collapsing.

use vstd::prelude::*;

verus! {

/// The characters that count as whitespace when trimming: the Unicode
/// white-space class, given by code point.
pub open spec fn is_ws_char(c: char) -> bool {
    let u = c as u32;
    (0x9 <= u && u <= 0xD) || u == 0x20 || u == 0x85 || u == 0xA0 || u == 0x1680 || (0x2000 <= u
        && u <= 0x200A) || u == 0x2028 || u == 0x2029 || u == 0x202F || u == 0x205F || u == 0x3000
}

/// Executable test for [`is_ws_char`].
pub fn is_ws(c: char) -> (b: bool)
    ensures
        b == is_ws_char(c),
{
    let u = c as u32;
    (0x9 <= u && u <= 0xD) || u == 0x20 || u == 0x85 || u == 0xA0 || u == 0x1680 || (0x2000 <= u
        && u <= 0x200A) || u == 0x2028 || u == 0x2029 || u == 0x202F || u == 0x205F || u == 0x3000
}

/// Holds when the character at `i` is dropped by newline collapsing:
/// it is a newline standing after two other newlines.
pub open spec fn nl_dropped_at(s: Seq<char>, i: int) -> bool {
    s[i] == '\n' && i >= 2 && s[i - 1] == '\n' && s[i - 2] == '\n'
}

/// Every maximal run of three or more newlines cut down to exactly two.
pub open spec fn collapse_newlines(s: Seq<char>) -> Seq<char>
    decreases s.len(),
{
    if s.len() == 0 {
        s
    } else {
        let prefix = collapse_newlines(s.drop_last());
        if nl_dropped_at(s, s.len() - 1) {
            prefix
        } else {
            prefix.push(s.last())
        }
    }
}

/// Holds when the character at `i` is dropped by space collapsing:
/// it is a space standing right after another space.
pub open spec fn sp_dropped_at(s: Seq<char>, i: int) -> bool {
    s[i] == ' ' && i >= 1 && s[i - 1] == ' '
}

/// Every maximal run of two or more spaces cut down to one.
pub open spec fn collapse_spaces(s: Seq<char>) -> Seq<char>
    decreases s.len(),
{
    if s.len() == 0 {
        s
    } else {
        let prefix = collapse_spaces(s.drop_last());
        if sp_dropped_at(s, s.len() - 1) {
            prefix
        } else {
            prefix.push(s.last())
        }
    }
}

/// The string without its leading whitespace.
pub open spec fn trim_start(s: Seq<char>) -> Seq<char>
    decreases s.len(),
{
    if s.len() > 0 && is_ws_char(s.first()) {
        trim_start(s.drop_first())
    } else {
        s
    }
}

/// The string without its trailing whitespace.
pub open spec fn trim_end(s: Seq<char>) -> Seq<char>
    decreases s.len(),
{
    if s.len() > 0 && is_ws_char(s.last()) {
        trim_end(s.drop_last())
    } else {
        s
    }
}

/// The string without leading and trailing whitespace.
pub open spec fn trim_ws(s: Seq<char>) -> Seq<char> {
    trim_end(trim_start(s))
}

/// What `normalize` returns: newline runs collapsed first, then space
/// runs, then the ends trimmed.
pub open spec fn normalize_text(s: Seq<char>) -> Seq<char> {
    trim_ws(collapse_spaces(collapse_newlines(s)))
}

/// No newline in `s` stands after two other newlines: no run of three.
pub open spec fn no_nl_run(s: Seq<char>) -> bool {
    forall|i: int| 0 <= i < s.len() ==> !nl_dropped_at(s, i)
}

/// No space in `s` stands right after another space: no run of two.
pub open spec fn no_sp_run(s: Seq<char>) -> bool {
    forall|i: int| 0 <= i < s.len() ==> !sp_dropped_at(s, i)
}

/// `s` carries no whitespace at either end.
pub open spec fn trimmed(s: Seq<char>) -> bool {
    s.len() > 0 ==> !is_ws_char(s.first()) && !is_ws_char(s.last())
}

/// How many newlines `s` ends with.
spec fn tnl(s: Seq<char>) -> nat
    decreases s.len(),
{
    if s.len() > 0 && s.last() == '\n' {
        (tnl(s.drop_last()) + 1) as nat
    } else {
        0
    }
}

/// How many spaces `s` ends with.
spec fn tsp(s: Seq<char>) -> nat
    decreases s.len(),
{
    if s.len() > 0 && s.last() == ' ' {
        (tsp(s.drop_last()) + 1) as nat
    } else {
        0
    }
}

/// `s` ends with two newlines.
spec fn ends_two_nl(s: Seq<char>) -> bool {
    s.len() >= 2 && s[s.len() - 1] == '\n' && s[s.len() - 2] == '\n'
}

proof fn lemma_tnl_ends(s: Seq<char>)
    ensures
        tnl(s) >= 1 <==> (s.len() >= 1 && s.last() == '\n'),
        tnl(s) >= 2 <==> ends_two_nl(s),
{
    if s.len() > 0 && s.last() == '\n' {
        let t = s.drop_last();
        assert(tnl(s) == tnl(t) + 1);
        if t.len() > 0 && t.last() == '\n' {
            assert(tnl(t) == tnl(t.drop_last()) + 1);
            assert(t.last() == s[s.len() - 2]);
        } else {
            assert(tnl(t) == 0);
            if s.len() >= 2 {
                assert(t.last() == s[s.len() - 2]);
            }
        }
    } else {
        assert(tnl(s) == 0);
    }
}

proof fn lemma_tsp_ends(s: Seq<char>)
    ensures
        tsp(s) >= 1 <==> (s.len() >= 1 && s.last() == ' '),
{
    if s.len() > 0 && s.last() == ' ' {
        assert(tsp(s) == tsp(s.drop_last()) + 1);
    } else {
        assert(tsp(s) == 0);
    }
}

proof fn lemma_no_nl_run_drop_last(s: Seq<char>)
    requires
        no_nl_run(s),
        s.len() > 0,
    ensures
        no_nl_run(s.drop_last()),
{
    let t = s.drop_last();
    assert forall|i: int| 0 <= i < t.len() implies !nl_dropped_at(t, i) by {
        assert(t[i] == s[i]);
        if i >= 1 {
            assert(t[i - 1] == s[i - 1]);
        }
        if i >= 2 {
            assert(t[i - 2] == s[i - 2]);
        }
        assert(!nl_dropped_at(s, i));
    }
}

proof fn lemma_no_sp_run_drop_last(s: Seq<char>)
    requires
        no_sp_run(s),
        s.len() > 0,
    ensures
        no_sp_run(s.drop_last()),
{
    let t = s.drop_last();
    assert forall|i: int| 0 <= i < t.len() implies !sp_dropped_at(t, i) by {
        assert(t[i] == s[i]);
        if i >= 1 {
            assert(t[i - 1] == s[i - 1]);
        }
        assert(!sp_dropped_at(s, i));
    }
}

/// Newline collapsing leaves a string without newline runs unchanged.
pub proof fn lemma_collapse_newlines_id(s: Seq<char>)
    requires
        no_nl_run(s),
    ensures
        collapse_newlines(s) == s,
    decreases s.len(),
{
    if s.len() > 0 {
        lemma_no_nl_run_drop_last(s);
        lemma_collapse_newlines_id(s.drop_last());
        assert(!nl_dropped_at(s, s.len() - 1));
        assert(s.drop_last().push(s.last()) =~= s);
    }
}

/// Space collapsing leaves a string without space runs unchanged.
pub proof fn lemma_collapse_spaces_id(s: Seq<char>)
    requires
        no_sp_run(s),
    ensures
        collapse_spaces(s) == s,
    decreases s.len(),
{
    if s.len() > 0 {
        lemma_no_sp_run_drop_last(s);
        lemma_collapse_spaces_id(s.drop_last());
        assert(!sp_dropped_at(s, s.len() - 1));
        assert(s.drop_last().push(s.last()) =~= s);
    }
}

proof fn lemma_collapse_newlines_props(s: Seq<char>)
    ensures
        no_nl_run(collapse_newlines(s)),
        collapse_newlines(s).len() > 0 <==> s.len() > 0,
        tnl(collapse_newlines(s)) == if tnl(s) >= 2 {
            2nat
        } else {
            tnl(s)
        },
        s.len() > 0 && s.last() != '\n' ==> collapse_newlines(s).last() == s.last(),
    decreases s.len(),
{
    if s.len() > 0 {
        let n = s.len() as int;
        let t = s.drop_last();
        let c = s.last();
        lemma_collapse_newlines_props(t);
        let p = collapse_newlines(t);
        lemma_tnl_ends(s);
        lemma_tnl_ends(t);
        lemma_tnl_ends(p);
        if nl_dropped_at(s, n - 1) {
            assert(t.last() == s[n - 2] && t.len() >= 2 && t[t.len() - 2] == s[n - 3]);
            assert(ends_two_nl(t));
            assert(tnl(s) == tnl(t) + 1);
            assert(collapse_newlines(s) == p);
        } else {
            let r = p.push(c);
            assert(collapse_newlines(s) == r);
            assert(r.drop_last() =~= p);
            assert(r.last() == c);
            if c == '\n' {
                if t.len() >= 2 && t.last() == '\n' && t[t.len() - 2] == '\n' {
                    assert(t.last() == s[n - 2] && t[t.len() - 2] == s[n - 3]);
                    assert(nl_dropped_at(s, n - 1));
                }
                assert(tnl(t) <= 1);
                assert(tnl(p) == tnl(t));
                assert(tnl(s) == tnl(t) + 1);
                assert(tnl(r) == tnl(p) + 1);
                assert(!ends_two_nl(p));
            } else {
                assert(tnl(r) == 0 && tnl(s) == 0);
                lemma_tnl_ends(r);
            }
            assert forall|i: int| 0 <= i < r.len() implies !nl_dropped_at(r, i) by {
                if i < p.len() {
                    assert(r[i] == p[i]);
                    if i >= 1 {
                        assert(r[i - 1] == p[i - 1]);
                    }
                    if i >= 2 {
                        assert(r[i - 2] == p[i - 2]);
                    }
                    assert(!nl_dropped_at(p, i));
                } else {
                    if c == '\n' && i >= 2 && r[i - 1] == '\n' && r[i - 2] == '\n' {
                        assert(p.last() == '\n' && p[p.len() - 2] == '\n');
                        assert(ends_two_nl(p));
                    }
                }
            }
        }
    }
}

proof fn lemma_collapse_spaces_props(s: Seq<char>)
    ensures
        no_sp_run(collapse_spaces(s)),
        collapse_spaces(s).len() > 0 <==> s.len() > 0,
        tsp(collapse_spaces(s)) == if tsp(s) >= 1 {
            1nat
        } else {
            0nat
        },
        s.len() > 0 ==> collapse_spaces(s).last() == (if s.last() == ' ' {
            ' '
        } else {
            s.last()
        }),
        ends_two_nl(collapse_spaces(s)) ==> ends_two_nl(s),
        no_nl_run(s) ==> no_nl_run(collapse_spaces(s)),
    decreases s.len(),
{
    if s.len() > 0 {
        let n = s.len() as int;
        let t = s.drop_last();
        let c = s.last();
        lemma_collapse_spaces_props(t);
        let p = collapse_spaces(t);
        lemma_tsp_ends(s);
        lemma_tsp_ends(t);
        lemma_tsp_ends(p);
        if no_nl_run(s) && s.len() > 0 {
            lemma_no_nl_run_drop_last(s);
        }
        if sp_dropped_at(s, n - 1) {
            assert(t.last() == s[n - 2]);
            assert(t.last() == ' ');
            assert(tsp(s) == tsp(t) + 1);
            assert(collapse_spaces(s) == p);
            assert(p.last() == ' ');
            lemma_tsp_ends(p);
            assert(!ends_two_nl(p)) by {
                if ends_two_nl(p) {
                    assert(p.last() == '\n');
                }
            }
        } else {
            let r = p.push(c);
            assert(collapse_spaces(s) == r);
            assert(r.drop_last() =~= p);
            assert(r.last() == c);
            if c == ' ' {
                assert(s.len() == 1 || s[n - 2] != ' ');
                if t.len() > 0 {
                    assert(t.last() == s[n - 2]);
                }
                assert(tsp(t) == 0);
                assert(tsp(p) == 0);
                assert(p.len() > 0 ==> p.last() != ' ');
                assert(tsp(r) == tsp(p) + 1);
                assert(tsp(s) == tsp(t) + 1);
            } else {
                assert(tsp(r) == 0 && tsp(s) == 0);
            }
            // no space run in the result
            assert forall|i: int| 0 <= i < r.len() implies !sp_dropped_at(r, i) by {
                if i < p.len() {
                    assert(r[i] == p[i]);
                    if i >= 1 {
                        assert(r[i - 1] == p[i - 1]);
                    }
                    assert(!sp_dropped_at(p, i));
                } else {
                    if c == ' ' && i >= 1 && r[i - 1] == ' ' {
                        assert(p.last() == ' ');
                        assert(tsp(p) >= 1);
                    }
                }
            }
            // a double trailing newline comes from the input
            if ends_two_nl(r) {
                assert(c == '\n' && p.last() == '\n');
                assert(t.len() > 0);
                assert(t.last() != ' ' ==> p.last() == t.last());
                assert(t.last() == '\n');
                assert(t.last() == s[n - 2]);
                assert(ends_two_nl(s));
            }
            // no newline run appears where the input had none
            if no_nl_run(s) {
                assert(no_nl_run(t));
                assert(no_nl_run(p));
                assert forall|i: int| 0 <= i < r.len() implies !nl_dropped_at(r, i) by {
                    if i < p.len() {
                        assert(r[i] == p[i]);
                        if i >= 1 {
                            assert(r[i - 1] == p[i - 1]);
                        }
                        if i >= 2 {
                            assert(r[i - 2] == p[i - 2]);
                        }
                        assert(!nl_dropped_at(p, i));
                    } else {
                        if c == '\n' && i >= 2 && r[i - 1] == '\n' && r[i - 2] == '\n' {
                            assert(p.last() == '\n' && p[p.len() - 2] == '\n');
                            assert(ends_two_nl(p));
                            assert(ends_two_nl(t));
                            assert(t.last() == s[n - 2] && t[t.len() - 2] == s[n - 3]);
                            assert(nl_dropped_at(s, n - 1));
                        }
                    }
                }
            }
        }
    }
}

proof fn lemma_trim_start_props(s: Seq<char>)
    ensures
        trim_start(s).len() <= s.len(),
        forall|i: int|
            0 <= i < trim_start(s).len() ==> trim_start(s)[i] == s[i + s.len() - trim_start(
                s,
            ).len()],
        trim_start(s).len() > 0 ==> !is_ws_char(trim_start(s)[0]),
    decreases s.len(),
{
    if s.len() > 0 && is_ws_char(s.first()) {
        let t = s.drop_first();
        lemma_trim_start_props(t);
        let r = trim_start(s);
        assert(r == trim_start(t));
        assert forall|i: int| 0 <= i < r.len() implies r[i] == s[i + s.len() - r.len()] by {
            assert(r[i] == t[i + t.len() - r.len()]);
            assert(t[i + t.len() - r.len()] == s[i + s.len() - r.len()]);
        }
    }
}

proof fn lemma_trim_end_props(s: Seq<char>)
    ensures
        trim_end(s).len() <= s.len(),
        forall|i: int| 0 <= i < trim_end(s).len() ==> trim_end(s)[i] == s[i],
        trim_end(s).len() > 0 ==> !is_ws_char(trim_end(s).last()),
    decreases s.len(),
{
    if s.len() > 0 && is_ws_char(s.last()) {
        let t = s.drop_last();
        lemma_trim_end_props(t);
        assert forall|i: int| 0 <= i < trim_end(s).len() implies trim_end(s)[i] == s[i] by {
            assert(trim_end(s)[i] == t[i]);
            assert(t[i] == s[i]);
        }
    }
}

/// A run of `k` newlines.
pub open spec fn nl_run(k: nat) -> Seq<char> {
    Seq::new(k, |i: int| '\n')
}

/// A run of `k` spaces.
pub open spec fn sp_run(k: nat) -> Seq<char> {
    Seq::new(k, |i: int| ' ')
}

/// A maximal run of `k` newlines comes out of newline collapsing as
/// exactly two newlines when `k` is three or more, and untouched
/// otherwise, with the text on either side collapsed independently.
pub proof fn lemma_collapse_newlines_run(a: Seq<char>, k: nat, b: Seq<char>)
    requires
        a.len() == 0 || a.last() != '\n',
        b.len() == 0 || b.first() != '\n',
    ensures
        collapse_newlines(a + nl_run(k) + b) == collapse_newlines(a) + nl_run(
            if k >= 2 {
                2nat
            } else {
                k
            },
        ) + collapse_newlines(b),
    decreases b.len(), k,
{
    let m: nat = if k >= 2 {
        2nat
    } else {
        k
    };
    if b.len() == 0 {
        if k == 0 {
            assert(a + nl_run(0) + b =~= a);
            assert(nl_run(0) =~= Seq::<char>::empty());
            assert(collapse_newlines(a) + nl_run(0) + collapse_newlines(b) =~= collapse_newlines(
                a,
            ));
        } else {
            let s = a + nl_run(k) + b;
            let n = s.len() as int;
            assert(n == a.len() + k);
            assert(s.last() == nl_run(k)[k - 1]);
            assert(s.last() == '\n');
            lemma_collapse_newlines_run(a, (k - 1) as nat, b);
            assert(s.drop_last() =~= a + nl_run((k - 1) as nat) + b);
            if k >= 3 {
                assert(s[n - 2] == nl_run(k)[k - 2] && s[n - 3] == nl_run(k)[k - 3]);
                assert(nl_dropped_at(s, n - 1));
                assert(collapse_newlines(s) == collapse_newlines(a) + nl_run(2) + collapse_newlines(
                    b,
                ));
            } else if k == 2 {
                assert(s[n - 2] == nl_run(k)[0]);
                if a.len() > 0 {
                    assert(s[n - 3] == a.last());
                }
                assert(!nl_dropped_at(s, n - 1));
                assert(collapse_newlines(s) == (collapse_newlines(a) + nl_run(1)
                    + collapse_newlines(b)).push('\n'));
                assert((collapse_newlines(a) + nl_run(1) + collapse_newlines(b)).push('\n')
                    =~= collapse_newlines(a) + nl_run(2) + collapse_newlines(b));
            } else {
                if a.len() > 0 {
                    assert(s[n - 2] == a.last());
                }
                assert(!nl_dropped_at(s, n - 1));
                assert(collapse_newlines(s) == (collapse_newlines(a) + nl_run(0)
                    + collapse_newlines(b)).push('\n'));
                assert((collapse_newlines(a) + nl_run(0) + collapse_newlines(b)).push('\n')
                    =~= collapse_newlines(a) + nl_run(1) + collapse_newlines(b));
            }
        }
    } else {
        let s = a + nl_run(k) + b;
        let n = s.len() as int;
        let b0 = b.drop_last();
        let c = b.last();
        let j = b.len() - 1;
        assert(s.last() == c);
        lemma_collapse_newlines_run(a, k, b0);
        assert(s.drop_last() =~= a + nl_run(k) + b0);
        let lhs = collapse_newlines(a) + nl_run(m) + collapse_newlines(b0);
        assert(collapse_newlines(a + nl_run(k) + b0) == lhs);
        // the drop decision for the last character of `b` is the same
        // inside `s` as inside `b` alone
        assert(nl_dropped_at(s, n - 1) == nl_dropped_at(b, j)) by {
            if j >= 2 {
                assert(s[n - 2] == b[j - 1] && s[n - 3] == b[j - 2]);
            } else if j == 1 {
                assert(s[n - 2] == b[0]);
                assert(b[0] != '\n');
            } else {
                assert(c == b.first());
                assert(c != '\n');
            }
        }
        if nl_dropped_at(b, j) {
            assert(collapse_newlines(s) == lhs);
            assert(collapse_newlines(b) == collapse_newlines(b0));
        } else {
            assert(collapse_newlines(s) == lhs.push(c));
            assert(collapse_newlines(b) == collapse_newlines(b0).push(c));
            assert(lhs.push(c) =~= collapse_newlines(a) + nl_run(m) + collapse_newlines(b));
        }
    }
}

/// A maximal run of `k` spaces comes out of space collapsing as exactly
/// one space, with the text on either side collapsed independently.
pub proof fn lemma_collapse_spaces_run(a: Seq<char>, k: nat, b: Seq<char>)
    requires
        a.len() == 0 || a.last() != ' ',
        b.len() == 0 || b.first() != ' ',
    ensures
        collapse_spaces(a + sp_run(k) + b) == collapse_spaces(a) + sp_run(
            if k >= 1 {
                1nat
            } else {
                0nat
            },
        ) + collapse_spaces(b),
    decreases b.len(), k,
{
    let m: nat = if k >= 1 {
        1nat
    } else {
        0nat
    };
    if b.len() == 0 {
        if k == 0 {
            assert(a + sp_run(0) + b =~= a);
            assert(collapse_spaces(a) + sp_run(0) + collapse_spaces(b) =~= collapse_spaces(a));
        } else {
            let s = a + sp_run(k) + b;
            let n = s.len() as int;
            assert(s.last() == sp_run(k)[k - 1]);
            assert(s.last() == ' ');
            lemma_collapse_spaces_run(a, (k - 1) as nat, b);
            assert(s.drop_last() =~= a + sp_run((k - 1) as nat) + b);
            if k >= 2 {
                assert(s[n - 2] == sp_run(k)[k - 2]);
                assert(sp_dropped_at(s, n - 1));
                assert(collapse_spaces(s) == collapse_spaces(a) + sp_run(1) + collapse_spaces(b));
            } else {
                if a.len() > 0 {
                    assert(s[n - 2] == a.last());
                }
                assert(!sp_dropped_at(s, n - 1));
                assert(collapse_spaces(s) == (collapse_spaces(a) + sp_run(0) + collapse_spaces(
                    b,
                )).push(' '));
                assert((collapse_spaces(a) + sp_run(0) + collapse_spaces(b)).push(' ')
                    =~= collapse_spaces(a) + sp_run(1) + collapse_spaces(b));
            }
        }
    } else {
        let s = a + sp_run(k) + b;
        let n = s.len() as int;
        let b0 = b.drop_last();
        let c = b.last();
        let j = b.len() - 1;
        assert(s.last() == c);
        lemma_collapse_spaces_run(a, k, b0);
        assert(s.drop_last() =~= a + sp_run(k) + b0);
        let lhs = collapse_spaces(a) + sp_run(m) + collapse_spaces(b0);
        assert(collapse_spaces(a + sp_run(k) + b0) == lhs);
        assert(sp_dropped_at(s, n - 1) == sp_dropped_at(b, j)) by {
            if j >= 1 {
                assert(s[n - 2] == b[j - 1]);
            } else {
                assert(c == b.first());
                assert(c != ' ');
            }
        }
        if sp_dropped_at(b, j) {
            assert(collapse_spaces(s) == lhs);
            assert(collapse_spaces(b) == collapse_spaces(b0));
        } else {
            assert(collapse_spaces(s) == lhs.push(c));
            assert(collapse_spaces(b) == collapse_spaces(b0).push(c));
            assert(lhs.push(c) =~= collapse_spaces(a) + sp_run(m) + collapse_spaces(b));
        }
    }
}

/// The normalized text holds no run of three newlines, no run of two
/// spaces, and no whitespace at either end.
pub proof fn lemma_normalize_shape(s: Seq<char>)
    ensures
        no_nl_run(normalize_text(s)),
        no_sp_run(normalize_text(s)),
        trimmed(normalize_text(s)),
{
    let c1 = collapse_newlines(s);
    let c2 = collapse_spaces(c1);
    let t1 = trim_start(c2);
    let r = trim_end(t1);
    lemma_collapse_newlines_props(s);
    lemma_collapse_spaces_props(c1);
    lemma_trim_start_props(c2);
    lemma_trim_end_props(t1);
    let d = c2.len() - t1.len();
    assert forall|i: int| 0 <= i < t1.len() implies !nl_dropped_at(t1, i) by {
        assert(t1[i] == c2[i + d]);
        if i >= 1 {
            assert(t1[i - 1] == c2[i + d - 1]);
        }
        if i >= 2 {
            assert(t1[i - 2] == c2[i + d - 2]);
        }
        assert(!nl_dropped_at(c2, i + d));
    }
    assert forall|i: int| 0 <= i < t1.len() implies !sp_dropped_at(t1, i) by {
        assert(t1[i] == c2[i + d]);
        if i >= 1 {
            assert(t1[i - 1] == c2[i + d - 1]);
        }
        assert(!sp_dropped_at(c2, i + d));
    }
    assert forall|i: int| 0 <= i < r.len() implies !nl_dropped_at(r, i) by {
        assert(r[i] == t1[i]);
        if i >= 1 {
            assert(r[i - 1] == t1[i - 1]);
        }
        if i >= 2 {
            assert(r[i - 2] == t1[i - 2]);
        }
        assert(!nl_dropped_at(t1, i));
    }
    assert forall|i: int| 0 <= i < r.len() implies !sp_dropped_at(r, i) by {
        assert(r[i] == t1[i]);
        if i >= 1 {
            assert(r[i - 1] == t1[i - 1]);
        }
        assert(!sp_dropped_at(t1, i));
    }
    if r.len() > 0 {
        assert(r[0] == t1[0]);
        assert(!is_ws_char(r.first()));
        assert(!is_ws_char(r.last()));
    }
}

/// Normalizing is idempotent: a second pass changes nothing.
pub proof fn lemma_normalize_idempotent(s: Seq<char>)
    ensures
        normalize_text(normalize_text(s)) == normalize_text(s),
{
    let r = normalize_text(s);
    lemma_normalize_shape(s);
    lemma_collapse_newlines_id(r);
    lemma_collapse_spaces_id(r);
    assert(trim_start(r) == r);
    assert(trim_end(r) == r);
}

/// Relies on `str::chars`: the characters of the string, in order;
/// the view of a `str` is exactly that character sequence.
#[verifier::external_body]
pub(crate) fn chars_vec(s: &str) -> (r: Vec<char>)
    ensures
        r@ == s@,
{
    s.chars().collect()
}

/// Relies on `String::push`: appends the one character to the string.
#[verifier::external_body]
pub(crate) fn push_char(s: &mut String, c: char)
    ensures
        final(s)@ == old(s)@.push(c),
{
    s.push(c)
}

/// Newline collapsing over a character vector.
fn collapse_newlines_exec(v: &Vec<char>) -> (r: Vec<char>)
    ensures
        r@ == collapse_newlines(v@),
{
    let mut r: Vec<char> = Vec::new();
    let n = v.len();
    assert(v@.take(0) =~= Seq::<char>::empty());
    for i in 0..n
        invariant
            n == v@.len(),
            r@ == collapse_newlines(v@.take(i as int)),
    {
        let dropped = v[i] == '\n' && i >= 2 && v[i - 1] == '\n' && v[i - 2] == '\n';
        proof {
            assert(v@.take(i + 1).drop_last() =~= v@.take(i as int));
            assert(v@.take(i + 1).last() == v@[i as int]);
            assert(nl_dropped_at(v@.take(i + 1), i as int) == dropped);
        }
        if !dropped {
            r.push(v[i]);
        }
    }
    proof {
        assert(v@.take(n as int) =~= v@);
    }
    r
}

/// Space collapsing over a character vector.
fn collapse_spaces_exec(v: &Vec<char>) -> (r: Vec<char>)
    ensures
        r@ == collapse_spaces(v@),
{
    let mut r: Vec<char> = Vec::new();
    let n = v.len();
    assert(v@.take(0) =~= Seq::<char>::empty());
    for i in 0..n
        invariant
            n == v@.len(),
            r@ == collapse_spaces(v@.take(i as int)),
    {
        let dropped = v[i] == ' ' && i >= 1 && v[i - 1] == ' ';
        proof {
            assert(v@.take(i + 1).drop_last() =~= v@.take(i as int));
            assert(v@.take(i + 1).last() == v@[i as int]);
            assert(sp_dropped_at(v@.take(i + 1), i as int) == dropped);
        }
        if !dropped {
            r.push(v[i]);
        }
    }
    proof {
        assert(v@.take(n as int) =~= v@);
    }
    r
}

/// The bounds of the trimmed middle of `v`: `trim_ws(v@)` is exactly
/// `v@.subrange(a, b)`.
fn trim_bounds(v: &Vec<char>) -> (bounds: (usize, usize))
    ensures
        bounds.0 <= bounds.1 <= v@.len(),
        trim_ws(v@) == v@.subrange(bounds.0 as int, bounds.1 as int),
{
    let n = v.len();
    let mut a: usize = 0;
    assert(v@.skip(0) =~= v@);
    while a < n && is_ws(v[a])
        invariant
            n == v@.len(),
            a <= n,
            trim_start(v@) == trim_start(v@.skip(a as int)),
        decreases n - a,
    {
        proof {
            assert(v@.skip(a as int).first() == v@[a as int]);
            assert(v@.skip(a as int).drop_first() =~= v@.skip(a + 1));
        }
        a = a + 1;
    }
    proof {
        if a < n {
            assert(v@.skip(a as int).first() == v@[a as int]);
        }
        assert(trim_start(v@) == v@.skip(a as int));
        assert(v@.skip(a as int) =~= v@.subrange(a as int, n as int));
    }
    let mut b: usize = n;
    while b > a && is_ws(v[b - 1])
        invariant
            n == v@.len(),
            a <= b <= n,
            trim_end(v@.skip(a as int)) == trim_end(v@.subrange(a as int, b as int)),
        decreases b,
    {
        proof {
            let s = v@.subrange(a as int, b as int);
            assert(s.last() == v@[b - 1]);
            assert(s.drop_last() =~= v@.subrange(a as int, b - 1));
        }
        b = b - 1;
    }
    proof {
        let s = v@.subrange(a as int, b as int);
        if b > a {
            assert(s.last() == v@[b - 1]);
        }
        assert(trim_end(s) == s);
    }
    (a, b)
}

/// The string built from `v[a..b]`.
fn string_of_range(v: &Vec<char>, a: usize, b: usize) -> (r: String)
    requires
        a <= b <= v@.len(),
    ensures
        r@ == v@.subrange(a as int, b as int),
{
    let mut r = String::new();
    let mut i: usize = a;
    assert(r@ =~= v@.subrange(a as int, a as int));
    while i < b
        invariant
            a <= i <= b <= v@.len(),
            r@ == v@.subrange(a as int, i as int),
        decreases b - i,
    {
        push_char(&mut r, v[i]);
        proof {
            assert(v@.subrange(a as int, i as int).push(v@[i as int]) =~= v@.subrange(
                a as int,
                i + 1,
            ));
        }
        i = i + 1;
    }
    r
}

/// The string without leading and trailing whitespace.
pub fn trim_string(s: &str) -> (r: String)
    ensures
        r@ == trim_ws(s@),
{
    let v = chars_vec(s);
    let (a, b) = trim_bounds(&v);
    string_of_range(&v, a, b)
}

/// Collapses runs of three or more newlines to two, then runs of two or
/// more spaces to one, and trims the ends of the result.
pub fn normalize(text: &str) -> (r: String)
    ensures
        r@ == normalize_text(text@),
{
    let v = chars_vec(text);
    let v1 = collapse_newlines_exec(&v);
    let v2 = collapse_spaces_exec(&v1);
    let (a, b) = trim_bounds(&v2);
    string_of_range(&v2, a, b)
}

} // verus!
