//! A best-effort JSON parser over character sequences. The grammar is
//! defined once, as the mathematical functions `p_value`, `p_elems` and
//! `p_members`; the executable parser returns exactly what those functions
//! say. String contents are kept raw (escapes are scanned over, not decoded)
//! and number literals are kept verbatim, so that the printers of the JSON
//! module invert the parser exactly.

use vstd::prelude::*;

use crate::json::{jv, jv_seq, num_char, num_start, str_ok, wf, Json, JsonV};
use crate::text::slice_chars;

verus! {

/// JSON whitespace.
pub open spec fn is_ws(c: char) -> bool {
    c == ' ' || c == '\n' || c == '\r' || c == '\t'
}

/// The first position at or after `i` that does not hold whitespace.
pub open spec fn skip_ws(s: Seq<char>, i: nat) -> nat
    decreases s.len() - i,
{
    if i < s.len() && is_ws(s[i as int]) {
        skip_ws(s, i + 1)
    } else {
        i
    }
}

/// The larger of two positions.
pub open spec fn at_least(x: nat, y: nat) -> nat {
    if x >= y {
        x
    } else {
        y
    }
}

/// The position of the closing quote of a string whose content starts at
/// `i`; a backslash skips the following character.
pub open spec fn p_string_end(s: Seq<char>, i: nat) -> Option<nat>
    decreases s.len() - i,
{
    if i >= s.len() {
        None
    } else if s[i as int] == '"' {
        Some(i)
    } else if s[i as int] == '\\' {
        if i + 2 <= s.len() {
            p_string_end(s, i + 2)
        } else {
            None
        }
    } else {
        p_string_end(s, i + 1)
    }
}

/// The first position at or after `i` that does not hold a number character.
pub open spec fn num_end(s: Seq<char>, i: nat) -> nat
    decreases s.len() - i,
{
    if i < s.len() && num_char(s[i as int]) {
        num_end(s, i + 1)
    } else {
        i
    }
}

/// Parse one value starting at `i` (leading whitespace allowed); on success
/// the value and the position just after it.
pub open spec fn p_value(s: Seq<char>, i: nat) -> Option<(JsonV, nat)>
    decreases s.len() - i, 0int,
{
    let j = skip_ws(s, i);
    if j >= s.len() {
        None
    } else {
        let c = s[j as int];
        if c == 'n' {
            if j + 4 <= s.len() && s.subrange(j as int, j as int + 4) == "null"@ {
                Some((JsonV::Null, (j + 4) as nat))
            } else {
                None
            }
        } else if c == 't' {
            if j + 4 <= s.len() && s.subrange(j as int, j as int + 4) == "true"@ {
                Some((JsonV::Bool(true), (j + 4) as nat))
            } else {
                None
            }
        } else if c == 'f' {
            if j + 5 <= s.len() && s.subrange(j as int, j as int + 5) == "false"@ {
                Some((JsonV::Bool(false), (j + 5) as nat))
            } else {
                None
            }
        } else if c == '"' {
            match p_string_end(s, j + 1) {
                Some(e) => Some((JsonV::Str(s.subrange(j as int + 1, e as int)), e + 1)),
                None => None,
            }
        } else if c == '[' {
            let k = skip_ws(s, j + 1);
            if k < s.len() && s[k as int] == ']' {
                Some((JsonV::Arr(Seq::empty()), k + 1))
            } else {
                p_elems(s, at_least(j + 1, i + 1), Seq::empty())
            }
        } else if c == '{' {
            let k = skip_ws(s, j + 1);
            if k < s.len() && s[k as int] == '}' {
                Some((JsonV::Obj(Seq::empty()), k + 1))
            } else {
                p_members(s, at_least(j + 1, i + 1), Seq::empty())
            }
        } else if num_start(c) {
            let e = num_end(s, j);
            Some((JsonV::Num(s.subrange(j as int, e as int)), e))
        } else {
            None
        }
    }
}

/// Parse the elements of an array from `k` (just after '[' or ','); `acc`
/// holds the elements already parsed.
pub open spec fn p_elems(s: Seq<char>, k: nat, acc: Seq<JsonV>) -> Option<(JsonV, nat)>
    decreases s.len() - k, 1int,
{
    if k >= s.len() {
        None
    } else {
        match p_value(s, k) {
            None => None,
            Some((v, m)) => {
                let w = skip_ws(s, m);
                if w < s.len() && s[w as int] == ',' {
                    p_elems(s, at_least(w + 1, k + 1), acc.push(v))
                } else if w < s.len() && s[w as int] == ']' {
                    Some((JsonV::Arr(acc.push(v)), w + 1))
                } else {
                    None
                }
            },
        }
    }
}

/// Parse the members of an object from `k` (just after '{' or ',').
pub open spec fn p_members(s: Seq<char>, k: nat, acc: Seq<(Seq<char>, JsonV)>) -> Option<
    (JsonV, nat),
>
    decreases s.len() - k, 1int,
{
    if k >= s.len() {
        None
    } else {
        let j = skip_ws(s, k);
        if j >= s.len() || s[j as int] != '"' {
            None
        } else {
            match p_string_end(s, j + 1) {
                None => None,
                Some(e) => {
                    let key = s.subrange(j as int + 1, e as int);
                    let w1 = skip_ws(s, e + 1);
                    if w1 >= s.len() || s[w1 as int] != ':' {
                        None
                    } else {
                        match p_value(s, at_least(w1 + 1, k + 1)) {
                            None => None,
                            Some((v, m)) => {
                                let w = skip_ws(s, m);
                                if w < s.len() && s[w as int] == ',' {
                                    p_members(s, at_least(w + 1, k + 1), acc.push((key, v)))
                                } else if w < s.len() && s[w as int] == '}' {
                                    Some((JsonV::Obj(acc.push((key, v))), w + 1))
                                } else {
                                    None
                                }
                            },
                        }
                    }
                },
            }
        }
    }
}

/// Parse a whole text: one value, with only whitespace around it.
pub open spec fn p_parse(s: Seq<char>) -> Option<JsonV> {
    match p_value(s, 0) {
        Some((v, e)) => if skip_ws(s, e) >= s.len() {
            Some(v)
        } else {
            None
        },
        None => None,
    }
}

/// The scanner accepts exactly the content it scanned over.
proof fn lemma_string_end_ok(s: Seq<char>, i: nat)
    ensures
        match p_string_end(s, i) {
            Some(e) => i <= e < s.len() && s[e as int] == '"' && str_ok(
                s.subrange(i as int, e as int),
            ),
            None => true,
        },
    decreases s.len() - i,
{
    if i >= s.len() {
    } else if s[i as int] == '"' {
        assert(s.subrange(i as int, i as int) =~= Seq::<char>::empty());
    } else if s[i as int] == '\\' {
        if i + 2 <= s.len() {
            lemma_string_end_ok(s, i + 2);
            match p_string_end(s, i + 2) {
                Some(e) => {
                    let c = s.subrange(i as int, e as int);
                    assert(c.subrange(2, c.len() as int) =~= s.subrange(i as int + 2, e as int));
                },
                None => {},
            }
        }
    } else {
        lemma_string_end_ok(s, i + 1);
        match p_string_end(s, i + 1) {
            Some(e) => {
                let c = s.subrange(i as int, e as int);
                assert(c.subrange(1, c.len() as int) =~= s.subrange(i as int + 1, e as int));
            },
            None => {},
        }
    }
}

/// What the number scanner visits: only number characters, at least up to
/// its result.
proof fn lemma_num_end(s: Seq<char>, i: nat)
    requires
        i <= s.len(),
    ensures
        i <= num_end(s, i) <= s.len(),
        forall|t: int| i <= t < num_end(s, i) ==> num_char(#[trigger] s[t]),
    decreases s.len() - i,
{
    if i < s.len() && num_char(s[i as int]) {
        lemma_num_end(s, i + 1);
    }
}

/// Every value the grammar yields is well-formed.
pub proof fn lemma_p_value_wf(s: Seq<char>, i: nat)
    ensures
        match p_value(s, i) {
            Some(r) => wf(r.0),
            None => true,
        },
    decreases s.len() - i, 0int,
{
    let j = skip_ws(s, i);
    if j < s.len() {
        let c = s[j as int];
        if c == '"' {
            lemma_string_end_ok(s, j + 1);
        } else if c == '[' {
            let k = skip_ws(s, j + 1);
            if !(k < s.len() && s[k as int] == ']') {
                lemma_p_elems_wf(s, at_least(j + 1, i + 1), Seq::empty());
            }
        } else if c == '{' {
            let k = skip_ws(s, j + 1);
            if !(k < s.len() && s[k as int] == '}') {
                lemma_p_members_wf(s, at_least(j + 1, i + 1), Seq::empty());
            }
        } else if c == 't' || c == 'f' || c == 'n' {
        } else if num_start(c) {
            lemma_num_end(s, j);
            lemma_num_end(s, j + 1);
            let e = num_end(s, j);
            assert(num_char(s[j as int]));
            assert(e >= j + 1);
            let lit = s.subrange(j as int, e as int);
            assert(lit[0] == s[j as int]);
            assert(forall|t: int| 0 <= t < lit.len() ==> num_char(#[trigger] lit[t]));
        }
    }
}

proof fn lemma_p_elems_wf(s: Seq<char>, k: nat, acc: Seq<JsonV>)
    requires
        forall|t: int| 0 <= t < acc.len() ==> wf(#[trigger] acc[t]),
    ensures
        match p_elems(s, k, acc) {
            Some(r) => wf(r.0),
            None => true,
        },
    decreases s.len() - k, 1int,
{
    if k < s.len() {
        lemma_p_value_wf(s, k);
        match p_value(s, k) {
            None => {},
            Some((v, m)) => {
                let w = skip_ws(s, m);
                if w < s.len() && s[w as int] == ',' {
                    lemma_p_elems_wf(s, at_least(w + 1, k + 1), acc.push(v));
                } else if w < s.len() && s[w as int] == ']' {
                    let q = acc.push(v);
                    assert(forall|t: int| 0 <= t < q.len() ==> wf(#[trigger] q[t]));
                }
            },
        }
    }
}

proof fn lemma_p_members_wf(s: Seq<char>, k: nat, acc: Seq<(Seq<char>, JsonV)>)
    requires
        forall|t: int| 0 <= t < acc.len() ==> str_ok(#[trigger] acc[t].0) && wf(acc[t].1),
    ensures
        match p_members(s, k, acc) {
            Some(r) => wf(r.0),
            None => true,
        },
    decreases s.len() - k, 1int,
{
    if k < s.len() {
        let j = skip_ws(s, k);
        if j < s.len() && s[j as int] == '"' {
            lemma_string_end_ok(s, j + 1);
            match p_string_end(s, j + 1) {
                None => {},
                Some(e) => {
                    let key = s.subrange(j as int + 1, e as int);
                    let w1 = skip_ws(s, e + 1);
                    if w1 < s.len() && s[w1 as int] == ':' {
                        lemma_p_value_wf(s, at_least(w1 + 1, k + 1));
                        match p_value(s, at_least(w1 + 1, k + 1)) {
                            None => {},
                            Some((v, m)) => {
                                let w = skip_ws(s, m);
                                if w < s.len() && s[w as int] == ',' {
                                    lemma_p_members_wf(s, at_least(w + 1, k + 1), acc.push((key, v)));
                                } else if w < s.len() && s[w as int] == '}' {
                                    let q = acc.push((key, v));
                                    assert(forall|t: int|
                                        0 <= t < q.len() ==> str_ok(#[trigger] q[t].0) && wf(
                                            q[t].1,
                                        ));
                                }
                            },
                        }
                    }
                },
            }
        }
    }
}

/// Every value the whole-text parser yields is well-formed.
pub proof fn lemma_p_parse_wf(s: Seq<char>)
    ensures
        match p_parse(s) {
            Some(v) => wf(v),
            None => true,
        },
{
    lemma_p_value_wf(s, 0);
}

/// Executable whitespace skipping.
fn e_skip_ws(s: &Vec<char>, i: usize) -> (r: usize)
    requires
        i <= s@.len(),
    ensures
        r as nat == skip_ws(s@, i as nat),
        i <= r <= s@.len(),
{
    let mut j = i;
    loop
        invariant
            i <= j <= s@.len(),
            skip_ws(s@, i as nat) == skip_ws(s@, j as nat),
        decreases s@.len() - j,
    {
        if j >= s.len() {
            return j;
        }
        let c = s[j];
        if c == ' ' || c == '\n' || c == '\r' || c == '\t' {
            j = j + 1;
        } else {
            return j;
        }
    }
}

/// Executable string scanning.
fn e_string_end(s: &Vec<char>, i: usize) -> (r: Option<usize>)
    requires
        i <= s@.len(),
    ensures
        match r {
            Some(e) => p_string_end(s@, i as nat) == Some(e as nat) && i <= e < s@.len(),
            None => p_string_end(s@, i as nat) is None,
        },
{
    let mut j = i;
    loop
        invariant
            i <= j <= s@.len(),
            p_string_end(s@, i as nat) == p_string_end(s@, j as nat),
        decreases s@.len() - j,
    {
        if j >= s.len() {
            return None;
        }
        let c = s[j];
        if c == '"' {
            return Some(j);
        } else if c == '\\' {
            if s.len() - j >= 2 {
                j = j + 2;
            } else {
                return None;
            }
        } else {
            j = j + 1;
        }
    }
}

/// Executable number scanning.
fn e_num_end(s: &Vec<char>, i: usize) -> (r: usize)
    requires
        i <= s@.len(),
    ensures
        r as nat == num_end(s@, i as nat),
        i <= r <= s@.len(),
{
    let mut j = i;
    loop
        invariant
            i <= j <= s@.len(),
            num_end(s@, i as nat) == num_end(s@, j as nat),
        decreases s@.len() - j,
    {
        if j >= s.len() {
            return j;
        }
        let c = s[j];
        if ('0' <= c && c <= '9') || c == '-' || c == '+' || c == '.' || c == 'e' || c == 'E' {
            j = j + 1;
        } else {
            return j;
        }
    }
}

/// Executable value parser; returns exactly what the grammar says.
fn e_value(s: &Vec<char>, i: usize) -> (r: Option<(Json, usize)>)
    requires
        i <= s@.len(),
    ensures
        match r {
            Some(p) => p_value(s@, i as nat) == Some((jv(p.0), p.1 as nat)) && p.1 <= s@.len(),
            None => p_value(s@, i as nat) is None,
        },
    decreases s@.len() - i, 0int,
{
    let j = e_skip_ws(s, i);
    if j >= s.len() {
        return None;
    }
    let c = s[j];
    if c == 'n' || c == 't' {
        if s.len() - j >= 4 {
            let word_ok = if c == 'n' {
                s[j + 1] == 'u' && s[j + 2] == 'l' && s[j + 3] == 'l'
            } else {
                s[j + 1] == 'r' && s[j + 2] == 'u' && s[j + 3] == 'e'
            };
            proof {
                reveal_strlit("null");
                reveal_strlit("true");
                if word_ok {
                    if c == 'n' {
                        assert(s@.subrange(j as int, j as int + 4) =~= "null"@);
                    } else {
                        assert(s@.subrange(j as int, j as int + 4) =~= "true"@);
                    }
                } else {
                    if c == 'n' && s@.subrange(j as int, j as int + 4) == "null"@ {
                        assert(s@[j as int + 1] == 'u' && s@[j as int + 2] == 'l' && s@[j as int
                            + 3] == 'l') by {
                            assert(s@.subrange(j as int, j as int + 4)[1] == 'u');
                            assert(s@.subrange(j as int, j as int + 4)[2] == 'l');
                            assert(s@.subrange(j as int, j as int + 4)[3] == 'l');
                        }
                    }
                    if c == 't' && s@.subrange(j as int, j as int + 4) == "true"@ {
                        assert(s@[j as int + 1] == 'r' && s@[j as int + 2] == 'u' && s@[j as int
                            + 3] == 'e') by {
                            assert(s@.subrange(j as int, j as int + 4)[1] == 'r');
                            assert(s@.subrange(j as int, j as int + 4)[2] == 'u');
                            assert(s@.subrange(j as int, j as int + 4)[3] == 'e');
                        }
                    }
                }
            }
            if word_ok {
                if c == 'n' {
                    Some((Json::Null, j + 4))
                } else {
                    Some((Json::Bool(true), j + 4))
                }
            } else {
                None
            }
        } else {
            None
        }
    } else if c == 'f' {
        if s.len() - j >= 5 {
            let word_ok = s[j + 1] == 'a' && s[j + 2] == 'l' && s[j + 3] == 's' && s[j + 4]
                == 'e';
            proof {
                reveal_strlit("false");
                if word_ok {
                    assert(s@.subrange(j as int, j as int + 5) =~= "false"@);
                } else {
                    if s@.subrange(j as int, j as int + 5) == "false"@ {
                        assert(s@[j as int + 1] == 'a' && s@[j as int + 2] == 'l' && s@[j as int
                            + 3] == 's' && s@[j as int + 4] == 'e') by {
                            assert(s@.subrange(j as int, j as int + 5)[1] == 'a');
                            assert(s@.subrange(j as int, j as int + 5)[2] == 'l');
                            assert(s@.subrange(j as int, j as int + 5)[3] == 's');
                            assert(s@.subrange(j as int, j as int + 5)[4] == 'e');
                        }
                    }
                }
            }
            if word_ok {
                Some((Json::Bool(false), j + 5))
            } else {
                None
            }
        } else {
            None
        }
    } else if c == '"' {
        match e_string_end(s, j + 1) {
            Some(e) => Some((Json::Str(slice_chars(s, j + 1, e)), e + 1)),
            None => None,
        }
    } else if c == '[' {
        let k = e_skip_ws(s, j + 1);
        if k < s.len() && s[k] == ']' {
            let empty: Vec<Json> = Vec::new();
            assert(jv_seq(empty@) =~= Seq::<JsonV>::empty());
            Some((Json::Arr(empty), k + 1))
        } else {
            let next = if j + 1 >= i + 1 {
                j + 1
            } else {
                i + 1
            };
            let empty: Vec<Json> = Vec::new();
            assert(jv_seq(empty@) =~= Seq::<JsonV>::empty());
            e_elems(s, next, empty)
        }
    } else if c == '{' {
        let k = e_skip_ws(s, j + 1);
        if k < s.len() && s[k] == '}' {
            let empty: Vec<(Vec<char>, Json)> = Vec::new();
            assert(crate::json::jv_mems(empty@) =~= Seq::<(Seq<char>, JsonV)>::empty());
            Some((Json::Obj(empty), k + 1))
        } else {
            let next = if j + 1 >= i + 1 {
                j + 1
            } else {
                i + 1
            };
            let empty: Vec<(Vec<char>, Json)> = Vec::new();
            assert(crate::json::jv_mems(empty@) =~= Seq::<(Seq<char>, JsonV)>::empty());
            e_members(s, next, empty)
        }
    } else if ('0' <= c && c <= '9') || c == '-' {
        let e = e_num_end(s, j);
        Some((Json::Num(slice_chars(s, j, e)), e))
    } else {
        None
    }
}

/// Executable array-element parser.
fn e_elems(s: &Vec<char>, k: usize, acc: Vec<Json>) -> (r: Option<(Json, usize)>)
    requires
        k <= s@.len(),
    ensures
        match r {
            Some(p) => p_elems(s@, k as nat, jv_seq(acc@)) == Some((jv(p.0), p.1 as nat)) && p.1
                <= s@.len(),
            None => p_elems(s@, k as nat, jv_seq(acc@)) is None,
        },
    decreases s@.len() - k, 1int,
{
    if k >= s.len() {
        return None;
    }
    match e_value(s, k) {
        None => None,
        Some((v, m)) => {
            let w = e_skip_ws(s, m);
            if w < s.len() && s[w] == ',' {
                let next = if w + 1 >= k + 1 {
                    w + 1
                } else {
                    k + 1
                };
                let ghost accv = jv_seq(acc@);
                let mut acc2 = acc;
                acc2.push(v);
                assert(jv_seq(acc2@) =~= accv.push(jv(v)));
                e_elems(s, next, acc2)
            } else if w < s.len() && s[w] == ']' {
                let ghost accv = jv_seq(acc@);
                let mut acc2 = acc;
                acc2.push(v);
                assert(jv_seq(acc2@) =~= accv.push(jv(v)));
                Some((Json::Arr(acc2), w + 1))
            } else {
                None
            }
        },
    }
}

/// Executable object-member parser.
fn e_members(s: &Vec<char>, k: usize, acc: Vec<(Vec<char>, Json)>) -> (r: Option<(Json, usize)>)
    requires
        k <= s@.len(),
    ensures
        match r {
            Some(p) => p_members(s@, k as nat, crate::json::jv_mems(acc@)) == Some(
                (jv(p.0), p.1 as nat),
            ) && p.1 <= s@.len(),
            None => p_members(s@, k as nat, crate::json::jv_mems(acc@)) is None,
        },
    decreases s@.len() - k, 1int,
{
    if k >= s.len() {
        return None;
    }
    let j = e_skip_ws(s, k);
    if j >= s.len() {
        return None;
    }
    if s[j] != '"' {
        return None;
    }
    match e_string_end(s, j + 1) {
        None => None,
        Some(e) => {
            let key = slice_chars(s, j + 1, e);
            let w1 = e_skip_ws(s, e + 1);
            if w1 >= s.len() {
                return None;
            }
            if s[w1] != ':' {
                return None;
            }
            let next1 = if w1 + 1 >= k + 1 {
                w1 + 1
            } else {
                k + 1
            };
            match e_value(s, next1) {
                None => None,
                Some((v, m)) => {
                    let w = e_skip_ws(s, m);
                    if w < s.len() && s[w] == ',' {
                        let next = if w + 1 >= k + 1 {
                            w + 1
                        } else {
                            k + 1
                        };
                        let ghost accv = crate::json::jv_mems(acc@);
                        let ghost keyv = key@;
                        let mut acc2 = acc;
                        acc2.push((key, v));
                        assert(crate::json::jv_mems(acc2@) =~= accv.push((keyv, jv(v))));
                        e_members(s, next, acc2)
                    } else if w < s.len() && s[w] == '}' {
                        let ghost accv = crate::json::jv_mems(acc@);
                        let ghost keyv = key@;
                        let mut acc2 = acc;
                        acc2.push((key, v));
                        assert(crate::json::jv_mems(acc2@) =~= accv.push((keyv, jv(v))));
                        Some((Json::Obj(acc2), w + 1))
                    } else {
                        None
                    }
                },
            }
        },
    }
}

/// Parse a whole text as one JSON value; `None` where the text is not JSON.
/// On success the result is well-formed and is exactly what the grammar
/// `p_parse` yields.
pub fn parse_chars(s: &Vec<char>) -> (r: Option<Json>)
    ensures
        match r {
            Some(j) => p_parse(s@) == Some(jv(j)) && wf(jv(j)),
            None => p_parse(s@) is None,
        },
{
    proof {
        lemma_p_parse_wf(s@);
    }
    match e_value(s, 0) {
        None => None,
        Some((v, e)) => {
            let w = e_skip_ws(s, e);
            if w >= s.len() {
                Some(v)
            } else {
                None
            }
        },
    }
}

} // verus!
