//! The round-trip law: pretty-printing a well-formed JSON value and parsing
//! the result yields the value back. Since the parser returns only
//! well-formed values, re-serializing and re-parsing any parsed response is
//! the identity.

use vstd::prelude::*;

use crate::json::{num_char, num_start, pretty, pretty_elems, pretty_members, str_ok, wf, JsonV};
use crate::parse::{
    at_least, is_ws, num_end, p_elems, p_members, p_parse, p_string_end, p_value, skip_ws,
};

verus! {

/// Every character of `ind` is a space.
pub open spec fn all_spaces(ind: Seq<char>) -> bool {
    forall|t: int| 0 <= t < ind.len() ==> ind[t] == ' '
}

/// What may follow a printed value without disturbing the parse: the end of
/// the text, or a separator or closing character.
pub open spec fn follow_ok(s: Seq<char>, e: int) -> bool {
    e == s.len() || (s[e] == ',' || s[e] == '\n' || s[e] == ']' || s[e] == '}')
}

/// Whitespace skipping stops exactly at the end of a whitespace block.
proof fn lemma_skip_ws_block(s: Seq<char>, i: nat, j: nat)
    requires
        i <= j <= s.len(),
        forall|t: int| i <= t < j ==> is_ws(#[trigger] s[t]),
        j == s.len() || !is_ws(s[j as int]),
    ensures
        skip_ws(s, i) == j,
    decreases j - i,
{
    if i < j {
        lemma_skip_ws_block(s, i + 1, j);
    }
}

/// Number scanning stops exactly at the end of a number-character block.
proof fn lemma_num_end_block(s: Seq<char>, i: nat, j: nat)
    requires
        i <= j <= s.len(),
        forall|t: int| i <= t < j ==> num_char(#[trigger] s[t]),
        j == s.len() || !num_char(s[j as int]),
    ensures
        num_end(s, i) == j,
    decreases j - i,
{
    if i < j {
        lemma_num_end_block(s, i + 1, j);
    }
}

/// A piece embedded at `pos` is readable character by character.
proof fn lemma_embed_index(s: Seq<char>, pos: nat, p: Seq<char>)
    requires
        pos + p.len() <= s.len(),
        s.subrange(pos as int, (pos + p.len()) as int) == p,
    ensures
        forall|u: int| 0 <= u < p.len() ==> s[pos + u] == #[trigger] p[u],
{
    assert forall|u: int| 0 <= u < p.len() implies s[pos + u] == #[trigger] p[u] by {
        assert(s.subrange(pos as int, (pos + p.len()) as int)[u] == p[u]);
    }
}

/// The scanner finds the closing quote right after embedded well-formed
/// content.
proof fn lemma_string_end_embedded(s: Seq<char>, i: nat, c: Seq<char>)
    requires
        str_ok(c),
        i + c.len() < s.len(),
        s.subrange(i as int, (i + c.len()) as int) == c,
        s[(i + c.len()) as int] == '"',
    ensures
        p_string_end(s, i) == Some((i + c.len()) as nat),
    decreases c.len(),
{
    lemma_embed_index(s, i, c);
    if c.len() == 0 {
    } else if c[0] == '\\' {
        assert(s[i as int] == c[0]);
        let c2 = c.subrange(2, c.len() as int);
        assert(s.subrange(i as int + 2, (i + c.len()) as int) =~= c2);
        lemma_string_end_embedded(s, i + 2, c2);
    } else {
        assert(s[i as int] == c[0]);
        let c2 = c.subrange(1, c.len() as int);
        assert(s.subrange(i as int + 1, (i + c.len()) as int) =~= c2);
        lemma_string_end_embedded(s, i + 1, c2);
    }
}

/// The first character of a printed value: never whitespace, never a
/// separator or closing character.
proof fn lemma_pretty_first(v: JsonV, ind: Seq<char>)
    requires
        wf(v),
    ensures
        pretty(v, ind).len() >= 1,
        !is_ws(pretty(v, ind)[0]),
        pretty(v, ind)[0] != ']',
        pretty(v, ind)[0] != '}',
        pretty(v, ind)[0] != ',',
{
    reveal_strlit("null");
    reveal_strlit("true");
    reveal_strlit("false");
    reveal_strlit("[]");
    reveal_strlit("{}");
    match v {
        JsonV::Null => {},
        JsonV::Bool(_) => {},
        JsonV::Num(m) => {
            assert(pretty(v, ind)[0] == m[0]);
        },
        JsonV::Str(_) => {},
        JsonV::Arr(_) => {},
        JsonV::Obj(_) => {},
    }
}

/// Parsing recovers a printed value that is embedded in a larger text after
/// a block of whitespace.
#[verifier::rlimit(80)]
proof fn lemma_rt_value(v: JsonV, ind: Seq<char>, s: Seq<char>, i: nat, pos0: nat)
    requires
        wf(v),
        all_spaces(ind),
        i <= pos0,
        forall|t: int| i <= t < pos0 ==> is_ws(#[trigger] s[t]),
        pos0 + pretty(v, ind).len() <= s.len(),
        s.subrange(pos0 as int, (pos0 + pretty(v, ind).len()) as int) == pretty(v, ind),
        follow_ok(s, (pos0 + pretty(v, ind).len()) as int),
    ensures
        p_value(s, i) == Some((v, (pos0 + pretty(v, ind).len()) as nat)),
    decreases v, 0int,
{
    reveal_strlit("null");
    reveal_strlit("true");
    reveal_strlit("false");
    reveal_strlit("[]");
    reveal_strlit("{}");
    let p = pretty(v, ind);
    let plen = p.len();
    lemma_pretty_first(v, ind);
    lemma_embed_index(s, pos0, p);
    assert(s[pos0 as int] == p[0]);
    lemma_skip_ws_block(s, i, pos0);
    assert(skip_ws(s, i) == pos0);
    match v {
        JsonV::Null => {
            assert(s.subrange(pos0 as int, pos0 as int + 4) =~= "null"@);
        },
        JsonV::Bool(b) => {
            if b {
                assert(s.subrange(pos0 as int, pos0 as int + 4) =~= "true"@);
            } else {
                assert(s.subrange(pos0 as int, pos0 as int + 5) =~= "false"@);
                assert(s[pos0 as int] == 'f');
            }
        },
        JsonV::Num(m) => {
            assert(forall|t: int| pos0 <= t < pos0 + m.len() ==> #[trigger] s[t] == m[t - pos0]);
            assert(forall|t: int| pos0 <= t < pos0 + m.len() ==> num_char(#[trigger] s[t]));
            assert(!num_char(',') && !num_char('\n') && !num_char(']') && !num_char('}'));
            lemma_num_end_block(s, pos0, pos0 + m.len());
            assert(s.subrange(pos0 as int, (pos0 + m.len()) as int) =~= m);
            let c = s[pos0 as int];
            assert(num_start(c));
            assert(c != 'n' && c != 't' && c != 'f' && c != '"' && c != '[' && c != '{');
        },
        JsonV::Str(c) => {
            assert(s[pos0 as int] == '"');
            assert forall|t: int|
                0 <= t < c.len() implies s.subrange(
                pos0 as int + 1,
                (pos0 + 1 + c.len()) as int,
            )[t] == c[t] by {
                assert(p[1 + t] == c[t]);
                assert(s[pos0 + (1 + t)] == p[1 + t]);
            }
            assert(s.subrange(pos0 as int + 1, (pos0 + 1 + c.len()) as int) =~= c);
            assert(p[(1 + c.len()) as int] == '"');
            assert(s[(pos0 + 1 + c.len()) as int] == p[(1 + c.len()) as int]);
            lemma_string_end_embedded(s, pos0 + 1, c);
            assert(s.subrange(pos0 as int + 1, (pos0 + 1 + c.len()) as int) == c);
        },
        JsonV::Arr(a) => {
            if a.len() == 0 {
                assert(s[pos0 as int] == '[');
                assert(p[1] == ']');
                assert(s[pos0 as int + 1] == p[1]);
                lemma_skip_ws_block(s, pos0 + 1, pos0 + 1);
            } else {
                let ind2 = ind + seq![' ', ' '];
                let pe = pretty_elems(a, ind2);
                let seg = pe + seq!['\n'] + ind + seq![']'];
                assert(s[pos0 as int] == '[');
                assert(p =~= seq!['['] + seg);
                assert forall|t: int|
                    0 <= t < seg.len() implies s.subrange(
                    pos0 as int + 1,
                    (pos0 + plen) as int,
                )[t] == seg[t] by {
                    assert(p[1 + t] == (seq!['['] + seg)[1 + t]);
                    assert(s[pos0 + (1 + t)] == p[1 + t]);
                }
                assert(s.subrange(pos0 as int + 1, (pos0 + 1 + seg.len()) as int) =~= seg);
                lemma_rt_elems(a, ind, ind2, s, pos0 + 1, Seq::empty());
                assert(p_elems(s, (pos0 + 1) as nat, Seq::empty()) == Some(
                    (JsonV::Arr(Seq::empty() + a), (pos0 + 1 + seg.len()) as nat),
                ));
                assert(Seq::empty() + a =~= a);
                // the parser does not take the empty-array branch: after the
                // whitespace it sees the first element, not ']'
                lemma_pretty_first(a[0], ind2);
                let p0 = pretty(a[0], ind2);
                assert(pe =~= seq!['\n'] + ind2 + p0 + (if a.len() > 1 {
                    seq![','] + pretty_elems(a.drop_first(), ind2)
                } else {
                    Seq::<char>::empty()
                }));
                assert forall|t: int|
                    pos0 + 1 <= t < pos0 + 2 + ind2.len() implies is_ws(#[trigger] s[t]) by {
                    assert(s[pos0 + (t - pos0)] == p[t - pos0]);
                    assert(p[t - pos0] == (seq!['['] + seg)[t - pos0]);
                    if t == pos0 + 1 {
                        assert(seg[0] == pe[0]);
                        assert(pe[0] == '\n');
                    } else {
                        assert(seg[t - pos0 - 1] == pe[t - pos0 - 1]);
                        assert(pe[t - pos0 - 1] == ind2[t - pos0 - 2]);
                    }
                }
                assert(pe[(1 + ind2.len()) as int] == p0[0]);
                assert(seg[(1 + ind2.len()) as int] == pe[(1 + ind2.len()) as int]);
                assert(s[(pos0 + 2 + ind2.len()) as int] == p[(2 + ind2.len()) as int]);
                assert(p[(2 + ind2.len()) as int] == (seq!['['] + seg)[(2 + ind2.len()) as int]);
                assert(s[(pos0 + 2 + ind2.len()) as int] == p0[0]);
                lemma_skip_ws_block(s, pos0 + 1, pos0 + 2 + ind2.len());
                let k = skip_ws(s, pos0 + 1);
                assert(s[k as int] != ']');
                assert(at_least(pos0 + 1, i + 1) == pos0 + 1);
            }
        },
        JsonV::Obj(o) => {
            if o.len() == 0 {
                assert(s[pos0 as int] == '{');
                assert(p[1] == '}');
                assert(s[pos0 as int + 1] == p[1]);
                lemma_skip_ws_block(s, pos0 + 1, pos0 + 1);
            } else {
                let ind2 = ind + seq![' ', ' '];
                let pm = pretty_members(o, ind2);
                let seg = pm + seq!['\n'] + ind + seq!['}'];
                assert(s[pos0 as int] == '{');
                assert(p =~= seq!['{'] + seg);
                assert forall|t: int|
                    0 <= t < seg.len() implies s.subrange(
                    pos0 as int + 1,
                    (pos0 + plen) as int,
                )[t] == seg[t] by {
                    assert(p[1 + t] == (seq!['{'] + seg)[1 + t]);
                    assert(s[pos0 + (1 + t)] == p[1 + t]);
                }
                assert(s.subrange(pos0 as int + 1, (pos0 + 1 + seg.len()) as int) =~= seg);
                lemma_rt_members(o, ind, ind2, s, pos0 + 1, Seq::empty());
                assert(p_members(s, (pos0 + 1) as nat, Seq::empty()) == Some(
                    (JsonV::Obj(Seq::empty() + o), (pos0 + 1 + seg.len()) as nat),
                ));
                assert(Seq::empty() + o =~= o);
                let pv0 = pretty(o[0].1, ind2);
                assert(pm =~= seq!['\n'] + ind2 + seq!['"'] + o[0].0 + seq!['"'] + seq![':', ' ']
                    + pv0 + (if o.len() > 1 {
                    seq![','] + pretty_members(o.drop_first(), ind2)
                } else {
                    Seq::<char>::empty()
                }));
                assert forall|t: int|
                    pos0 + 1 <= t < pos0 + 2 + ind2.len() implies is_ws(#[trigger] s[t]) by {
                    assert(s[pos0 + (t - pos0)] == p[t - pos0]);
                    assert(p[t - pos0] == (seq!['{'] + seg)[t - pos0]);
                    if t == pos0 + 1 {
                        assert(seg[0] == pm[0]);
                        assert(pm[0] == '\n');
                    } else {
                        assert(seg[t - pos0 - 1] == pm[t - pos0 - 1]);
                        assert(pm[t - pos0 - 1] == ind2[t - pos0 - 2]);
                    }
                }
                assert(pm[(1 + ind2.len()) as int] == '"');
                assert(seg[(1 + ind2.len()) as int] == pm[(1 + ind2.len()) as int]);
                assert(s[(pos0 + 2 + ind2.len()) as int] == p[(2 + ind2.len()) as int]);
                assert(p[(2 + ind2.len()) as int] == (seq!['{'] + seg)[(2 + ind2.len()) as int]);
                assert(s[(pos0 + 2 + ind2.len()) as int] == '"');
                lemma_skip_ws_block(s, pos0 + 1, pos0 + 2 + ind2.len());
                let k = skip_ws(s, pos0 + 1);
                assert(s[k as int] != '}');
                assert(at_least(pos0 + 1, i + 1) == pos0 + 1);
            }
        },
    }
}

/// Parsing recovers a printed, non-empty element list followed by the
/// closing line of its array.
#[verifier::rlimit(80)]
proof fn lemma_rt_elems(
    a: Seq<JsonV>,
    ind: Seq<char>,
    ind2: Seq<char>,
    s: Seq<char>,
    k: nat,
    acc: Seq<JsonV>,
)
    requires
        a.len() >= 1,
        forall|t: int| 0 <= t < a.len() ==> wf(#[trigger] a[t]),
        all_spaces(ind),
        ind2 == ind + seq![' ', ' '],
        k + pretty_elems(a, ind2).len() + 2 + ind.len() <= s.len(),
        s.subrange(k as int, (k + pretty_elems(a, ind2).len() + 2 + ind.len()) as int)
            == pretty_elems(a, ind2) + seq!['\n'] + ind + seq![']'],
    ensures
        p_elems(s, k, acc) == Some(
            (JsonV::Arr(acc + a), (k + pretty_elems(a, ind2).len() + 2 + ind.len()) as nat),
        ),
    decreases a, 1int,
{
    let pe = pretty_elems(a, ind2);
    let seg = pe + seq!['\n'] + ind + seq![']'];
    let segend = k + pe.len() + 2 + ind.len();
    let p0 = pretty(a[0], ind2);
    let pos0 = k + 1 + ind2.len();
    let vend = pos0 + p0.len();
    let rest = a.drop_first();
    assert(all_spaces(ind2));
    lemma_embed_index(s, k, seg);
    lemma_pretty_first(a[0], ind2);
    assert(pe =~= seq!['\n'] + ind2 + p0 + (if a.len() > 1 {
        seq![','] + pretty_elems(rest, ind2)
    } else {
        Seq::<char>::empty()
    }));
    // the whitespace before the element
    assert forall|t: int| k <= t < pos0 implies is_ws(#[trigger] s[t]) by {
        assert(s[k + (t - k)] == seg[t - k]);
        if t == k {
            assert(seg[0] == pe[0]);
            assert(pe[0] == '\n');
        } else {
            assert(seg[t - k] == pe[t - k]);
            assert(pe[t - k] == ind2[t - k - 1]);
        }
    }
    // the element itself
    assert forall|t: int|
        0 <= t < p0.len() implies s.subrange(pos0 as int, vend as int)[t] == p0[t] by {
        assert(seg[1 + ind2.len() + t] == pe[1 + ind2.len() + t]);
        assert(pe[1 + ind2.len() + t] == p0[t]);
        assert(s[k + (1 + ind2.len() + t)] == seg[1 + ind2.len() + t]);
    }
    assert(s.subrange(pos0 as int, vend as int) =~= p0);
    // the character after the element
    if a.len() > 1 {
        assert(pe[(1 + ind2.len() + p0.len()) as int] == (seq![','] + pretty_elems(rest, ind2))[0]);
        assert(seg[(vend - k) as int] == pe[(vend - k) as int]);
        assert(s[k + (vend - k)] == seg[(vend - k) as int]);
        assert(s[vend as int] == ',');
    } else {
        assert(pe.len() == 1 + ind2.len() + p0.len());
        assert(seg[(vend - k) as int] == '\n');
        assert(s[k + (vend - k)] == seg[(vend - k) as int]);
        assert(s[vend as int] == '\n');
    }
    lemma_rt_value(a[0], ind2, s, k, pos0);
    assert(p_value(s, k) == Some((a[0], vend as nat)));
    if a.len() > 1 {
        lemma_skip_ws_block(s, vend, vend);
        assert(skip_ws(s, vend) == vend);
        assert(at_least(vend + 1, k + 1) == vend + 1);
        let rseg = pretty_elems(rest, ind2) + seq!['\n'] + ind + seq![']'];
        assert forall|t: int|
            0 <= t < rseg.len() implies s.subrange(vend as int + 1, segend as int)[t]
            == rseg[t] by {
            let u = vend - k + 1 + t;
            assert(s[k + u] == seg[u]);
            if t < pretty_elems(rest, ind2).len() {
                assert(seg[u] == pe[u]);
                assert(pe[u] == (seq![','] + pretty_elems(rest, ind2))[1 + t]);
            } else {
                assert(pe.len() == 1 + ind2.len() + p0.len() + 1 + pretty_elems(rest, ind2).len());
                assert(seg[u] == (seq!['\n'] + ind + seq![']'])[u - pe.len()]);
                assert(rseg[t] == (seq!['\n'] + ind + seq![']'])[t - pretty_elems(
                    rest,
                    ind2,
                ).len()]);
            }
        }
        assert(s.subrange(vend as int + 1, segend as int) =~= rseg);
        lemma_rt_elems(rest, ind, ind2, s, vend + 1, acc.push(a[0]));
        assert(acc.push(a[0]) + rest =~= acc + a);
        assert(vend + 1 + pretty_elems(rest, ind2).len() + 2 + ind.len() == segend);
    } else {
        assert forall|t: int| vend <= t < vend + 1 + ind.len() implies is_ws(#[trigger] s[t]) by {
            let u = t - k;
            assert(s[k + u] == seg[u]);
            if t > vend {
                assert(seg[u] == ind[u - pe.len() - 1]);
            }
        }
        assert(seg[(pe.len() + 1 + ind.len()) as int] == ']');
        assert(s[(k + pe.len() + 1 + ind.len()) as int] == seg[(pe.len() + 1 + ind.len()) as int]);
        assert(s[(vend + 1 + ind.len()) as int] == ']');
        lemma_skip_ws_block(s, vend, vend + 1 + ind.len());
        let w = skip_ws(s, vend);
        assert(s[w as int] == ']');
        assert(acc.push(a[0]) =~= acc + a);
        assert(w + 1 == segend);
    }
}

/// Parsing recovers a printed, non-empty member list followed by the closing
/// line of its object.
#[verifier::rlimit(80)]
proof fn lemma_rt_members(
    o: Seq<(Seq<char>, JsonV)>,
    ind: Seq<char>,
    ind2: Seq<char>,
    s: Seq<char>,
    k: nat,
    acc: Seq<(Seq<char>, JsonV)>,
)
    requires
        o.len() >= 1,
        forall|t: int| 0 <= t < o.len() ==> str_ok(#[trigger] o[t].0) && wf(o[t].1),
        all_spaces(ind),
        ind2 == ind + seq![' ', ' '],
        k + pretty_members(o, ind2).len() + 2 + ind.len() <= s.len(),
        s.subrange(k as int, (k + pretty_members(o, ind2).len() + 2 + ind.len()) as int)
            == pretty_members(o, ind2) + seq!['\n'] + ind + seq!['}'],
    ensures
        p_members(s, k, acc) == Some(
            (JsonV::Obj(acc + o), (k + pretty_members(o, ind2).len() + 2 + ind.len()) as nat),
        ),
    decreases o, 1int,
{
    let pm = pretty_members(o, ind2);
    let seg = pm + seq!['\n'] + ind + seq!['}'];
    let segend = k + pm.len() + 2 + ind.len();
    let key = o[0].0;
    let pv = pretty(o[0].1, ind2);
    let j = k + 1 + ind2.len();
    let e = j + 1 + key.len();
    let vpos = e + 3;
    let vend = vpos + pv.len();
    let rest = o.drop_first();
    assert(all_spaces(ind2));
    lemma_embed_index(s, k, seg);
    assert(pm =~= seq!['\n'] + ind2 + seq!['"'] + key + seq!['"'] + seq![':', ' '] + pv + (
    if o.len() > 1 {
        seq![','] + pretty_members(rest, ind2)
    } else {
        Seq::<char>::empty()
    }));
    // the whitespace before the key
    assert forall|t: int| k <= t < j implies is_ws(#[trigger] s[t]) by {
        assert(s[k + (t - k)] == seg[t - k]);
        if t == k {
            assert(seg[0] == pm[0]);
            assert(pm[0] == '\n');
        } else {
            assert(seg[t - k] == pm[t - k]);
            assert(pm[t - k] == ind2[t - k - 1]);
        }
    }
    // the opening quote of the key
    assert(pm[(1 + ind2.len()) as int] == '"');
    assert(seg[(j - k) as int] == pm[(j - k) as int]);
    assert(s[k + (j - k)] == seg[(j - k) as int]);
    assert(s[j as int] == '"');
    lemma_skip_ws_block(s, k, j);
    // the key and its closing quote
    assert forall|t: int|
        0 <= t < key.len() implies s.subrange(j as int + 1, e as int)[t] == key[t] by {
        let u = j - k + 1 + t;
        assert(s[k + u] == seg[u]);
        assert(seg[u] == pm[u]);
        assert(pm[u] == key[t]);
    }
    assert(s.subrange(j as int + 1, e as int) =~= key);
    assert(pm[(e - k) as int] == '"');
    assert(seg[(e - k) as int] == pm[(e - k) as int]);
    assert(s[k + (e - k)] == seg[(e - k) as int]);
    assert(s[e as int] == '"');
    lemma_string_end_embedded(s, j + 1, key);
    assert(p_string_end(s, j + 1) == Some(e as nat));
    assert(s.subrange(j as int + 1, e as int) == key);
    // the colon and the space
    assert(pm[(e - k + 1) as int] == ':');
    assert(seg[(e - k + 1) as int] == pm[(e - k + 1) as int]);
    assert(s[k + (e - k + 1)] == seg[(e - k + 1) as int]);
    assert(s[e as int + 1] == ':');
    lemma_skip_ws_block(s, e + 1, e + 1);
    assert(skip_ws(s, e + 1) == e + 1);
    assert(at_least(e + 2, k + 1) == e + 2);
    assert(pm[(e - k + 2) as int] == ' ');
    assert(seg[(e - k + 2) as int] == pm[(e - k + 2) as int]);
    assert(s[k + (e - k + 2)] == seg[(e - k + 2) as int]);
    assert(s[e as int + 2] == ' ');
    assert(forall|t: int| e + 2 <= t < vpos ==> is_ws(#[trigger] s[t]));
    // the value
    assert forall|t: int|
        0 <= t < pv.len() implies s.subrange(vpos as int, vend as int)[t] == pv[t] by {
        let u = vpos - k + t;
        assert(s[k + u] == seg[u]);
        assert(seg[u] == pm[u]);
        assert(pm[u] == pv[t]);
    }
    assert(s.subrange(vpos as int, vend as int) =~= pv);
    // the character after the value
    if o.len() > 1 {
        assert(pm[(vend - k) as int] == (seq![','] + pretty_members(rest, ind2))[0]);
        assert(seg[(vend - k) as int] == pm[(vend - k) as int]);
        assert(s[k + (vend - k)] == seg[(vend - k) as int]);
        assert(s[vend as int] == ',');
    } else {
        assert(pm.len() == vend - k);
        assert(seg[(vend - k) as int] == '\n');
        assert(s[k + (vend - k)] == seg[(vend - k) as int]);
        assert(s[vend as int] == '\n');
    }
    lemma_rt_value(o[0].1, ind2, s, e + 2, vpos);
    assert(p_value(s, (e + 2) as nat) == Some((o[0].1, vend as nat)));
    if o.len() > 1 {
        lemma_skip_ws_block(s, vend, vend);
        assert(at_least(vend + 1, k + 1) == vend + 1);
        let rseg = pretty_members(rest, ind2) + seq!['\n'] + ind + seq!['}'];
        assert forall|t: int|
            0 <= t < rseg.len() implies s.subrange(vend as int + 1, segend as int)[t]
            == rseg[t] by {
            let u = vend - k + 1 + t;
            assert(s[k + u] == seg[u]);
            if t < pretty_members(rest, ind2).len() {
                assert(seg[u] == pm[u]);
                assert(pm[u] == (seq![','] + pretty_members(rest, ind2))[1 + t]);
            } else {
                assert(pm.len() == 1 + ind2.len() + 1 + key.len() + 1 + 2 + pv.len() + 1
                    + pretty_members(rest, ind2).len());
                assert(seg[u] == (seq!['\n'] + ind + seq!['}'])[u - pm.len()]);
                assert(rseg[t] == (seq!['\n'] + ind + seq!['}'])[t - pretty_members(
                    rest,
                    ind2,
                ).len()]);
            }
        }
        assert(s.subrange(vend as int + 1, segend as int) =~= rseg);
        lemma_rt_members(rest, ind, ind2, s, vend + 1, acc.push((key, o[0].1)));
        assert(acc.push((key, o[0].1)) + rest =~= acc + o);
        assert(vend + 1 + pretty_members(rest, ind2).len() + 2 + ind.len() == segend);
    } else {
        assert forall|t: int| vend <= t < vend + 1 + ind.len() implies is_ws(#[trigger] s[t]) by {
            let u = t - k;
            assert(s[k + u] == seg[u]);
            if t > vend {
                assert(seg[u] == ind[u - pm.len() - 1]);
            }
        }
        assert(seg[(pm.len() + 1 + ind.len()) as int] == '}');
        assert(s[(k + pm.len() + 1 + ind.len()) as int] == seg[(pm.len() + 1 + ind.len()) as int]);
        assert(s[(vend + 1 + ind.len()) as int] == '}');
        lemma_skip_ws_block(s, vend, vend + 1 + ind.len());
        let w = skip_ws(s, vend);
        assert(s[w as int] == '}');
        assert(acc.push((key, o[0].1)) =~= acc + o);
        assert(w + 1 == segend);
    }
}

/// Law: for every well-formed JSON value, parsing its pretty-printed text
/// yields the value back. Together with the parser's guarantee that every
/// parsed value is well-formed, re-serializing and re-parsing any parsed
/// text is the identity.
pub proof fn lemma_pretty_roundtrip(v: JsonV)
    requires
        wf(v),
    ensures
        p_parse(pretty(v, Seq::empty())) == Some(v),
{
    let s = pretty(v, Seq::empty());
    assert(s.subrange(0, s.len() as int) =~= s);
    lemma_rt_value(v, Seq::empty(), s, 0, 0);
    assert(p_value(s, 0) == Some((v, s.len() as nat)));
}

/// Law, at the level of parsed texts: a text that parses at all parses to a
/// well-formed value, and pretty-printing that value gives a text that
/// parses to the same value.
pub proof fn lemma_parse_print_parse(s: Seq<char>)
    ensures
        match p_parse(s) {
            Some(v) => wf(v) && p_parse(pretty(v, Seq::empty())) == Some(v),
            None => true,
        },
{
    crate::parse::lemma_p_parse_wf(s);
    match p_parse(s) {
        Some(v) => lemma_pretty_roundtrip(v),
        None => {},
    }
}

} // verus!
