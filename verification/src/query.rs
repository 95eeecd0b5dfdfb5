//! Query text handling: splitting a query into whitespace-separated
//! tokens and rewriting each token against the schema registry.
//!
//! The engine supports two query forms: a bare term, which is searched in
//! the content field (and, for a field-scoped search, in each requested
//! registered field), and `field:value`, which is searched in that field
//! alone. The reserved fields `id` and `content` may always be named;
//! a `field:value` clause whose field is neither reserved nor registered
//! matches nothing and is dropped rather than reported as an error.
//! Registered metadata fields live under the index's `meta` object, so
//! `field:value` is rewritten to `meta.field:value`.

use vstd::prelude::*;

use crate::schema::{contains_name, SchemaRegistry};

verus! {

/// The first position at or after `i` where `c` occurs in `s`, or
/// `s.len()` if there is none.
pub open spec fn next_pos(s: Seq<char>, i: int, c: char) -> int
    decreases s.len() - i,
{
    if i < 0 || i >= s.len() {
        s.len() as int
    } else if s[i] == c {
        i
    } else {
        next_pos(s, i + 1, c)
    }
}

/// Bounds and characterization of [`next_pos`].
pub proof fn lemma_next_pos(s: Seq<char>, i: int, c: char)
    requires
        0 <= i <= s.len(),
    ensures
        i <= next_pos(s, i, c) <= s.len(),
        forall|j: int| i <= j < next_pos(s, i, c) ==> s[j] != c,
        next_pos(s, i, c) < s.len() ==> s[next_pos(s, i, c)] == c,
    decreases s.len() - i,
{
    if i < s.len() && s[i] != c {
        lemma_next_pos(s, i + 1, c);
    }
}

/// The whitespace-separated tokens of `s`, starting at position `i`:
/// the maximal runs of non-space characters.
pub open spec fn split_from(s: Seq<char>, i: int) -> Seq<Seq<char>>
    decreases s.len() - i,
        when 0 <= i <= s.len()
        via split_from_decreases
{
    if i >= s.len() {
        Seq::empty()
    } else if s[i] == ' ' {
        split_from(s, i + 1)
    } else {
        seq![s.subrange(i, next_pos(s, i, ' '))] + split_from(s, next_pos(s, i, ' '))
    }
}

#[via_fn]
proof fn split_from_decreases(s: Seq<char>, i: int) {
    if 0 <= i && i < s.len() && s[i] != ' ' {
        lemma_next_pos(s, i, ' ');
        assert(next_pos(s, i, ' ') > i) by {
            assert(s[i] != ' ');
        }
    }
}

/// The whitespace-separated tokens of `s`.
pub open spec fn split_spaces(s: Seq<char>) -> Seq<Seq<char>> {
    split_from(s, 0)
}

/// The index term that searches `value` under the registered metadata
/// field `field`.
pub open spec fn meta_term(field: Seq<char>, value: Seq<char>) -> Seq<char> {
    "meta."@ + field + ":"@ + value
}

/// The scoped copies of a bare term: one `meta.field:term` clause for each
/// requested field that is registered, in request order.
pub open spec fn scoped_terms(t: Seq<char>, fields: Seq<Seq<char>>, reg: Seq<Seq<char>>) -> Seq<
    Seq<char>,
>
    decreases fields.len(),
{
    if fields.len() == 0 {
        Seq::empty()
    } else {
        (if contains_name(reg, fields[0]) {
            seq![meta_term(fields[0], t)]
        } else {
            Seq::empty()
        }) + scoped_terms(t, fields.drop_first(), reg)
    }
}

/// The rewriting of one token. A bare token is kept and scoped to the
/// requested fields; a `field:value` token is kept for the reserved fields,
/// rewritten to `meta.field:value` for a registered field, and dropped
/// (matches nothing) otherwise, as well as when its field or value part is
/// empty.
pub open spec fn rewrite_token(t: Seq<char>, fields: Seq<Seq<char>>, reg: Seq<Seq<char>>) -> Seq<
    Seq<char>,
> {
    let p = next_pos(t, 0, ':');
    if p == t.len() {
        seq![t] + scoped_terms(t, fields, reg)
    } else {
        let f = t.take(p);
        let v = t.skip(p + 1);
        if f.len() == 0 || v.len() == 0 {
            Seq::empty()
        } else if f == "id"@ || f == "content"@ {
            seq![t]
        } else if contains_name(reg, f) {
            seq![meta_term(f, v)]
        } else {
            Seq::empty()
        }
    }
}

/// The rewriting of a token list, in order.
pub open spec fn rewrite_tokens(ts: Seq<Seq<char>>, fields: Seq<Seq<char>>, reg: Seq<Seq<char>>) -> Seq<
    Seq<char>,
>
    decreases ts.len(),
{
    if ts.len() == 0 {
        Seq::empty()
    } else {
        rewrite_token(ts[0], fields, reg) + rewrite_tokens(ts.drop_first(), fields, reg)
    }
}

/// Tokens joined back into one query string with single spaces.
pub open spec fn join_spaces(ts: Seq<Seq<char>>) -> Seq<char>
    decreases ts.len(),
{
    if ts.len() == 0 {
        Seq::empty()
    } else if ts.len() == 1 {
        ts[0]
    } else {
        ts[0] + seq![' '] + join_spaces(ts.drop_first())
    }
}

/// The full rewriting of a query against a set of requested fields and the
/// registry: tokenize, rewrite each token, join.
pub open spec fn rewrite_query_spec(q: Seq<char>, fields: Seq<Seq<char>>, reg: Seq<Seq<char>>) -> Seq<
    char,
> {
    join_spaces(rewrite_tokens(split_spaces(q), fields, reg))
}

/// Rewriting a snoc'd token list appends that token's rewriting.
proof fn lemma_rewrite_tokens_push(
    ts: Seq<Seq<char>>,
    t: Seq<char>,
    fields: Seq<Seq<char>>,
    reg: Seq<Seq<char>>,
)
    ensures
        rewrite_tokens(ts.push(t), fields, reg) == rewrite_tokens(ts, fields, reg) + rewrite_token(
            t,
            fields,
            reg,
        ),
    decreases ts.len(),
{
    if ts.len() == 0 {
        assert(ts.push(t)[0] == t);
        assert(ts.push(t).drop_first() =~= ts);
        assert(rewrite_tokens(ts.push(t), fields, reg) == rewrite_token(t, fields, reg)
            + rewrite_tokens(ts, fields, reg));
        assert(rewrite_tokens(ts, fields, reg) =~~= Seq::<Seq<char>>::empty());
        assert(rewrite_tokens(ts.push(t), fields, reg) =~~= rewrite_tokens(ts, fields, reg)
            + rewrite_token(t, fields, reg));
    } else {
        assert(ts.push(t).drop_first() =~= ts.drop_first().push(t));
        lemma_rewrite_tokens_push(ts.drop_first(), t, fields, reg);
        assert(ts.push(t)[0] == ts[0]);
        assert(rewrite_tokens(ts.push(t), fields, reg) =~~= rewrite_tokens(ts, fields, reg)
            + rewrite_token(t, fields, reg));
    }
}

/// Joining a snoc'd token list appends a space and that token (or is the
/// token alone for a singleton).
proof fn lemma_join_spaces_push(ts: Seq<Seq<char>>, t: Seq<char>)
    ensures
        ts.len() == 0 ==> join_spaces(ts.push(t)) == t,
        ts.len() > 0 ==> join_spaces(ts.push(t)) == join_spaces(ts) + seq![' '] + t,
    decreases ts.len(),
{
    if ts.len() == 0 {
        assert(ts.push(t)[0] == t);
    } else if ts.len() == 1 {
        assert(ts.push(t)[0] == ts[0]);
        assert(ts.push(t).drop_first() =~= seq![t]);
        assert(join_spaces(seq![t]) == t);
    } else {
        assert(ts.push(t).drop_first() =~= ts.drop_first().push(t));
        lemma_join_spaces_push(ts.drop_first(), t);
        assert(ts.push(t)[0] == ts[0]);
    }
}

/// Splits `q` into its whitespace-separated tokens.
pub fn tokenize(q: &str) -> (r: Vec<String>)
    ensures
        r@.map_values(|t: String| t@) == split_spaces(q@),
{
    let n = q.unicode_len();
    let mut toks: Vec<String> = Vec::new();
    let mut i: usize = 0;
    while i < n
        invariant
            n == q@.len(),
            i <= n,
            toks@.map_values(|t: String| t@) + split_from(q@, i as int) == split_spaces(q@),
        decreases n - i,
    {
        if q.get_char(i) == ' ' {
            proof {
                assert(toks@.map_values(|t: String| t@) + split_from(q@, i as int)
                    =~= toks@.map_values(|t: String| t@) + split_from(q@, i as int + 1));
            }
            i = i + 1;
        } else {
            let ghost e = next_pos(q@, i as int, ' ');
            proof {
                lemma_next_pos(q@, i as int, ' ');
            }
            let mut j: usize = i + 1;
            while j < n
                invariant_except_break
                    j as int <= e,
                invariant
                    n == q@.len(),
                    i < j <= n,
                    e == next_pos(q@, i as int, ' '),
                    next_pos(q@, j as int, ' ') == e,
                ensures
                    j as int == e,
                decreases n - j,
            {
                if q.get_char(j) == ' ' {
                    proof {
                        assert(next_pos(q@, j as int, ' ') == j as int);
                    }
                    break ;
                }
                proof {
                    assert(next_pos(q@, j as int, ' ') == next_pos(q@, j as int + 1, ' '));
                    lemma_next_pos(q@, j as int + 1, ' ');
                }
                j = j + 1;
            }
            let token = q.substring_char(i, j).to_owned();
            let ghost pre = toks@.map_values(|t: String| t@);
            toks.push(token);
            proof {
                assert(toks@.map_values(|t: String| t@) =~= pre.push(q@.subrange(i as int, e)));
                assert(split_from(q@, i as int) == seq![q@.subrange(i as int, e)] + split_from(
                    q@,
                    e,
                ));
                assert(pre.push(q@.subrange(i as int, e)) + split_from(q@, e) =~= pre + split_from(
                    q@,
                    i as int,
                ));
            }
            i = j;
        }
    }
    proof {
        assert(toks@.map_values(|t: String| t@) + split_from(q@, n as int) =~= toks@.map_values(
            |t: String| t@,
        ));
    }
    toks
}

/// Builds the `meta.field:value` term for a registered metadata field.
fn make_meta_term(field: &String, value: &String) -> (r: String)
    ensures
        r@ == meta_term(field@, value@),
{
    let mut out = String::new();
    out.append("meta.");
    out.append(field.as_str());
    out.append(":");
    out.append(value.as_str());
    proof {
        assert(out@ =~= meta_term(field@, value@));
    }
    out
}

/// Rewrites one token, appending the result to `out`.
fn push_rewritten_token(
    out: &mut Vec<String>,
    token: &String,
    fields: &Vec<String>,
    registry: &SchemaRegistry,
)
    ensures
        final(out)@.map_values(|t: String| t@) == old(out)@.map_values(|t: String| t@)
            + rewrite_token(token@, fields@.map_values(|f: String| f@), registry@),
{
    let n = token.as_str().unicode_len();
    proof {
        lemma_next_pos(token@, 0, ':');
    }
    let ghost p = next_pos(token@, 0, ':');
    let mut k: usize = 0;
    while k < n
        invariant_except_break
            k as int <= p,
        invariant
            n == token@.len(),
            k <= n,
            p == next_pos(token@, 0, ':'),
            next_pos(token@, k as int, ':') == p,
        ensures
            k as int == p,
        decreases n - k,
    {
        if token.as_str().get_char(k) == ':' {
            proof {
                assert(next_pos(token@, k as int, ':') == k as int);
            }
            break ;
        }
        proof {
            assert(next_pos(token@, k as int, ':') == next_pos(token@, k as int + 1, ':'));
            lemma_next_pos(token@, k as int + 1, ':');
        }
        k = k + 1;
    }
    let ghost pre = out@.map_values(|t: String| t@);
    let ghost fv = fields@.map_values(|f: String| f@);
    if k == n {
        // bare term: keep it, then scope it to each requested registered field
        out.push(token.clone());
        let mut fi: usize = 0;
        while fi < fields.len()
            invariant
                fi <= fields.len(),
                fv == fields@.map_values(|f: String| f@),
                out@.map_values(|t: String| t@) == pre + seq![token@] + scoped_terms(
                    token@,
                    fv.take(fi as int),
                    registry@,
                ),
            decreases fields.len() - fi,
        {
            let ghost outpre = out@.map_values(|t: String| t@);
            if registry.is_registered(&fields[fi]) {
                out.push(make_meta_term(&fields[fi], token));
                proof {
                    assert(out@.map_values(|t: String| t@) =~= outpre.push(
                        meta_term(fv[fi as int], token@),
                    ));
                }
            }
            proof {
                lemma_scoped_terms_take(token@, fv, registry@, fi as int);
            }
            fi = fi + 1;
        }
        proof {
            assert(fv.take(fields@.len() as int) =~= fv);
            assert(rewrite_token(token@, fv, registry@) == seq![token@] + scoped_terms(
                token@,
                fv,
                registry@,
            ));
            assert(out@.map_values(|t: String| t@) =~= pre + rewrite_token(
                token@,
                fv,
                registry@,
            ));
        }
    } else {
        // field:value form
        let field = token.as_str().substring_char(0, k).to_owned();
        let value = token.as_str().substring_char(k + 1, n).to_owned();
        proof {
            assert(field@ == token@.take(p));
            assert(value@ =~= token@.skip(p + 1));
        }
        if field.as_str().unicode_len() == 0 || value.as_str().unicode_len() == 0 {
            // dropped: empty field or value part
        } else if crate::schema::string_eq_literal(&field, "id") || crate::schema::string_eq_literal(
            &field,
            "content",
        ) {
            out.push(token.clone());
            proof {
                assert(out@.map_values(|t: String| t@) =~= pre.push(token@));
                assert(seq![token@] =~= pre.push(token@).skip(pre.len() as int));
            }
        } else if registry.is_registered(&field) {
            out.push(make_meta_term(&field, &value));
            proof {
                assert(out@.map_values(|t: String| t@) =~= pre.push(meta_term(field@, value@)));
            }
        } else {
            // dropped: the field is neither reserved nor registered
        }
        proof {
            assert(out@.map_values(|t: String| t@) =~= pre + rewrite_token(
                token@,
                fv,
                registry@,
            ));
        }
    }
}

/// `scoped_terms` over one more requested field appends that field's
/// clause when it is registered.
proof fn lemma_scoped_terms_take(t: Seq<char>, fields: Seq<Seq<char>>, reg: Seq<Seq<char>>, i: int)
    requires
        0 <= i < fields.len(),
    ensures
        scoped_terms(t, fields.take(i + 1), reg) == scoped_terms(t, fields.take(i), reg) + (
        if contains_name(reg, fields[i]) {
            seq![meta_term(fields[i], t)]
        } else {
            Seq::<Seq<char>>::empty()
        }),
    decreases i,
{
    if i == 0 {
        assert(fields.take(1)[0] == fields[0]);
        assert(fields.take(1).drop_first() =~= Seq::<Seq<char>>::empty());
        assert(fields.take(0) =~= Seq::<Seq<char>>::empty());
        assert(scoped_terms(t, fields.take(1), reg) =~= scoped_terms(t, fields.take(0), reg) + (
        if contains_name(reg, fields[0]) {
            seq![meta_term(fields[0], t)]
        } else {
            Seq::<Seq<char>>::empty()
        }));
    } else {
        lemma_scoped_terms_take(t, fields.drop_first(), reg, i - 1);
        assert(fields.take(i + 1)[0] == fields[0]);
        assert(fields.take(i + 1).drop_first() =~= fields.drop_first().take(i));
        assert(fields.take(i)[0] == fields[0]);
        assert(fields.take(i).drop_first() =~= fields.drop_first().take(i - 1));
        assert(fields.drop_first()[i - 1] == fields[i]);
        assert(scoped_terms(t, fields.take(i + 1), reg) =~= scoped_terms(t, fields.take(i), reg) + (
        if contains_name(reg, fields[i]) {
            seq![meta_term(fields[i], t)]
        } else {
            Seq::<Seq<char>>::empty()
        }));
    }
}

/// Rewrites a full query against the requested fields and the registry.
pub fn rewrite_query(q: &str, fields: &Vec<String>, registry: &SchemaRegistry) -> (r: String)
    ensures
        r@ == rewrite_query_spec(q@, fields@.map_values(|f: String| f@), registry@),
{
    let ghost fv = fields@.map_values(|f: String| f@);
    let tokens = tokenize(q);
    let mut rewritten: Vec<String> = Vec::new();
    let mut i: usize = 0;
    while i < tokens.len()
        invariant
            fv == fields@.map_values(|f: String| f@),
            tokens@.map_values(|t: String| t@) == split_spaces(q@),
            i <= tokens.len(),
            rewritten@.map_values(|t: String| t@) == rewrite_tokens(
                tokens@.map_values(|t: String| t@).take(i as int),
                fv,
                registry@,
            ),
        decreases tokens.len() - i,
    {
        push_rewritten_token(&mut rewritten, &tokens[i], fields, registry);
        proof {
            let tv = tokens@.map_values(|t: String| t@);
            assert(tv.take(i as int).push(tv[i as int]) =~= tv.take(i as int + 1));
            lemma_rewrite_tokens_push(tv.take(i as int), tv[i as int], fv, registry@);
        }
        i = i + 1;
    }
    proof {
        let tv = tokens@.map_values(|t: String| t@);
        assert(tv.take(tokens@.len() as int) =~= tv);
    }
    let mut out = String::new();
    let mut k: usize = 0;
    while k < rewritten.len()
        invariant
            k <= rewritten.len(),
            out@ == join_spaces(rewritten@.map_values(|t: String| t@).take(k as int)),
        decreases rewritten.len() - k,
    {
        if k > 0 {
            out.append(" ");
        }
        out.append(rewritten[k].as_str());
        proof {
            reveal_strlit(" ");
            assert(" "@ =~= seq![' ']);
            let rv = rewritten@.map_values(|t: String| t@);
            assert(rv.take(k as int).push(rv[k as int]) =~= rv.take(k as int + 1));
            lemma_join_spaces_push(rv.take(k as int), rv[k as int]);
            if k == 0 {
                assert(out@ =~= join_spaces(rv.take(k as int + 1)));
            } else {
                assert(out@ =~= join_spaces(rv.take(k as int + 1)));
            }
        }
        k = k + 1;
    }
    proof {
        let rv = rewritten@.map_values(|t: String| t@);
        assert(rv.take(rewritten@.len() as int) =~= rv);
    }
    out
}

} // verus!
