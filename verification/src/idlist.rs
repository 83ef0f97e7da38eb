//! The comma-joined id-list codec: a table's item membership is stored as one
//! text column, split into id tokens on read and re-joined on every write.
//! `split_spec` and `join_spec` say exactly what the executable split, join
//! and filter functions do, and the round-trip lemmas relate them: joining the
//! tokens of a split restores the text, and splitting a join of comma-free
//! tokens restores the tokens.

use vstd::prelude::*;
use vstd::string::*;

verus! {

/// Splitting text on `','`, exactly as an empty separator-delimited scan does:
/// the empty text yields one empty token, and every comma opens a new token.
pub open spec fn split_spec(s: Seq<char>) -> Seq<Seq<char>>
    decreases s.len(),
{
    if s.len() == 0 {
        seq![Seq::<char>::empty()]
    } else if s[0] == ',' {
        seq![Seq::<char>::empty()] + split_spec(s.drop_first())
    } else {
        let r = split_spec(s.drop_first());
        seq![seq![s[0]] + r[0]] + r.drop_first()
    }
}

/// Joining tokens with `','` between neighbours.
pub open spec fn join_spec(parts: Seq<Seq<char>>) -> Seq<char>
    decreases parts.len(),
{
    if parts.len() == 0 {
        Seq::<char>::empty()
    } else if parts.len() == 1 {
        parts[0]
    } else {
        parts[0] + seq![','] + join_spec(parts.drop_first())
    }
}

/// The tokens equal to `t`, in order.
pub open spec fn keep_matching(parts: Seq<Seq<char>>, t: Seq<char>) -> Seq<Seq<char>>
    decreases parts.len(),
{
    if parts.len() == 0 {
        Seq::<Seq<char>>::empty()
    } else {
        let rest = keep_matching(parts.drop_first(), t);
        if parts[0] == t {
            seq![parts[0]] + rest
        } else {
            rest
        }
    }
}

/// The tokens other than `t`, in order.
pub open spec fn drop_matching(parts: Seq<Seq<char>>, t: Seq<char>) -> Seq<Seq<char>>
    decreases parts.len(),
{
    if parts.len() == 0 {
        Seq::<Seq<char>>::empty()
    } else {
        let rest = drop_matching(parts.drop_first(), t);
        if parts[0] == t {
            rest
        } else {
            seq![parts[0]] + rest
        }
    }
}

/// How often `t` occurs among the tokens.
pub open spec fn count_matching(parts: Seq<Seq<char>>, t: Seq<char>) -> nat
    decreases parts.len(),
{
    if parts.len() == 0 {
        0
    } else {
        (if parts[0] == t {
            1nat
        } else {
            0nat
        }) + count_matching(parts.drop_first(), t)
    }
}

pub open spec fn comma_free(p: Seq<char>) -> bool {
    forall|i: int| 0 <= i < p.len() ==> p[i] != ','
}

pub proof fn lemma_split_len(s: Seq<char>)
    ensures
        split_spec(s).len() >= 1,
    decreases s.len(),
{
    if s.len() > 0 {
        lemma_split_len(s.drop_first());
    }
}

/// Appending one character extends the last token, or opens a fresh empty one
/// when the character is the separator.
pub proof fn lemma_split_push(s: Seq<char>, c: char)
    ensures
        c == ',' ==> split_spec(s + seq![c]) == split_spec(s) + seq![Seq::<char>::empty()],
        c != ',' ==> split_spec(s + seq![c]) == split_spec(s).drop_last() + seq![
            split_spec(s).last() + seq![c],
        ],
    decreases s.len(),
{
    let t = s + seq![c];
    lemma_split_len(s);
    if s.len() == 0 {
        assert(t =~= seq![c]);
        assert(t.len() == 1);
        assert(t[0] == c);
        assert(t.drop_first() =~= Seq::<char>::empty());
        assert(s =~= Seq::<char>::empty());
        assert(split_spec(Seq::<char>::empty()) == seq![Seq::<char>::empty()]);
        if c == ',' {
            assert(split_spec(t) == seq![Seq::<char>::empty()] + split_spec(t.drop_first()));
            assert(split_spec(t) =~~= split_spec(s) + seq![Seq::<char>::empty()]);
        } else {
            assert(split_spec(t) == seq![seq![t[0]] + split_spec(t.drop_first())[0]] + split_spec(
                t.drop_first(),
            ).drop_first());
            assert(split_spec(t) =~~= split_spec(s).drop_last() + seq![
                split_spec(s).last() + seq![c],
            ]);
        }
    } else {
        lemma_split_push(s.drop_first(), c);
        lemma_split_len(s.drop_first());
        assert(t.drop_first() =~= s.drop_first() + seq![c]);
        assert(t[0] == s[0]);
        let r = split_spec(s.drop_first());
        let rt = split_spec(t.drop_first());
        if s[0] == ',' {
            if c == ',' {
                assert(split_spec(t) =~~= split_spec(s) + seq![Seq::<char>::empty()]);
            } else {
                assert(split_spec(s).last() == r.last());
                assert(split_spec(s).drop_last() =~~= seq![Seq::<char>::empty()] + r.drop_last());
                assert(split_spec(t) =~~= split_spec(s).drop_last() + seq![
                    split_spec(s).last() + seq![c],
                ]);
            }
        } else {
            if c == ',' {
                assert(rt[0] == r[0]);
                assert(rt.drop_first() =~~= r.drop_first() + seq![Seq::<char>::empty()]);
                assert(split_spec(t) =~~= split_spec(s) + seq![Seq::<char>::empty()]);
            } else {
                if r.len() == 1 {
                    assert(rt =~~= seq![r[0] + seq![c]]);
                    assert(split_spec(t) =~~= seq![seq![s[0]] + r[0] + seq![c]]);
                    assert(split_spec(s) =~~= seq![seq![s[0]] + r[0]]);
                    assert(split_spec(s).last() + seq![c] =~= seq![s[0]] + r[0] + seq![c]);
                    assert(split_spec(t) =~~= split_spec(s).drop_last() + seq![
                        split_spec(s).last() + seq![c],
                    ]);
                } else {
                    assert(rt[0] == r[0]);
                    assert(rt.drop_first() =~~= r.drop_first().drop_last() + seq![
                        r.last() + seq![c],
                    ]);
                    assert(split_spec(s).last() == r.last());
                    assert(split_spec(s).drop_last() =~~= seq![seq![s[0]] + r[0]] + r.drop_first().drop_last());
                    assert(split_spec(t) =~~= split_spec(s).drop_last() + seq![
                        split_spec(s).last() + seq![c],
                    ]);
                }
            }
        }
    }
}

/// Appending one token appends a separator (when anything precedes) and the
/// token's text.
pub proof fn lemma_join_push(parts: Seq<Seq<char>>, p: Seq<char>)
    ensures
        parts.len() == 0 ==> join_spec(parts + seq![p]) == p,
        parts.len() > 0 ==> join_spec(parts + seq![p]) == join_spec(parts) + seq![','] + p,
    decreases parts.len(),
{
    let t = parts + seq![p];
    if parts.len() == 0 {
        assert(t =~= seq![p]);
        assert(join_spec(t) == p);
    } else if parts.len() == 1 {
        assert(t.len() == 2);
        assert(t[0] == parts[0]);
        assert(t.drop_first() =~= seq![p]);
        assert(join_spec(t.drop_first()) == p);
        assert(join_spec(t) == t[0] + seq![','] + join_spec(t.drop_first()));
        assert(join_spec(parts) == parts[0]);
        assert(join_spec(t) =~= join_spec(parts) + seq![','] + p);
    } else {
        lemma_join_push(parts.drop_first(), p);
        assert(t.drop_first() =~= parts.drop_first() + seq![p]);
        assert(t[0] == parts[0]);
        let j = join_spec(parts.drop_first());
        assert(join_spec(t.drop_first()) == j + seq![','] + p);
        assert(join_spec(t) == t[0] + seq![','] + join_spec(t.drop_first()));
        assert(join_spec(parts) == parts[0] + seq![','] + j);
        assert(join_spec(t) =~= join_spec(parts) + seq![','] + p);
    }
}

pub proof fn lemma_keep_push(parts: Seq<Seq<char>>, t: Seq<char>, p: Seq<char>)
    ensures
        keep_matching(parts + seq![p], t) == keep_matching(parts, t) + (if p == t {
            seq![p]
        } else {
            Seq::<Seq<char>>::empty()
        }),
    decreases parts.len(),
{
    let w = parts + seq![p];
    let tail = (if p == t {
        seq![p]
    } else {
        Seq::<Seq<char>>::empty()
    });
    if parts.len() == 0 {
        assert(w =~= seq![p]);
        assert(w[0] == p);
        assert(w.drop_first() =~= Seq::<Seq<char>>::empty());
        assert(parts =~= Seq::<Seq<char>>::empty());
        assert(keep_matching(Seq::<Seq<char>>::empty(), t) == Seq::<Seq<char>>::empty());
        assert(keep_matching(w, t) =~~= keep_matching(parts, t) + tail);
    } else {
        lemma_keep_push(parts.drop_first(), t, p);
        assert(w.drop_first() =~= parts.drop_first() + seq![p]);
        assert(w[0] == parts[0]);
        let k = keep_matching(parts.drop_first(), t);
        assert(keep_matching(w.drop_first(), t) == k + tail);
        if parts[0] == t {
            assert(keep_matching(w, t) == seq![w[0]] + (k + tail));
            assert(seq![w[0]] == seq![parts[0]]);
            assert(keep_matching(parts, t) == seq![parts[0]] + k);
            assert(seq![parts[0]] + (k + tail) =~~= (seq![parts[0]] + k) + tail);
            assert(keep_matching(w, t) =~~= keep_matching(parts, t) + tail);
        } else {
            assert(keep_matching(w, t) == k + tail);
            assert(keep_matching(parts, t) == k);
            assert(keep_matching(w, t) =~~= keep_matching(parts, t) + tail);
        }
    }
}

pub proof fn lemma_drop_push(parts: Seq<Seq<char>>, t: Seq<char>, p: Seq<char>)
    ensures
        drop_matching(parts + seq![p], t) == drop_matching(parts, t) + (if p == t {
            Seq::<Seq<char>>::empty()
        } else {
            seq![p]
        }),
    decreases parts.len(),
{
    let w = parts + seq![p];
    let tail = (if p == t {
        Seq::<Seq<char>>::empty()
    } else {
        seq![p]
    });
    if parts.len() == 0 {
        assert(w =~= seq![p]);
        assert(w[0] == p);
        assert(w.drop_first() =~= Seq::<Seq<char>>::empty());
        assert(parts =~= Seq::<Seq<char>>::empty());
        assert(drop_matching(Seq::<Seq<char>>::empty(), t) == Seq::<Seq<char>>::empty());
        assert(drop_matching(w, t) =~~= drop_matching(parts, t) + tail);
    } else {
        lemma_drop_push(parts.drop_first(), t, p);
        assert(w.drop_first() =~= parts.drop_first() + seq![p]);
        assert(w[0] == parts[0]);
        let k = drop_matching(parts.drop_first(), t);
        assert(drop_matching(w.drop_first(), t) == k + tail);
        if parts[0] == t {
            assert(drop_matching(w, t) == k + tail);
            assert(drop_matching(parts, t) == k);
        } else {
            assert(drop_matching(w, t) == seq![w[0]] + (k + tail));
            assert(drop_matching(parts, t) == seq![parts[0]] + k);
            assert(seq![parts[0]] + (k + tail) =~~= (seq![parts[0]] + k) + tail);
        }
        assert(drop_matching(w, t) =~~= drop_matching(parts, t) + tail);
    }
}

/// No token of a split holds the separator.
pub proof fn lemma_split_tokens_comma_free(s: Seq<char>)
    ensures
        forall|k: int| 0 <= k < split_spec(s).len() ==> comma_free(#[trigger] split_spec(s)[k]),
    decreases s.len(),
{
    if s.len() == 0 {
        assert(split_spec(s)[0] =~= Seq::<char>::empty());
    } else {
        lemma_split_tokens_comma_free(s.drop_first());
        lemma_split_len(s.drop_first());
        let r = split_spec(s.drop_first());
        if s[0] == ',' {
            assert forall|k: int| 0 <= k < split_spec(s).len() implies comma_free(
                #[trigger] split_spec(s)[k],
            ) by {
                if k == 0 {
                    assert(split_spec(s)[0] =~= Seq::<char>::empty());
                } else {
                    assert(split_spec(s)[k] == r[k - 1]);
                }
            }
        } else {
            assert forall|k: int| 0 <= k < split_spec(s).len() implies comma_free(
                #[trigger] split_spec(s)[k],
            ) by {
                if k == 0 {
                    assert(split_spec(s)[0] == seq![s[0]] + r[0]);
                    assert(comma_free(r[0]));
                    assert(forall|i: int|
                        0 <= i < (seq![s[0]] + r[0]).len() ==> (seq![s[0]] + r[0])[i] != ',');
                } else {
                    assert(split_spec(s)[k] == r[k]);
                }
            }
        }
    }
}

/// Splitting comma-free text yields that text as the one token.
pub proof fn lemma_split_of_comma_free(s: Seq<char>)
    requires
        comma_free(s),
    ensures
        split_spec(s) == seq![s],
    decreases s.len(),
{
    if s.len() == 0 {
        assert(split_spec(s) =~~= seq![s]);
    } else {
        assert(s[0] != ',');
        assert(comma_free(s.drop_first()));
        lemma_split_of_comma_free(s.drop_first());
        assert(seq![s[0]] + s.drop_first() =~= s);
        assert(split_spec(s) =~~= seq![s]);
    }
}

/// Splitting `a ++ "," ++ s` for comma-free `a` yields `a` and then the
/// tokens of `s`.
pub proof fn lemma_split_concat(a: Seq<char>, s: Seq<char>)
    requires
        comma_free(a),
    ensures
        split_spec(a + seq![','] + s) == seq![a] + split_spec(s),
    decreases a.len(),
{
    let t = a + seq![','] + s;
    if a.len() == 0 {
        assert(t[0] == ',');
        assert(t.drop_first() =~= s);
        assert(a =~= Seq::<char>::empty());
        assert(split_spec(t) =~~= seq![a] + split_spec(s));
    } else {
        assert(t[0] == a[0]);
        assert(a[0] != ',');
        assert(t.drop_first() =~= a.drop_first() + seq![','] + s);
        assert(comma_free(a.drop_first()));
        lemma_split_concat(a.drop_first(), s);
        let r = split_spec(t.drop_first());
        assert(r[0] == a.drop_first());
        assert(seq![t[0]] + r[0] =~= a);
        assert(r.drop_first() =~= split_spec(s));
        assert(split_spec(t) =~~= seq![a] + split_spec(s));
    }
}

/// Joining the tokens of a split restores the original text.
pub proof fn lemma_join_split_roundtrip(s: Seq<char>)
    ensures
        join_spec(split_spec(s)) == s,
    decreases s.len(),
{
    lemma_split_len(s);
    if s.len() == 0 {
        assert(join_spec(split_spec(s)) =~~= s);
    } else if s[0] == ',' {
        lemma_join_split_roundtrip(s.drop_first());
        lemma_split_len(s.drop_first());
        assert((seq![Seq::<char>::empty()] + split_spec(s.drop_first())).drop_first() =~= split_spec(
            s.drop_first(),
        ));
        assert(join_spec(split_spec(s)) =~~= s);
    } else {
        lemma_join_split_roundtrip(s.drop_first());
        lemma_split_len(s.drop_first());
        let r = split_spec(s.drop_first());
        assert(seq![s[0]] + s.drop_first() =~= s);
        if r.len() == 1 {
            assert(join_spec(r) == r[0]);
            assert(r[0] == s.drop_first());
            assert(split_spec(s) =~~= seq![seq![s[0]] + r[0]]);
            assert(split_spec(s).len() == 1);
            assert(join_spec(split_spec(s)) == split_spec(s)[0]);
            assert(split_spec(s)[0] == seq![s[0]] + r[0]);
            assert(join_spec(split_spec(s)) =~= s);
        } else {
            assert(split_spec(s).drop_first() =~~= r.drop_first());
            assert(split_spec(s)[0] == seq![s[0]] + r[0]);
            assert(split_spec(s).len() == r.len());
            assert(split_spec(s).len() >= 2);
            assert(join_spec(split_spec(s)) == split_spec(s)[0] + seq![','] + join_spec(
                split_spec(s).drop_first(),
            ));
            assert(join_spec(split_spec(s).drop_first()) == join_spec(r.drop_first()));
            assert(join_spec(r) == r[0] + seq![','] + join_spec(r.drop_first()));
            assert(join_spec(split_spec(s)) =~= seq![s[0]] + join_spec(r));
            assert(join_spec(split_spec(s)) =~= s);
        }
    }
}

/// Splitting the join of at least one comma-free token restores the tokens.
pub proof fn lemma_split_join_roundtrip(parts: Seq<Seq<char>>)
    requires
        parts.len() >= 1,
        forall|k: int| 0 <= k < parts.len() ==> comma_free(#[trigger] parts[k]),
    ensures
        split_spec(join_spec(parts)) == parts,
    decreases parts.len(),
{
    if parts.len() == 1 {
        lemma_split_of_comma_free(parts[0]);
        assert(seq![parts[0]] =~= parts);
    } else {
        lemma_split_join_roundtrip(parts.drop_first());
        lemma_split_concat(parts[0], join_spec(parts.drop_first()));
        assert(seq![parts[0]] + parts.drop_first() =~= parts);
    }
}

/// A list without an occurrence of `t` is left whole by dropping `t`.
pub proof fn lemma_drop_matching_absent(parts: Seq<Seq<char>>, t: Seq<char>)
    requires
        count_matching(parts, t) == 0,
    ensures
        drop_matching(parts, t) == parts,
    decreases parts.len(),
{
    if parts.len() > 0 {
        assert(parts[0] != t);
        lemma_drop_matching_absent(parts.drop_first(), t);
        assert(seq![parts[0]] + parts.drop_first() =~~= parts);
        assert(drop_matching(parts, t) =~~= parts);
    }
}

/// No token equal to `t` survives dropping `t`.
pub proof fn lemma_drop_matching_ne(parts: Seq<Seq<char>>, t: Seq<char>)
    ensures
        forall|k: int|
            0 <= k < drop_matching(parts, t).len() ==> #[trigger] drop_matching(parts, t)[k] != t,
    decreases parts.len(),
{
    if parts.len() > 0 {
        lemma_drop_matching_ne(parts.drop_first(), t);
        let rest = drop_matching(parts.drop_first(), t);
        assert forall|k: int| 0 <= k < drop_matching(parts, t).len() implies #[trigger] drop_matching(
            parts,
            t,
        )[k] != t by {
            if parts[0] == t {
                assert(drop_matching(parts, t)[k] == rest[k]);
            } else {
                if k > 0 {
                    assert(drop_matching(parts, t)[k] == rest[k - 1]);
                }
            }
        }
    }
}

/// Dropping `t` keeps every comma-free token comma-free.
pub proof fn lemma_drop_matching_comma_free(parts: Seq<Seq<char>>, t: Seq<char>)
    requires
        forall|k: int| 0 <= k < parts.len() ==> comma_free(#[trigger] parts[k]),
    ensures
        forall|k: int|
            0 <= k < drop_matching(parts, t).len() ==> comma_free(
                #[trigger] drop_matching(parts, t)[k],
            ),
    decreases parts.len(),
{
    if parts.len() > 0 {
        assert(forall|k: int|
            0 <= k < parts.drop_first().len() ==> comma_free(#[trigger] parts.drop_first()[k]));
        lemma_drop_matching_comma_free(parts.drop_first(), t);
        let rest = drop_matching(parts.drop_first(), t);
        assert forall|k: int| 0 <= k < drop_matching(parts, t).len() implies comma_free(
            #[trigger] drop_matching(parts, t)[k],
        ) by {
            if parts[0] == t {
                assert(drop_matching(parts, t)[k] == rest[k]);
            } else {
                if k == 0 {
                    assert(drop_matching(parts, t)[0] == parts[0]);
                } else {
                    assert(drop_matching(parts, t)[k] == rest[k - 1]);
                }
            }
        }
    }
}

/// A list without a token equal to `t` keeps nothing when filtered to `t`.
pub proof fn lemma_keep_of_ne_empty(parts: Seq<Seq<char>>, t: Seq<char>)
    requires
        forall|k: int| 0 <= k < parts.len() ==> #[trigger] parts[k] != t,
    ensures
        keep_matching(parts, t) == Seq::<Seq<char>>::empty(),
    decreases parts.len(),
{
    if parts.len() > 0 {
        assert(forall|k: int|
            0 <= k < parts.drop_first().len() ==> #[trigger] parts.drop_first()[k] != t);
        lemma_keep_of_ne_empty(parts.drop_first(), t);
        assert(parts[0] != t);
    }
}

/// Dropping the occurrences of `t` shortens a list by exactly their count.
pub proof fn lemma_drop_count_len(parts: Seq<Seq<char>>, t: Seq<char>)
    ensures
        drop_matching(parts, t).len() + count_matching(parts, t) == parts.len(),
    decreases parts.len(),
{
    if parts.len() > 0 {
        lemma_drop_count_len(parts.drop_first(), t);
    }
}

/// Splits a raw id list on commas.
pub fn split_ids(s: &str) -> (r: Vec<String>)
    ensures
        r.deep_view() == split_spec(s@),
{
    let n = s.unicode_len();
    let mut r: Vec<String> = Vec::new();
    let mut cur: String = String::new();
    let mut i: usize = 0;
    proof {
        assert(s@.subrange(0, 0) =~= Seq::<char>::empty());
        assert(r.deep_view() + seq![cur@] =~~= split_spec(s@.subrange(0, 0)));
    }
    while i < n
        invariant
            i <= n,
            n == s@.len(),
            r.deep_view() + seq![cur@] == split_spec(s@.subrange(0, i as int)),
        decreases n - i,
    {
        let ghost prefix = s@.subrange(0, i as int);
        let c = s.get_char(i);
        proof {
            assert(s@.subrange(0, i as int + 1) =~= prefix + seq![c]);
            lemma_split_push(prefix, c);
            lemma_split_len(prefix);
            assert((r.deep_view() + seq![cur@]).last() == cur@);
            assert((r.deep_view() + seq![cur@]).drop_last() =~= r.deep_view());
        }
        if c == ',' {
            r.push(cur);
            cur = String::new();
            proof {
                assert(r.deep_view() + seq![cur@] =~~= split_spec(s@.subrange(0, i as int + 1)));
            }
        } else {
            let sub = s.substring_char(i, i + 1);
            cur.append(sub);
            proof {
                assert(sub@ =~= seq![c]);
                assert(r.deep_view() + seq![cur@] =~~= split_spec(s@.subrange(0, i as int + 1)));
            }
        }
        i += 1;
    }
    r.push(cur);
    proof {
        assert(s@.subrange(0, n as int) =~= s@);
        assert(r.deep_view() =~~= split_spec(s@));
    }
    r
}

/// Joins id tokens with commas.
pub fn join_ids(parts: &Vec<String>) -> (r: String)
    ensures
        r@ == join_spec(parts.deep_view()),
{
    let mut r = String::new();
    let mut i: usize = 0;
    proof {
        assert(parts.deep_view().subrange(0, 0) =~= Seq::<Seq<char>>::empty());
    }
    while i < parts.len()
        invariant
            i <= parts.len(),
            parts.deep_view().len() == parts.len(),
            r@ == join_spec(parts.deep_view().subrange(0, i as int)),
        decreases parts.len() - i,
    {
        let ghost prefix = parts.deep_view().subrange(0, i as int);
        proof {
            assert(parts.deep_view().subrange(0, i as int + 1) =~= prefix + seq![
                parts.deep_view()[i as int],
            ]);
            lemma_join_push(prefix, parts.deep_view()[i as int]);
        }
        if i > 0 {
            proof {
                reveal_strlit(",");
            }
            r.append(",");
            proof {
                assert(","@ =~= seq![',']);
            }
        }
        let p = &parts[i];
        proof {
            assert(p@ == parts.deep_view()[i as int]);
        }
        r.append(p.as_str());
        proof {
            assert(r@ =~= join_spec(parts.deep_view().subrange(0, i as int + 1)));
        }
        i += 1;
    }
    proof {
        assert(parts.deep_view().subrange(0, parts.len() as int) =~= parts.deep_view());
    }
    r
}

/// The id tokens equal to `t`, in order.
pub fn ids_equal_to(parts: &Vec<String>, t: &String) -> (r: Vec<String>)
    ensures
        r.deep_view() == keep_matching(parts.deep_view(), t@),
{
    let mut r: Vec<String> = Vec::new();
    let mut i: usize = 0;
    proof {
        assert(parts.deep_view().subrange(0, 0) =~= Seq::<Seq<char>>::empty());
        assert(r.deep_view() =~~= keep_matching(parts.deep_view().subrange(0, 0), t@));
    }
    while i < parts.len()
        invariant
            i <= parts.len(),
            parts.deep_view().len() == parts.len(),
            r.deep_view() == keep_matching(parts.deep_view().subrange(0, i as int), t@),
        decreases parts.len() - i,
    {
        let ghost prefix = parts.deep_view().subrange(0, i as int);
        proof {
            assert(parts.deep_view().subrange(0, i as int + 1) =~= prefix + seq![
                parts.deep_view()[i as int],
            ]);
            lemma_keep_push(prefix, t@, parts.deep_view()[i as int]);
        }
        let p = &parts[i];
        proof {
            assert(p@ == parts.deep_view()[i as int]);
        }
        if p.eq(t) {
            r.push(p.clone());
        }
        proof {
            assert(r.deep_view() =~~= keep_matching(parts.deep_view().subrange(0, i as int + 1), t@));
        }
        i += 1;
    }
    proof {
        assert(parts.deep_view().subrange(0, parts.len() as int) =~= parts.deep_view());
    }
    r
}

/// The id tokens other than `t`, in order.
pub fn ids_without(parts: &Vec<String>, t: &String) -> (r: Vec<String>)
    ensures
        r.deep_view() == drop_matching(parts.deep_view(), t@),
{
    let mut r: Vec<String> = Vec::new();
    let mut i: usize = 0;
    proof {
        assert(parts.deep_view().subrange(0, 0) =~= Seq::<Seq<char>>::empty());
        assert(r.deep_view() =~~= drop_matching(parts.deep_view().subrange(0, 0), t@));
    }
    while i < parts.len()
        invariant
            i <= parts.len(),
            parts.deep_view().len() == parts.len(),
            r.deep_view() == drop_matching(parts.deep_view().subrange(0, i as int), t@),
        decreases parts.len() - i,
    {
        let ghost prefix = parts.deep_view().subrange(0, i as int);
        proof {
            assert(parts.deep_view().subrange(0, i as int + 1) =~= prefix + seq![
                parts.deep_view()[i as int],
            ]);
            lemma_drop_push(prefix, t@, parts.deep_view()[i as int]);
        }
        let p = &parts[i];
        proof {
            assert(p@ == parts.deep_view()[i as int]);
        }
        if !p.eq(t) {
            r.push(p.clone());
        }
        proof {
            assert(r.deep_view() =~~= drop_matching(parts.deep_view().subrange(0, i as int + 1), t@));
        }
        i += 1;
    }
    proof {
        assert(parts.deep_view().subrange(0, parts.len() as int) =~= parts.deep_view());
    }
    r
}

} // verus!
