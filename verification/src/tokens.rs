//! Search-token bookkeeping: the distinct tokens of a query, and how often
//! each token occurs in a document.

use vstd::prelude::*;

verus! {

/// Lexicographic order of texts by character (the order of `String`, since
/// UTF-8 byte order follows code point order).
pub open spec fn text_lt(a: Seq<char>, b: Seq<char>) -> bool
    decreases a.len(),
{
    if a.len() == 0 {
        b.len() > 0
    } else if b.len() == 0 {
        false
    } else if a[0] < b[0] {
        true
    } else if a[0] > b[0] {
        false
    } else {
        text_lt(a.drop_first(), b.drop_first())
    }
}

/// Law: the text order is a strict total order.
pub proof fn law_text_order(a: Seq<char>, b: Seq<char>, c: Seq<char>)
    ensures
        !text_lt(a, a),
        a == b || text_lt(a, b) || text_lt(b, a),
        !(text_lt(a, b) && text_lt(b, a)),
        text_lt(a, b) && text_lt(b, c) ==> text_lt(a, c),
    decreases a.len(),
{
    if a.len() > 0 && b.len() > 0 && c.len() > 0 {
        law_text_order(a.drop_first(), b.drop_first(), c.drop_first());
        if a[0] == b[0] && a.drop_first() == b.drop_first() {
            assert(a =~= seq![a[0]] + a.drop_first());
            assert(b =~= seq![b[0]] + b.drop_first());
        }
    } else if a.len() > 0 && b.len() > 0 {
        law_text_order(a.drop_first(), b.drop_first(), a.drop_first());
        if a[0] == b[0] && a.drop_first() == b.drop_first() {
            assert(a =~= seq![a[0]] + a.drop_first());
            assert(b =~= seq![b[0]] + b.drop_first());
        }
    } else if a.len() > 0 {
        law_text_order(a.drop_first(), a.drop_first(), a.drop_first());
    } else if b.len() == 0 {
        assert(a =~= b);
    }
}

proof fn lemma_lt_common_prefix(a: Seq<char>, b: Seq<char>, i: int)
    requires
        0 <= i <= a.len(),
        i <= b.len(),
        a.take(i) == b.take(i),
    ensures
        text_lt(a, b) == text_lt(a.skip(i), b.skip(i)),
    decreases i,
{
    if i > 0 {
        assert(a[0] == a.take(i)[0]);
        assert(b[0] == b.take(i)[0]);
        assert(a.drop_first().take(i - 1) =~= a.take(i).drop_first());
        assert(b.drop_first().take(i - 1) =~= b.take(i).drop_first());
        lemma_lt_common_prefix(a.drop_first(), b.drop_first(), i - 1);
        assert(a.drop_first().skip(i - 1) =~= a.skip(i));
        assert(b.drop_first().skip(i - 1) =~= b.skip(i));
    } else {
        assert(a.skip(0) =~= a);
        assert(b.skip(0) =~= b);
    }
}

/// Three-way comparison of two texts: negative, zero or positive as `a`
/// is before, equal to, or after `b`.
pub fn compare_text(a: &str, b: &str) -> (r: i8)
    ensures
        r < 0 <==> text_lt(a@, b@),
        r == 0 <==> a@ == b@,
        r > 0 <==> text_lt(b@, a@),
{
    let n = a.unicode_len();
    let m = b.unicode_len();
    let mut i: usize = 0;
    while i < n && i < m
        invariant
            n == a@.len(),
            m == b@.len(),
            i <= n,
            i <= m,
            a@.take(i as int) == b@.take(i as int),
        decreases n - i,
    {
        let x = a.get_char(i);
        let y = b.get_char(i);
        if x != y {
            proof {
                lemma_lt_common_prefix(a@, b@, i as int);
                lemma_lt_common_prefix(b@, a@, i as int);
                assert(a@.skip(i as int)[0] == x);
                assert(b@.skip(i as int)[0] == y);
                law_text_order(a@, b@, a@);
            }
            if x < y {
                return -1;
            } else {
                return 1;
            }
        }
        proof {
            assert(a@.take(i + 1) =~= a@.take(i as int).push(x));
            assert(b@.take(i + 1) =~= b@.take(i as int).push(y));
        }
        i = i + 1;
    }
    proof {
        lemma_lt_common_prefix(a@, b@, i as int);
        lemma_lt_common_prefix(b@, a@, i as int);
        if i == n && i == m {
            assert(a@ =~= a@.take(i as int));
            assert(b@ =~= b@.take(i as int));
        }
        if i == n && i < m {
            assert(a@.take(i as int) =~= a@);
            assert(a@ != b@);
        }
        if i == m && i < n {
            assert(b@.take(i as int) =~= b@);
            assert(a@ != b@);
        }
    }
    if n < m {
        -1
    } else if n > m {
        1
    } else {
        0
    }
}

/// The texts of a list of strings.
pub open spec fn texts_of(v: Seq<String>) -> Seq<Seq<char>> {
    v.map_values(|s: String| s@)
}

/// The texts are in strictly increasing order (so also distinct).
pub open spec fn strictly_sorted(v: Seq<Seq<char>>) -> bool {
    forall|i: int, j: int| 0 <= i < j < v.len() ==> text_lt(#[trigger] v[i], #[trigger] v[j])
}

/// The distinct tokens of `tokens`, in increasing order.
pub fn unique_tokens(tokens: Vec<String>) -> (r: Vec<String>)
    ensures
        strictly_sorted(texts_of(r@)),
        texts_of(r@).to_set() == texts_of(tokens@).to_set(),
{
    let mut out: Vec<String> = Vec::new();
    let mut i: usize = 0;
    while i < tokens.len()
        invariant
            i <= tokens@.len(),
            strictly_sorted(texts_of(out@)),
            texts_of(out@).to_set() == texts_of(tokens@.take(i as int)).to_set(),
        decreases tokens@.len() - i,
    {
        let t = &tokens[i];
        let (p, found) = find_position(&out, t.as_str());
        proof {
            assert(tokens@.take(i + 1) =~= tokens@.take(i as int).push(*t));
            assert(texts_of(tokens@.take(i + 1)) =~= texts_of(tokens@.take(i as int)).push(t@));
            let pre = texts_of(tokens@.take(i as int));
            assert(pre.insert(pre.len() as int, t@) =~= pre.push(t@));
            lemma_insert_to_set(pre, pre.len() as int, t@);
        }
        if !found {
            let ghost before = out@;
            out.insert(p, t.clone());
            proof {
                lemma_insert_sorted(texts_of(before), p as int, t@);
                assert(texts_of(out@) =~= texts_of(before).insert(p as int, t@));
                assert(texts_of(out@).to_set() =~= texts_of(before).to_set().insert(t@)) by {
                    lemma_insert_to_set(texts_of(before), p as int, t@);
                }
            }
        } else {
            proof {
                assert(texts_of(out@)[p as int] == t@);
                assert(texts_of(out@).to_set().contains(t@));
                assert(texts_of(out@).to_set() =~= texts_of(out@).to_set().insert(t@));
            }
        }
        i = i + 1;
    }
    assert(tokens@.take(tokens@.len() as int) =~= tokens@);
    out
}

proof fn lemma_insert_to_set(v: Seq<Seq<char>>, p: int, x: Seq<char>)
    requires
        0 <= p <= v.len(),
    ensures
        v.insert(p, x).to_set() == v.to_set().insert(x),
{
    let w = v.insert(p, x);
    assert forall|y: Seq<char>| w.to_set().contains(y) <==> v.to_set().insert(x).contains(y) by {
        if w.contains(y) {
            let k = choose|k: int| 0 <= k < w.len() && w[k] == y;
            if k < p {
                assert(v[k] == y);
            } else if k > p {
                assert(v[k - 1] == y);
            }
        }
        if v.contains(y) {
            let k = choose|k: int| 0 <= k < v.len() && v[k] == y;
            if k < p {
                assert(w[k] == y);
            } else {
                assert(w[k + 1] == y);
            }
        }
        if y == x {
            assert(w[p] == x);
        }
    }
    assert(w.to_set() =~= v.to_set().insert(x));
}

proof fn lemma_insert_sorted(v: Seq<Seq<char>>, p: int, x: Seq<char>)
    requires
        0 <= p <= v.len(),
        strictly_sorted(v),
        forall|k: int| 0 <= k < p ==> text_lt(#[trigger] v[k], x),
        forall|k: int| p <= k < v.len() ==> text_lt(x, #[trigger] v[k]),
    ensures
        strictly_sorted(v.insert(p, x)),
{
    let w = v.insert(p, x);
    assert forall|i: int, j: int| 0 <= i < j < w.len() implies text_lt(
        #[trigger] w[i],
        #[trigger] w[j],
    ) by {
        if i < p && j < p {
        } else if i < p && j == p {
        } else if i < p {
            assert(w[j] == v[j - 1]);
        } else if i == p {
            assert(w[j] == v[j - 1]);
        } else {
            assert(w[i] == v[i - 1]);
            assert(w[j] == v[j - 1]);
        }
    }
}

/// The first position in sorted `out` whose text is not before `t`, and
/// whether the text there is `t`.
fn find_position(out: &Vec<String>, t: &str) -> (r: (usize, bool))
    requires
        strictly_sorted(texts_of(out@)),
    ensures
        r.0 <= out@.len(),
        forall|k: int| 0 <= k < r.0 ==> text_lt(#[trigger] texts_of(out@)[k], t@),
        r.1 ==> r.0 < out@.len() && out@[r.0 as int]@ == t@,
        !r.1 ==> forall|k: int| r.0 <= k < out@.len() ==> text_lt(t@, #[trigger] texts_of(out@)[k]),
{
    let ghost v = texts_of(out@);
    let mut p: usize = 0;
    while p < out.len()
        invariant
            v == texts_of(out@),
            strictly_sorted(v),
            p <= out@.len(),
            forall|k: int| 0 <= k < p ==> text_lt(#[trigger] v[k], t@),
        decreases out@.len() - p,
    {
        let c = compare_text(out[p].as_str(), t);
        if c >= 0 {
            proof {
                assert(v[p as int] == out@[p as int]@);
                if c > 0 {
                    assert forall|k: int| p <= k < out@.len() implies text_lt(t@, #[trigger] v[k]) by {
                        if k > p {
                            assert(text_lt(v[p as int], v[k]));
                            law_text_order(t@, v[p as int], v[k]);
                        }
                    }
                }
            }
            return (p, c == 0);
        }
        p = p + 1;
    }
    (p, false)
}

/// How many texts in `ts` equal `k`.
pub open spec fn occurrences(ts: Seq<Seq<char>>, k: Seq<char>) -> nat
    decreases ts.len(),
{
    if ts.len() == 0 {
        0
    } else {
        occurrences(ts.drop_last(), k) + if ts.last() == k {
            1nat
        } else {
            0nat
        }
    }
}

/// The occurrence count of every distinct token of `tokens`, as a map
/// ordered by token: one entry per token, in increasing order.
pub fn token_frequencies(tokens: &[String]) -> (r: Vec<(String, u64)>)
    ensures
        strictly_sorted(r@.map_values(|e: (String, u64)| e.0@)),
        r@.map_values(|e: (String, u64)| e.0@).to_set() == tokens@.map_values(|s: String| s@).to_set(),
        forall|k: int|
            0 <= k < r@.len() ==> #[trigger] r@[k].1 == occurrences(
                tokens@.map_values(|s: String| s@),
                r@[k].0@,
            ),
{
    let ghost all = tokens@.map_values(|s: String| s@);
    let mut keys: Vec<String> = Vec::new();
    let mut counts: Vec<u64> = Vec::new();
    let mut i: usize = 0;
    while i < tokens.len()
        invariant
            all == tokens@.map_values(|s: String| s@),
            i <= tokens@.len(),
            keys@.len() == counts@.len(),
            strictly_sorted(texts_of(keys@)),
            texts_of(keys@).to_set() == all.take(i as int).to_set(),
            forall|k: int|
                0 <= k < keys@.len() ==> #[trigger] counts@[k] == occurrences(
                    all.take(i as int),
                    keys@[k]@,
                ),
            forall|k: int| 0 <= k < counts@.len() ==> #[trigger] counts@[k] <= i,
        decreases tokens@.len() - i,
    {
        let t = &tokens[i];
        let ghost prefix = all.take(i as int);
        proof {
            assert(all.take(i + 1) =~= prefix.push(t@));
            assert(all.take(i + 1).drop_last() =~= prefix);
            assert(all.take(i + 1).last() == t@);
        }
        let (p, found) = find_position(&keys, t.as_str());
        if found {
            let c = counts[p];
            counts.set(p, c + 1);
            proof {
                assert(texts_of(keys@).to_set().contains(t@)) by {
                    assert(texts_of(keys@)[p as int] == t@);
                }
                assert(all.take(i + 1).to_set() =~= prefix.to_set().insert(t@));
                assert(prefix.to_set().insert(t@) =~= prefix.to_set());
                assert forall|k: int| 0 <= k < keys@.len() implies #[trigger] counts@[k]
                    == occurrences(all.take(i + 1), keys@[k]@) by {
                    if k != p {
                        assert(texts_of(keys@)[k] != texts_of(keys@)[p as int]) by {
                            if k < p {
                                assert(text_lt(texts_of(keys@)[k], texts_of(keys@)[p as int]));
                            } else {
                                assert(text_lt(texts_of(keys@)[p as int], texts_of(keys@)[k]));
                            }
                            law_text_order(texts_of(keys@)[k], texts_of(keys@)[k], t@);
                        }
                    }
                }
            }
        } else {
            let ghost before_keys = keys@;
            let ghost before_counts = counts@;
            keys.insert(p, t.clone());
            counts.insert(p, 1);
            proof {
                lemma_insert_sorted(texts_of(before_keys), p as int, t@);
                assert(texts_of(keys@) =~= texts_of(before_keys).insert(p as int, t@));
                lemma_insert_to_set(texts_of(before_keys), p as int, t@);
                assert(all.take(i + 1).to_set() =~= prefix.to_set().insert(t@));
                assert(!prefix.to_set().contains(t@)) by {
                    if texts_of(before_keys).to_set().contains(t@) {
                        let k = choose|k: int|
                            0 <= k < texts_of(before_keys).len() && texts_of(before_keys)[k]
                                == t@;
                        if k < p {
                            law_text_order(t@, t@, t@);
                        } else {
                            law_text_order(t@, t@, t@);
                        }
                    }
                }
                lemma_occurrences_absent(prefix, t@);
                assert forall|k: int| 0 <= k < keys@.len() implies #[trigger] counts@[k]
                    == occurrences(all.take(i + 1), keys@[k]@) by {
                    if k < p {
                        assert(keys@[k] == before_keys[k]);
                        assert(counts@[k] == before_counts[k]);
                        assert(text_lt(texts_of(before_keys)[k], t@));
                        law_text_order(texts_of(before_keys)[k], t@, t@);
                    } else if k > p {
                        assert(keys@[k] == before_keys[k - 1]);
                        assert(counts@[k] == before_counts[k - 1]);
                        assert(text_lt(t@, texts_of(before_keys)[k - 1]));
                        law_text_order(t@, texts_of(before_keys)[k - 1], t@);
                    }
                }
            }
        }
        i = i + 1;
    }
    let mut r: Vec<(String, u64)> = Vec::new();
    let mut j: usize = 0;
    while j < keys.len()
        invariant
            all == tokens@.map_values(|s: String| s@),
            keys@.len() == counts@.len(),
            j <= keys@.len(),
            r@.len() == j,
            forall|k: int| 0 <= k < j ==> (#[trigger] r@[k]).0 == keys@[k] && r@[k].1 == counts@[k],
        decreases keys@.len() - j,
    {
        r.push((keys[j].clone(), counts[j]));
        j = j + 1;
    }
    proof {
        assert(all.take(tokens@.len() as int) =~= all);
        assert(r@.map_values(|e: (String, u64)| e.0@) =~= texts_of(keys@));
    }
    r
}

proof fn lemma_occurrences_absent(ts: Seq<Seq<char>>, k: Seq<char>)
    requires
        !ts.to_set().contains(k),
    ensures
        occurrences(ts, k) == 0,
    decreases ts.len(),
{
    if ts.len() > 0 {
        assert(ts.drop_last().to_set().subset_of(ts.to_set())) by {
            assert forall|y: Seq<char>| ts.drop_last().to_set().contains(y) implies ts.to_set().contains(
                y,
            ) by {
                let j = choose|j: int| 0 <= j < ts.drop_last().len() && ts.drop_last()[j] == y;
                assert(ts[j] == y);
            }
        }
        assert(ts.to_set().contains(ts.last())) by {
            assert(ts[ts.len() - 1] == ts.last());
        }
        lemma_occurrences_absent(ts.drop_last(), k);
    }
}

} // verus!
