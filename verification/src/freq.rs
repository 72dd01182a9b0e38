//! Word-frequency tallies: counting how often each token occurs, in
//! first-seen key order, and ranking the tally by descending frequency
//! with ties kept in first-seen order.
use vstd::prelude::*;
use vstd::multiset::Multiset;
use crate::tokenize::{split_words, tokens};

verus! {

/// The mathematical reading of an executable tally: each `(String, u64)`
/// entry as a `(Seq<char>, nat)` pair.
pub open spec fn counts_view(v: Seq<(String, u64)>) -> Seq<(Seq<char>, nat)> {
    Seq::new(v.len(), |i: int| (v[i].0@, v[i].1 as nat))
}

/// Record one more occurrence of `w` in the tally `cs`: bump the entry
/// that carries `w`, or append a fresh entry with count 1 if `w` is new.
pub open spec fn bump_word(cs: Seq<(Seq<char>, nat)>, w: Seq<char>) -> Seq<(Seq<char>, nat)>
    decreases cs.len(),
{
    if cs.len() == 0 {
        seq![(w, 1nat)]
    } else if cs[0].0 == w {
        seq![(cs[0].0, (cs[0].1 + 1) as nat)] + cs.drop_first()
    } else {
        seq![cs[0]] + bump_word(cs.drop_first(), w)
    }
}

/// The (word, frequency) tally of the word list `ws`, keys in first-seen
/// order.
pub open spec fn counts_of(ws: Seq<Seq<char>>) -> Seq<(Seq<char>, nat)>
    decreases ws.len(),
{
    if ws.len() == 0 {
        Seq::empty()
    } else {
        bump_word(counts_of(ws.drop_last()), ws.last())
    }
}

/// Insert `x` into the frequency-sorted tally `r`: after every entry
/// whose count is at least `x`'s, before the first strictly smaller one.
pub open spec fn sorted_insert(r: Seq<(Seq<char>, nat)>, x: (Seq<char>, nat)) -> Seq<
    (Seq<char>, nat),
>
    decreases r.len(),
{
    if r.len() == 0 {
        seq![x]
    } else if r[0].1 >= x.1 {
        seq![r[0]] + sorted_insert(r.drop_first(), x)
    } else {
        seq![x] + r
    }
}

/// Sort a tally by descending frequency; equal frequencies keep their
/// relative order in the input.
pub open spec fn sort_desc(s: Seq<(Seq<char>, nat)>) -> Seq<(Seq<char>, nat)>
    decreases s.len(),
{
    if s.len() == 0 {
        Seq::empty()
    } else {
        sorted_insert(sort_desc(s.drop_last()), s.last())
    }
}

/// How many entries a request for `n` entries keeps out of `len`:
/// a negative `n` keeps them all.
pub open spec fn clamp_take(n: int, len: nat) -> nat {
    if n < 0 || n > len {
        len
    } else {
        n as nat
    }
}

/// The ranked tally of `s`, cut down to at most `n` entries.
pub open spec fn top_counts(s: Seq<char>, n: int) -> Seq<(Seq<char>, nat)> {
    let ranked = sort_desc(counts_of(tokens(s)));
    ranked.take(clamp_take(n, ranked.len()) as int)
}

/// Bumping a word whose first occurrence in the tally is at `k` updates
/// exactly that entry.
proof fn lemma_bump_found(cs: Seq<(Seq<char>, nat)>, w: Seq<char>, k: int)
    requires
        0 <= k < cs.len(),
        cs[k].0 == w,
        forall|j: int| 0 <= j < k ==> cs[j].0 != w,
    ensures
        bump_word(cs, w) =~= cs.update(k, (w, (cs[k].1 + 1) as nat)),
    decreases cs.len(),
{
    if k == 0 {
        assert(bump_word(cs, w) == seq![(cs[0].0, (cs[0].1 + 1) as nat)] + cs.drop_first());
    } else {
        lemma_bump_found(cs.drop_first(), w, k - 1);
        assert(bump_word(cs, w) == seq![cs[0]] + bump_word(cs.drop_first(), w));
    }
}

/// Bumping a word that the tally does not carry appends it with count 1.
proof fn lemma_bump_absent(cs: Seq<(Seq<char>, nat)>, w: Seq<char>)
    requires
        forall|j: int| 0 <= j < cs.len() ==> cs[j].0 != w,
    ensures
        bump_word(cs, w) =~= cs.push((w, 1nat)),
    decreases cs.len(),
{
    if cs.len() > 0 {
        lemma_bump_absent(cs.drop_first(), w);
        assert(bump_word(cs, w) == seq![cs[0]] + bump_word(cs.drop_first(), w));
    }
}

/// A bump raises no count above `b + 1` if no count exceeded `b` before.
proof fn lemma_bump_bound(cs: Seq<(Seq<char>, nat)>, w: Seq<char>, b: nat)
    requires
        forall|j: int| 0 <= j < cs.len() ==> cs[j].1 <= b,
    ensures
        forall|j: int|
            0 <= j < bump_word(cs, w).len() ==> #[trigger] bump_word(cs, w)[j].1 <= b + 1,
    decreases cs.len(),
{
    if cs.len() > 0 && cs[0].0 != w {
        lemma_bump_bound(cs.drop_first(), w, b);
        assert(bump_word(cs, w) == seq![cs[0]] + bump_word(cs.drop_first(), w));
    }
}

/// Every frequency in a tally is at most the number of words tallied.
proof fn lemma_counts_bound(ws: Seq<Seq<char>>)
    ensures
        forall|j: int|
            0 <= j < counts_of(ws).len() ==> #[trigger] counts_of(ws)[j].1 <= ws.len(),
    decreases ws.len(),
{
    if ws.len() > 0 {
        lemma_counts_bound(ws.drop_last());
        lemma_bump_bound(counts_of(ws.drop_last()), ws.last(), (ws.len() - 1) as nat);
    }
}

/// Tally the words of `ws` in first-seen order.
fn tally_words(ws: &Vec<String>) -> (out: Vec<(String, u64)>)
    ensures
        counts_view(out@) == counts_of(ws.deep_view()),
{
    let mut out: Vec<(String, u64)> = Vec::new();
    let mut j: usize = 0;
    proof {
        assert(ws.deep_view().subrange(0, 0) =~= Seq::<Seq<char>>::empty());
        assert(counts_view(out@) =~= counts_of(ws.deep_view().subrange(0, 0)));
    }
    while j < ws.len()
        invariant
            j <= ws.len(),
            ws.deep_view().len() == ws.len(),
            counts_view(out@) == counts_of(ws.deep_view().subrange(0, j as int)),
        decreases ws.len() - j,
    {
        let ghost pre = counts_view(out@);
        let ghost w = ws.deep_view()[j as int];
        proof {
            lemma_counts_bound(ws.deep_view().subrange(0, j as int));
            assert(ws.deep_view().subrange(0, j + 1).drop_last() =~= ws.deep_view().subrange(
                0,
                j as int,
            ));
            assert(ws.deep_view().subrange(0, j + 1).last() == w);
        }
        // look for the entry that already carries this word
        let mut k: usize = 0;
        let mut found = false;
        while k < out.len() && !found
            invariant
                k <= out.len(),
                pre == counts_view(out@),
                ws.deep_view().len() == ws.len(),
                j < ws.len(),
                w == ws.deep_view()[j as int],
                ws@[j as int]@ == w,
                !found ==> forall|q: int| 0 <= q < k ==> pre[q].0 != w,
                found ==> k < out.len() && pre[k as int].0 == w && forall|q: int|
                    0 <= q < k ==> pre[q].0 != w,
            decreases out@.len() - k + if found {
                0int
            } else {
                1int
            },
        {
            if out[k].0 == ws[j] {
                found = true;
            } else {
                k = k + 1;
            }
        }
        if found {
            proof {
                lemma_bump_found(pre, w, k as int);
                assert(pre[k as int].1 <= j);
            }
            let ghost before = out@;
            let count = out[k].1;
            let entry = out.remove(k);
            out.insert(k, (entry.0, count + 1));
            proof {
                assert(out@ =~= before.update(k as int, (before[k as int].0, (count + 1) as u64)));
            }
        } else {
            proof {
                lemma_bump_absent(pre, w);
            }
            out.push((ws[j].clone(), 1));
        }
        proof {
            assert(counts_view(out@) =~= bump_word(pre, w));
        }
        j = j + 1;
    }
    proof {
        assert(ws.deep_view().subrange(0, ws.len() as int) =~= ws.deep_view());
    }
    out
}

/// Inserting at a position `p` that sits after every count at least
/// `x`'s and before the first strictly smaller one is what
/// `sorted_insert` does.
proof fn lemma_sorted_insert_at(r: Seq<(Seq<char>, nat)>, x: (Seq<char>, nat), p: int)
    requires
        0 <= p <= r.len(),
        forall|q: int| 0 <= q < p ==> r[q].1 >= x.1,
        p < r.len() ==> r[p].1 < x.1,
    ensures
        sorted_insert(r, x) =~= r.take(p) + seq![x] + r.skip(p),
    decreases r.len(),
{
    if p == 0 {
        if r.len() == 0 {
            assert(sorted_insert(r, x) == seq![x]);
        } else {
            assert(sorted_insert(r, x) == seq![x] + r);
        }
    } else {
        lemma_sorted_insert_at(r.drop_first(), x, p - 1);
        assert(sorted_insert(r, x) == seq![r[0]] + sorted_insert(r.drop_first(), x));
    }
}

/// Rank a tally by descending frequency, keeping ties in the order
/// the tally lists them.
fn rank_tally(tally: &Vec<(String, u64)>) -> (out: Vec<(String, u64)>)
    ensures
        counts_view(out@) == sort_desc(counts_view(tally@)),
{
    let mut out: Vec<(String, u64)> = Vec::new();
    let mut j: usize = 0;
    proof {
        assert(counts_view(tally@).take(0) =~= Seq::<(Seq<char>, nat)>::empty());
        assert(counts_view(out@) =~= sort_desc(counts_view(tally@).take(0)));
    }
    while j < tally.len()
        invariant
            j <= tally.len(),
            counts_view(out@) == sort_desc(counts_view(tally@).take(j as int)),
        decreases tally.len() - j,
    {
        let ghost pre = counts_view(out@);
        let ghost x = counts_view(tally@)[j as int];
        let mut p: usize = 0;
        while p < out.len() && out[p].1 >= tally[j].1
            invariant
                p <= out.len(),
                pre == counts_view(out@),
                j < tally@.len(),
                x == counts_view(tally@)[j as int],
                tally@[j as int].1 == x.1,
                forall|q: int| 0 <= q < p ==> pre[q].1 >= x.1,
            decreases out.len() - p,
        {
            p = p + 1;
        }
        let entry = (tally[j].0.clone(), tally[j].1);
        let ghost before = out@;
        out.insert(p, entry);
        proof {
            lemma_sorted_insert_at(pre, x, p as int);
            assert(counts_view(out@) =~= pre.take(p as int) + seq![x] + pre.skip(p as int));
            assert(counts_view(tally@).take(j + 1).drop_last() =~= counts_view(tally@).take(
                j as int,
            ));
            assert(counts_view(tally@).take(j + 1).last() == x);
        }
        j = j + 1;
    }
    proof {
        assert(counts_view(tally@).take(tally@.len() as int) =~= counts_view(tally@));
    }
    out
}

/// The (word, frequency) pairs of the whitespace-delimited words of `s`,
/// sorted by descending frequency with ties in first-seen order, cut to
/// at most `n` entries; a negative `n` keeps all entries.
pub fn calculate_counts(s: &str, n: i64) -> (r: Vec<(String, u64)>)
    ensures
        counts_view(r@) == top_counts(s@, n as int),
{
    let words = split_words(s);
    let tally = tally_words(&words);
    let mut ranked = rank_tally(&tally);
    let keep: usize = if n < 0 || n as u64 >= ranked.len() as u64 {
        ranked.len()
    } else {
        n as usize
    };
    ranked.truncate(keep);
    proof {
        let full = sort_desc(counts_of(tokens(s@)));
        assert(counts_view(ranked@) =~= full.take(clamp_take(n as int, full.len()) as int));
    }
    ranked
}

/// A tally is sorted when frequencies never increase from left to right.
pub open spec fn sorted_desc(s: Seq<(Seq<char>, nat)>) -> bool {
    forall|i: int, j: int| 0 <= i < j < s.len() ==> s[i].1 >= s[j].1
}

/// No two entries of the tally carry the same word.
pub open spec fn unique_words(s: Seq<(Seq<char>, nat)>) -> bool {
    forall|i: int, j: int| 0 <= i < j < s.len() ==> s[i].0 != s[j].0
}

/// How often the word `w` occurs in the word list `ws`.
pub open spec fn occurrences(ws: Seq<Seq<char>>, w: Seq<char>) -> nat
    decreases ws.len(),
{
    if ws.len() == 0 {
        0
    } else if ws.last() == w {
        occurrences(ws.drop_last(), w) + 1
    } else {
        occurrences(ws.drop_last(), w)
    }
}

/// The position of the first entry of `s` that equals `e`; `s.len()` if
/// no entry does.
pub open spec fn pos_of(s: Seq<(Seq<char>, nat)>, e: (Seq<char>, nat)) -> int
    decreases s.len(),
{
    if s.len() == 0 {
        0
    } else if s[0] == e {
        0
    } else {
        1 + pos_of(s.drop_first(), e)
    }
}

proof fn lemma_pos_of_basic(s: Seq<(Seq<char>, nat)>, e: (Seq<char>, nat))
    ensures
        0 <= pos_of(s, e) <= s.len(),
        s.contains(e) ==> pos_of(s, e) < s.len() && s[pos_of(s, e)] == e,
        s.contains(e) ==> forall|q: int| 0 <= q < pos_of(s, e) ==> s[q] != e,
        !s.contains(e) ==> pos_of(s, e) == s.len(),
    decreases s.len(),
{
    if s.len() > 0 && s[0] != e {
        lemma_pos_of_basic(s.drop_first(), e);
        if s.contains(e) {
            let k = choose|k: int| 0 <= k < s.len() && s[k] == e;
            assert(s.drop_first()[k - 1] == e);
            assert forall|q: int| 0 <= q < pos_of(s, e) implies s[q] != e by {
                if q > 0 {
                    assert(s.drop_first()[q - 1] == s[q]);
                }
            }
        }
    }
}

proof fn lemma_pos_of_prefix(s: Seq<(Seq<char>, nat)>, e: (Seq<char>, nat))
    requires
        s.len() > 0,
        s.drop_last().contains(e),
    ensures
        pos_of(s, e) == pos_of(s.drop_last(), e),
    decreases s.len(),
{
    if s[0] != e {
        let k = choose|k: int| 0 <= k < s.drop_last().len() && s.drop_last()[k] == e;
        assert(k != 0);
        assert(s.drop_first().drop_last() =~= s.drop_last().drop_first());
        assert(s.drop_first().drop_last()[k - 1] == e);
        lemma_pos_of_prefix(s.drop_first(), e);
    }
}

/// The entries of a ranked tally are exactly the entries of the tally.
proof fn lemma_sort_desc_entries(s: Seq<(Seq<char>, nat)>)
    ensures
        forall|e: (Seq<char>, nat)| sort_desc(s).contains(e) <==> s.contains(e),
{
    broadcast use vstd::seq_lib::group_to_multiset_ensures;

    lemma_sort_desc_permutes(s);
    assert forall|e: (Seq<char>, nat)| sort_desc(s).contains(e) <==> s.contains(e) by {
        assert(sort_desc(s).contains(e) <==> sort_desc(s).to_multiset().count(e) > 0);
        assert(s.contains(e) <==> s.to_multiset().count(e) > 0);
    }
}

/// Law: ranking a tally neither adds nor drops entries; the result is a
/// permutation of the input.
pub proof fn lemma_sort_desc_permutes(s: Seq<(Seq<char>, nat)>)
    ensures
        sort_desc(s).to_multiset() == s.to_multiset(),
    decreases s.len(),
{
    broadcast use vstd::seq_lib::group_to_multiset_ensures;

    if s.len() == 0 {
        assert(sort_desc(s) =~= s);
    } else {
        let r = sort_desc(s.drop_last());
        let x = s.last();
        lemma_sort_desc_permutes(s.drop_last());
        let p = insert_pos(r, x);
        lemma_insert_pos_valid(r, x);
        lemma_sorted_insert_at(r, x, p);
        let t = sort_desc(s);
        assert(t == r.take(p) + (seq![x] + r.skip(p)));
        vstd::seq_lib::lemma_multiset_commutative(r.take(p), seq![x] + r.skip(p));
        vstd::seq_lib::lemma_multiset_commutative(seq![x], r.skip(p));
        vstd::seq_lib::lemma_multiset_commutative(r.take(p), r.skip(p));
        assert(r.take(p) + r.skip(p) =~= r);
        assert(seq![x] =~= Seq::<(Seq<char>, nat)>::empty().push(x));
        assert(seq![x].to_multiset() =~= Multiset::<(Seq<char>, nat)>::empty().insert(x));
        assert(t.to_multiset() =~= r.to_multiset().insert(x));
        assert(s.drop_last().push(x) =~= s);
    }
}

/// The position where `sorted_insert` puts its new entry.
spec fn insert_pos(r: Seq<(Seq<char>, nat)>, x: (Seq<char>, nat)) -> int
    decreases r.len(),
{
    if r.len() == 0 {
        0
    } else if r[0].1 >= x.1 {
        1 + insert_pos(r.drop_first(), x)
    } else {
        0
    }
}

proof fn lemma_insert_pos_valid(r: Seq<(Seq<char>, nat)>, x: (Seq<char>, nat))
    ensures
        0 <= insert_pos(r, x) <= r.len(),
        forall|q: int| 0 <= q < insert_pos(r, x) ==> r[q].1 >= x.1,
        insert_pos(r, x) < r.len() ==> r[insert_pos(r, x)].1 < x.1,
    decreases r.len(),
{
    if r.len() > 0 && r[0].1 >= x.1 {
        lemma_insert_pos_valid(r.drop_first(), x);
        assert forall|q: int| 0 <= q < insert_pos(r, x) implies r[q].1 >= x.1 by {
            if q > 0 {
                assert(r.drop_first()[q - 1] == r[q]);
            }
        }
    }
}

/// Each entry of a ranked tally stands somewhere in the tally itself.
proof fn lemma_rank_entry_in(s0: Seq<(Seq<char>, nat)>, q: int)
    requires
        0 <= q < sort_desc(s0).len(),
    ensures
        s0.contains(sort_desc(s0)[q]),
{
    lemma_sort_desc_entries(s0);
    assert(sort_desc(s0).contains(sort_desc(s0)[q]));
}

/// Law: the ranked tally is sorted by descending frequency.
pub proof fn lemma_sort_desc_sorted(s: Seq<(Seq<char>, nat)>)
    ensures
        sorted_desc(sort_desc(s)),
    decreases s.len(),
{
    if s.len() > 0 {
        let r = sort_desc(s.drop_last());
        let x = s.last();
        lemma_sort_desc_sorted(s.drop_last());
        let p = insert_pos(r, x);
        lemma_insert_pos_valid(r, x);
        lemma_sorted_insert_at(r, x, p);
        let t = sort_desc(s);
        assert forall|i: int, j: int| 0 <= i < j < t.len() implies t[i].1 >= t[j].1 by {
            if i < p {
                assert(t[i] == r[i]);
            } else if i == p {
                assert(t[i] == x);
            } else {
                assert(t[i] == r[i - 1]);
            }
            if j < p {
                assert(t[j] == r[j]);
            } else if j == p {
                assert(t[j] == x);
            } else {
                assert(t[j] == r[j - 1]);
            }
        }
    }
}

/// Ranking keeps the words of a tally distinct.
proof fn lemma_sort_desc_unique(s: Seq<(Seq<char>, nat)>)
    requires
        unique_words(s),
    ensures
        unique_words(sort_desc(s)),
    decreases s.len(),
{
    if s.len() > 0 {
        let r = sort_desc(s.drop_last());
        let x = s.last();
        assert(unique_words(s.drop_last()));
        lemma_sort_desc_unique(s.drop_last());
        lemma_sort_desc_entries(s.drop_last());
        let p = insert_pos(r, x);
        lemma_insert_pos_valid(r, x);
        lemma_sorted_insert_at(r, x, p);
        let t = sort_desc(s);
        assert forall|q: int| 0 <= q < r.len() implies r[q].0 != x.0 by {
            lemma_rank_entry_in(s.drop_last(), q);
            let k = choose|k: int| 0 <= k < s.drop_last().len() && s.drop_last()[k] == r[q];
            assert(s.drop_last()[k] == s[k]);
            assert(s[k].0 != s[s.len() - 1].0);
        }
        assert forall|i: int, j: int| 0 <= i < j < t.len() implies t[i].0 != t[j].0 by {
            if i < p {
                assert(t[i] == r[i]);
            } else if i == p {
                assert(t[i] == x);
            } else {
                assert(t[i] == r[i - 1]);
            }
            if j < p {
                assert(t[j] == r[j]);
            } else if j == p {
                assert(t[j] == x);
            } else {
                assert(t[j] == r[j - 1]);
            }
        }
    }
}

/// The position of the first entry of `cs` that carries the word `w`;
/// `cs.len()` if none does.
spec fn word_pos(cs: Seq<(Seq<char>, nat)>, w: Seq<char>) -> int
    decreases cs.len(),
{
    if cs.len() == 0 {
        0
    } else if cs[0].0 == w {
        0
    } else {
        1 + word_pos(cs.drop_first(), w)
    }
}

proof fn lemma_word_pos_basic(cs: Seq<(Seq<char>, nat)>, w: Seq<char>)
    ensures
        0 <= word_pos(cs, w) <= cs.len(),
        word_pos(cs, w) < cs.len() ==> cs[word_pos(cs, w)].0 == w,
        forall|q: int| 0 <= q < word_pos(cs, w) ==> cs[q].0 != w,
        word_pos(cs, w) == cs.len() ==> forall|q: int| 0 <= q < cs.len() ==> cs[q].0 != w,
    decreases cs.len(),
{
    if cs.len() > 0 && cs[0].0 != w {
        lemma_word_pos_basic(cs.drop_first(), w);
        assert forall|q: int| 1 <= q < cs.len() implies cs[q] == cs.drop_first()[q - 1] by {
            assert(cs.drop_first()[q - 1] == cs[q]);
        }
    }
}

/// Law: the tally of a word list carries each distinct word exactly
/// once, paired with the number of times it occurs in the list.
pub proof fn lemma_counts_correct(ws: Seq<Seq<char>>)
    ensures
        unique_words(counts_of(ws)),
        forall|k: int|
            0 <= k < counts_of(ws).len() ==> #[trigger] counts_of(ws)[k].1 == occurrences(
                ws,
                counts_of(ws)[k].0,
            ),
        forall|w: Seq<char>|
            (exists|k: int| 0 <= k < counts_of(ws).len() && #[trigger] counts_of(ws)[k].0 == w)
                <==> occurrences(ws, w) > 0,
    decreases ws.len(),
{
    if ws.len() > 0 {
        let pre = counts_of(ws.drop_last());
        let w = ws.last();
        let cur = counts_of(ws);
        lemma_counts_correct(ws.drop_last());
        let p = word_pos(pre, w);
        lemma_word_pos_basic(pre, w);
        if p < pre.len() {
            lemma_bump_found(pre, w, p);
            assert(cur =~= pre.update(p, (w, (pre[p].1 + 1) as nat)));
            assert forall|k: int| 0 <= k < cur.len() implies #[trigger] cur[k].0 == pre[k].0 by {
                if k != p {
                    assert(cur[k] == pre[k]);
                }
            }
            assert(unique_words(cur));
            assert forall|k: int| 0 <= k < cur.len() implies #[trigger] cur[k].1 == occurrences(
                ws,
                cur[k].0,
            ) by {
                if k == p {
                    assert(occurrences(ws, w) == occurrences(ws.drop_last(), w) + 1);
                } else {
                    assert(cur[k] == pre[k]);
                    if k < p {
                        assert(pre[k].0 != w);
                    } else {
                        assert(pre[p].0 != pre[k].0);
                    }
                    assert(occurrences(ws, cur[k].0) == occurrences(ws.drop_last(), cur[k].0));
                }
            }
            assert forall|w0: Seq<char>|
                (exists|k: int| 0 <= k < cur.len() && #[trigger] cur[k].0 == w0)
                    <==> occurrences(ws, w0) > 0 by {
                if w0 == w {
                    assert(cur[p].0 == w0);
                    assert(occurrences(ws, w0) == occurrences(ws.drop_last(), w0) + 1);
                } else {
                    assert(occurrences(ws, w0) == occurrences(ws.drop_last(), w0));
                    assert forall|k: int| 0 <= k < cur.len() implies (cur[k].0 == w0 <==> pre[k].0
                        == w0) by {
                        if k != p {
                            assert(cur[k] == pre[k]);
                        }
                    }
                }
            }
        } else {
            lemma_bump_absent(pre, w);
            assert(cur =~= pre.push((w, 1nat)));
            assert forall|i: int, j: int| 0 <= i < j < cur.len() implies cur[i].0 != cur[j].0 by {
                assert(cur[i] == pre[i]);
                if j < pre.len() {
                    assert(cur[j] == pre[j]);
                } else {
                    assert(cur[j].0 == w);
                    assert(pre[i].0 != w);
                }
            }
            assert forall|k: int| 0 <= k < cur.len() implies #[trigger] cur[k].1 == occurrences(
                ws,
                cur[k].0,
            ) by {
                if k == pre.len() {
                    assert(cur[k] == (w, 1nat));
                    assert(occurrences(ws.drop_last(), w) == 0) by {
                        if occurrences(ws.drop_last(), w) > 0 {
                            let k0 = choose|k0: int|
                                0 <= k0 < pre.len() && #[trigger] pre[k0].0 == w;
                        }
                    }
                    assert(occurrences(ws, w) == occurrences(ws.drop_last(), w) + 1);
                } else {
                    assert(cur[k] == pre[k]);
                    assert(pre[k].0 != w);
                    assert(occurrences(ws, cur[k].0) == occurrences(ws.drop_last(), cur[k].0));
                }
            }
            assert forall|w0: Seq<char>|
                (exists|k: int| 0 <= k < cur.len() && #[trigger] cur[k].0 == w0)
                    <==> occurrences(ws, w0) > 0 by {
                if w0 == w {
                    assert(cur[pre.len() as int].0 == w0);
                    assert(occurrences(ws, w0) == occurrences(ws.drop_last(), w0) + 1);
                } else {
                    assert(occurrences(ws, w0) == occurrences(ws.drop_last(), w0));
                    assert forall|k: int| 0 <= k < cur.len() implies (cur[k].0 == w0 <==> k
                        < pre.len() && pre[k].0 == w0) by {
                        if k < pre.len() {
                            assert(cur[k] == pre[k]);
                        }
                    }
                }
            }
        }
    }
}

/// Law: ranking keeps entries of equal frequency in the order the
/// tally lists them; with distinct words, an earlier entry of the
/// ranked tally that ties a later one also stood earlier in the tally.
pub proof fn lemma_sort_desc_stable(s: Seq<(Seq<char>, nat)>)
    requires
        unique_words(s),
    ensures
        forall|i: int, j: int|
            0 <= i < j < sort_desc(s).len() && sort_desc(s)[i].1 == sort_desc(s)[j].1 ==> pos_of(
                s,
                sort_desc(s)[i],
            ) < pos_of(s, sort_desc(s)[j]),
    decreases s.len(),
{
    if s.len() > 0 {
        let s0 = s.drop_last();
        let r = sort_desc(s0);
        let x = s.last();
        assert(unique_words(s0));
        lemma_sort_desc_stable(s0);
        lemma_sort_desc_sorted(s0);
        lemma_sort_desc_entries(s0);
        let p = insert_pos(r, x);
        lemma_insert_pos_valid(r, x);
        lemma_sorted_insert_at(r, x, p);
        let t = sort_desc(s);
        assert forall|q: int| 0 <= q < r.len() implies r[q] != x && s0.contains(r[q]) by {
            lemma_rank_entry_in(s0, q);
            let k = choose|k: int| 0 <= k < s0.len() && s0[k] == r[q];
            assert(s0[k] == s[k]);
            assert(s[k].0 != s[s.len() - 1].0);
        }
        assert(!s0.contains(x));
        lemma_pos_of_basic(s, x);
        assert(s.contains(x)) by {
            assert(s[s.len() - 1] == x);
        }
        assert(pos_of(s, x) == s.len() - 1) by {
            let q = pos_of(s, x);
            if q < s.len() - 1 {
                assert(s0[q] == s[q]);
                assert(s0.contains(s0[q]));
            }
        }
        assert forall|i: int, j: int|
            0 <= i < j < t.len() && t[i].1 == t[j].1 implies pos_of(s, t[i]) < pos_of(
            s,
            t[j],
        ) by {
            if i == p {
                // everything after the insertion point is strictly smaller
                assert(t[j] == r[j - 1]);
                if j - 1 > p {
                    assert(r[p].1 >= r[j - 1].1);
                }
                assert(r[j - 1].1 < x.1);
            } else if j == p {
                assert(t[i] == r[i]);
                lemma_pos_of_basic(s0, r[i]);
                lemma_pos_of_prefix(s, r[i]);
            } else {
                let i0: int = if i < p {
                    i
                } else {
                    i - 1
                };
                let j0: int = if j < p {
                    j
                } else {
                    j - 1
                };
                assert(t[i] == r[i0]);
                assert(t[j] == r[j0]);
                lemma_pos_of_basic(s0, r[i0]);
                lemma_pos_of_basic(s0, r[j0]);
                lemma_pos_of_prefix(s, r[i0]);
                lemma_pos_of_prefix(s, r[j0]);
            }
        }
    }
}

/// Law: for every input text and requested size, the ranked tally
/// `top_counts(s, n)` holds at most `n` entries when `n >= 0`; each
/// entry pairs a word with the number of times it occurs among the
/// whitespace-delimited tokens of the text; no word appears twice;
/// frequencies never increase from left to right; and entries of equal
/// frequency keep the first-seen order of their words.
pub proof fn lemma_top_counts_law(s: Seq<char>, n: int)
    ensures
        n >= 0 ==> top_counts(s, n).len() <= n,
        sorted_desc(top_counts(s, n)),
        unique_words(top_counts(s, n)),
        forall|k: int|
            0 <= k < top_counts(s, n).len() ==> counts_of(tokens(s)).contains(
                #[trigger] top_counts(s, n)[k],
            ) && top_counts(s, n)[k].1 == occurrences(tokens(s), top_counts(s, n)[k].0),
        forall|i: int, j: int|
            0 <= i < j < top_counts(s, n).len() && top_counts(s, n)[i].1 == top_counts(s, n)[j].1
                ==> pos_of(counts_of(tokens(s)), top_counts(s, n)[i]) < pos_of(
                counts_of(tokens(s)),
                top_counts(s, n)[j],
            ),
{
    let cs = counts_of(tokens(s));
    let ranked = sort_desc(cs);
    let top = top_counts(s, n);
    lemma_counts_correct(tokens(s));
    lemma_sort_desc_sorted(cs);
    lemma_sort_desc_unique(cs);
    lemma_sort_desc_stable(cs);
    lemma_sort_desc_entries(cs);
    assert forall|k: int| 0 <= k < top.len() implies cs.contains(#[trigger] top[k]) && top[k].1
        == occurrences(tokens(s), top[k].0) by {
        assert(top[k] == ranked[k]);
        assert(ranked.contains(ranked[k]));
        assert(cs.contains(ranked[k]));
        let k0 = choose|k0: int| 0 <= k0 < cs.len() && cs[k0] == ranked[k];
        assert(cs[k0].1 == occurrences(tokens(s), cs[k0].0));
    }
    assert forall|i: int, j: int|
        0 <= i < j < top.len() && top[i].1 == top[j].1 implies pos_of(cs, top[i]) < pos_of(
        cs,
        top[j],
    ) by {
        assert(top[i] == ranked[i]);
        assert(top[j] == ranked[j]);
    }
}

} // verus!
