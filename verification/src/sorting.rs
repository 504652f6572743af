//! Ordering records by a string key: a stable sort in ascending byte order,
//! and the sorted list of the distinct strings of a list.

use vstd::prelude::*;
use vstd::multiset::Multiset;
use vstd::seq_lib::*;
use crate::text::{lemma_bytes_lt_transitive, rank_strs, str_eq, str_lt, utf8, Rank};

verus! {

/// Something that is listed under a string key.
pub trait Keyed {
    /// The key it is ordered by.
    spec fn key(&self) -> Seq<char>;
}

/// A record that can hand out its key for comparing.
pub trait KeyedRecord: Keyed {
    /// The key the record is ordered by.
    fn key_str(&self) -> (k: &str)
        ensures
            k@ == self.key(),
    ;
}

impl Keyed for String {
    open spec fn key(&self) -> Seq<char> {
        self@
    }
}

impl KeyedRecord for String {
    fn key_str(&self) -> (k: &str) {
        self.as_str()
    }
}

/// `out` holds the records of `input`, each exactly once: `out[i]` is
/// `input[p[i]]`, and no position of `input` is used twice.
pub open spec fn arranges<T>(input: Seq<T>, out: Seq<T>, p: Seq<int>) -> bool {
    &&& out.len() == input.len()
    &&& p.len() == input.len()
    &&& forall|i: int| 0 <= i < p.len() ==> 0 <= #[trigger] p[i] < input.len()
    &&& forall|i: int| 0 <= i < p.len() ==> #[trigger] out[i] == input[p[i]]
    &&& forall|i: int, j: int| 0 <= i < j < p.len() ==> #[trigger] p[i] != #[trigger] p[j]
}

/// Record `a`, taken from position `pa`, belongs before record `b`, taken from
/// position `pb`: its key is smaller, or the keys are equal and it came first.
pub open spec fn goes_before(a: Seq<char>, pa: int, b: Seq<char>, pb: int) -> bool {
    str_lt(a, b) || (a == b && pa < pb)
}

/// Keys ascend along `out`, and records with equal keys stand in the order of
/// the positions `p` they were taken from.
pub open spec fn in_key_order<T: Keyed>(out: Seq<T>, p: Seq<int>) -> bool {
    forall|i: int, j: int|
        0 <= i < j < out.len() && j < p.len() ==> goes_before(
            #[trigger] out[i].key(),
            p[i],
            #[trigger] out[j].key(),
            p[j],
        )
}

/// `out` is `input` sorted by key in ascending byte order, records with equal
/// keys keeping the order they had in `input`.
pub open spec fn stable_sort_of<T: Keyed>(input: Seq<T>, out: Seq<T>) -> bool {
    exists|p: Seq<int>| #[trigger] arranges(input, out, p) && in_key_order(out, p)
}

/// Keys ascend along `s`, equal keys allowed.
pub open spec fn keys_ascend<T: Keyed>(s: Seq<T>) -> bool {
    forall|i: int, j: int|
        0 <= i < j < s.len() ==> #[trigger] s[i].key() == #[trigger] s[j].key() || str_lt(
            s[i].key(),
            s[j].key(),
        )
}

/// A stable sort of `input` has ascending keys, is as long as `input`, and
/// holds records of `input` only.
pub proof fn lemma_stable_sort_properties<T: Keyed>(input: Seq<T>, out: Seq<T>)
    requires
        stable_sort_of(input, out),
    ensures
        keys_ascend(out),
        out.len() == input.len(),
        forall|i: int| 0 <= i < out.len() ==> input.contains(#[trigger] out[i]),
{
    let p = choose|p: Seq<int>| #[trigger] arranges(input, out, p) && in_key_order(out, p);
    assert forall|i: int| 0 <= i < out.len() implies input.contains(#[trigger] out[i]) by {
        assert(out[i] == input[p[i]]);
    }
}

/// No string sorts strictly before itself.
pub proof fn lemma_str_lt_irreflexive(a: Seq<char>)
    ensures
        !str_lt(a, a),
{
}

/// The order of records by key and position is transitive.
pub proof fn lemma_goes_before_transitive(
    a: Seq<char>,
    pa: int,
    b: Seq<char>,
    pb: int,
    c: Seq<char>,
    pc: int,
)
    requires
        goes_before(a, pa, b, pb),
        goes_before(b, pb, c, pc),
    ensures
        goes_before(a, pa, c, pc),
{
    if str_lt(a, b) && str_lt(b, c) {
        lemma_bytes_lt_transitive(utf8(a), utf8(b), utf8(c));
    }
}

proof fn lemma_nothing_adds_nothing<T>(a: Seq<T>, e: Seq<T>)
    requires
        e.len() == 0,
    ensures
        a.to_multiset().add(e.to_multiset()) == a.to_multiset(),
        e.to_multiset().add(a.to_multiset()) == a.to_multiset(),
{
    broadcast use vstd::multiset::group_multiset_axioms;

    to_multiset_len(e);
    vstd::multiset::lemma_multiset_empty_len(e.to_multiset());
    assert(e.to_multiset() =~= Multiset::<T>::empty());
    assert(a.to_multiset().add(e.to_multiset()) =~= a.to_multiset());
    assert(e.to_multiset().add(a.to_multiset()) =~= a.to_multiset());
}

/// A list of at most one record is sorted as it stands.
proof fn lemma_short_is_sorted<T: Keyed>(s: Seq<T>)
    requires
        s.len() <= 1,
    ensures
        stable_sort_of(s, s),
{
    let p = Seq::new(s.len(), |i: int| i);
    assert(arranges(s, s, p));
    assert(in_key_order(s, p));
}

/// Sorting two lists and then sorting what the two results make together
/// sorts what the two lists make together.
proof fn lemma_sorted_halves<T: Keyed>(il: Seq<T>, ir: Seq<T>, sl: Seq<T>, sr: Seq<T>, out: Seq<T>)
    requires
        stable_sort_of(il, sl),
        stable_sort_of(ir, sr),
        stable_sort_of(sl + sr, out),
    ensures
        stable_sort_of(il + ir, out),
{
    let pl = choose|p: Seq<int>| #[trigger] arranges(il, sl, p) && in_key_order(sl, p);
    let pr = choose|p: Seq<int>| #[trigger] arranges(ir, sr, p) && in_key_order(sr, p);
    let q = choose|p: Seq<int>| #[trigger] arranges(sl + sr, out, p) && in_key_order(out, p);
    let mid = il.len() as int;
    let n = out.len() as int;
    let p = Seq::new(
        out.len(),
        |i: int|
            if q[i] < mid {
                pl[q[i]]
            } else {
                mid + pr[q[i] - mid]
            },
    );
    assert forall|i: int| 0 <= i < n implies 0 <= #[trigger] p[i] < n && out[i] == (il + ir)[p[i]] by {
        assert(0 <= q[i] < n);
        assert(out[i] == (sl + sr)[q[i]]);
        if q[i] < mid {
            assert(0 <= pl[q[i]] < mid);
            assert(sl[q[i]] == il[pl[q[i]]]);
        } else {
            assert(0 <= pr[q[i] - mid] < ir.len());
            assert(sr[q[i] - mid] == ir[pr[q[i] - mid]]);
        }
    }
    assert forall|i: int, j: int| 0 <= i < j < n implies p[i] != p[j] && goes_before(
        out[i].key(),
        p[i],
        out[j].key(),
        p[j],
    ) by {
        assert(0 <= q[i] < n && 0 <= q[j] < n);
        assert(q[i] != q[j]);
        assert(out[i] == (sl + sr)[q[i]] && out[j] == (sl + sr)[q[j]]);
        assert(goes_before(out[i].key(), q[i], out[j].key(), q[j]));
        lemma_str_lt_irreflexive(out[i].key());
        if q[i] < mid && q[j] < mid {
            assert(0 <= pl[q[i]] < mid && 0 <= pl[q[j]] < mid);
            assert(pl[q[i]] != pl[q[j]]);
            if q[i] < q[j] {
                assert(goes_before(sl[q[i]].key(), pl[q[i]], sl[q[j]].key(), pl[q[j]]));
            } else {
                assert(goes_before(sl[q[j]].key(), pl[q[j]], sl[q[i]].key(), pl[q[i]]));
                lemma_goes_before_asymmetric(out[i].key(), q[i], out[j].key(), q[j]);
            }
        } else if q[i] >= mid && q[j] >= mid {
            let a = q[i] - mid;
            let b = q[j] - mid;
            assert(0 <= pr[a] < ir.len() && 0 <= pr[b] < ir.len());
            assert(pr[a] != pr[b]);
            if a < b {
                assert(goes_before(sr[a].key(), pr[a], sr[b].key(), pr[b]));
            } else {
                assert(goes_before(sr[b].key(), pr[b], sr[a].key(), pr[a]));
                lemma_goes_before_asymmetric(out[i].key(), q[i], out[j].key(), q[j]);
            }
        } else if q[i] < mid {
            assert(0 <= pl[q[i]] < mid);
            assert(0 <= pr[q[j] - mid]);
        } else {
            assert(0 <= pl[q[j]] < mid);
            assert(0 <= pr[q[i] - mid]);
        }
    }
    assert(arranges(il + ir, out, p));
    assert(in_key_order(out, p));
}

/// Of two records, at most one goes before the other.
proof fn lemma_goes_before_asymmetric(a: Seq<char>, pa: int, b: Seq<char>, pb: int)
    requires
        goes_before(a, pa, b, pb),
    ensures
        !goes_before(b, pb, a, pa),
{
    if goes_before(b, pb, a, pa) {
        lemma_goes_before_transitive(a, pa, b, pb, a, pa);
        lemma_str_lt_irreflexive(a);
    }
}

/// Merges two lists with ascending keys into one: the records of both by
/// ascending key, those of `left` before those of `right` where keys are
/// equal.
fn merge<T: KeyedRecord>(left: Vec<T>, right: Vec<T>) -> (out: Vec<T>)
    requires
        keys_ascend(left@),
        keys_ascend(right@),
    ensures
        stable_sort_of(left@ + right@, out@),
        out@.to_multiset() == left@.to_multiset().add(right@.to_multiset()),
{
    let ghost ls = left@;
    let ghost rs = right@;
    let ghost all = ls + rs;
    let ghost l = ls.len() as int;
    let ghost n = all.len() as int;
    let mut left = left;
    let mut right = right;
    // The records taken so far, the last in order first.
    let mut back: Vec<T> = Vec::new();
    let ghost mut src: Seq<int> = Seq::empty();
    proof {
        assert(left@ =~= ls.take(left.len() as int));
        assert(right@ =~= rs.take(right.len() as int));
        lemma_nothing_adds_nothing(left@, back@);
        assert(back@.to_multiset().add(left@.to_multiset()) =~= left@.to_multiset());
    }
    while left.len() > 0 || right.len() > 0
        invariant
            left@ == ls.take(left.len() as int),
            right@ == rs.take(right.len() as int),
            left.len() <= ls.len(),
            right.len() <= rs.len(),
            all == ls + rs,
            l == ls.len(),
            n == l + rs.len(),
            keys_ascend(ls),
            keys_ascend(rs),
            src.len() == back.len(),
            back.len() == (ls.len() - left.len()) + (rs.len() - right.len()),
            forall|k: int| 0 <= k < src.len() ==> 0 <= #[trigger] src[k] < n,
            forall|k: int| 0 <= k < src.len() ==> #[trigger] back@[k] == all[src[k]],
            forall|k1: int, k2: int|
                0 <= k1 < k2 < src.len() ==> goes_before(
                    #[trigger] back@[k2].key(),
                    src[k2],
                    #[trigger] back@[k1].key(),
                    src[k1],
                ),
            forall|i: int|
                0 <= i < left.len() && back.len() > 0 ==> goes_before(
                    #[trigger] ls[i].key(),
                    i,
                    back@[back.len() - 1].key(),
                    src[back.len() - 1],
                ),
            forall|j: int|
                0 <= j < right.len() && back.len() > 0 ==> goes_before(
                    #[trigger] rs[j].key(),
                    l + j,
                    back@[back.len() - 1].key(),
                    src[back.len() - 1],
                ),
            back@.to_multiset().add(left@.to_multiset()).add(right@.to_multiset())
                == ls.to_multiset().add(rs.to_multiset()),
        decreases left.len() + right.len(),
    {
        let from_left = if right.len() == 0 {
            true
        } else if left.len() == 0 {
            false
        } else {
            rank_strs(left[left.len() - 1].key_str(), right[right.len() - 1].key_str())
                == Rank::After
        };
        let ghost old_back = back@;
        let ghost old_src = src;
        let ghost old_left = left@;
        let ghost old_right = right@;
        let ghost taken: int = if from_left {
            left.len() - 1
        } else {
            l + right.len() - 1
        };
        let x = if from_left {
            left.pop().unwrap()
        } else {
            right.pop().unwrap()
        };
        back.push(x);
        proof {
            src = old_src.push(taken);
            let m = old_back.len() as int;
            assert(x == all[taken]);
            assert(left@ =~= ls.take(left.len() as int));
            assert(right@ =~= rs.take(right.len() as int));
            // Multisets.
            to_multiset_build(old_back, x);
            if from_left {
                assert(old_left =~= left@.push(x));
                to_multiset_build(left@, x);
            } else {
                assert(old_right =~= right@.push(x));
                to_multiset_build(right@, x);
            }
            assert(back@.to_multiset().add(left@.to_multiset()).add(right@.to_multiset())
                =~= old_back.to_multiset().add(old_left.to_multiset()).add(
                old_right.to_multiset(),
            ));
            // What was taken before comes after the record taken now.
            assert forall|k1: int, k2: int| 0 <= k1 < k2 < src.len() implies goes_before(
                #[trigger] back@[k2].key(),
                src[k2],
                #[trigger] back@[k1].key(),
                src[k1],
            ) by {
                assert(back@[k1] == old_back[k1]);
                if k2 < m {
                    assert(back@[k2] == old_back[k2]);
                } else {
                    if from_left {
                        assert(goes_before(
                            ls[taken].key(),
                            taken,
                            old_back[m - 1].key(),
                            old_src[m - 1],
                        ));
                    } else {
                        assert(goes_before(
                            rs[taken - l].key(),
                            l + (taken - l),
                            old_back[m - 1].key(),
                            old_src[m - 1],
                        ));
                    }
                    if k1 < m - 1 {
                        assert(goes_before(
                            old_back[m - 1].key(),
                            old_src[m - 1],
                            old_back[k1].key(),
                            old_src[k1],
                        ));
                        lemma_goes_before_transitive(
                            x.key(),
                            taken,
                            old_back[m - 1].key(),
                            old_src[m - 1],
                            old_back[k1].key(),
                            old_src[k1],
                        );
                    }
                }
            }
            // What is left comes before the record taken now.
            assert forall|i: int| 0 <= i < left.len() implies goes_before(
                #[trigger] ls[i].key(),
                i,
                x.key(),
                taken,
            ) by {
                if from_left {
                    assert(ls[i].key() == ls[taken].key() || str_lt(ls[i].key(), ls[taken].key()));
                } else {
                    let top = old_left.len() - 1;
                    assert(old_left[top] == ls[top]);
                    assert(ls[top].key() == x.key() || str_lt(ls[top].key(), x.key()));
                    if i < top {
                        assert(ls[i].key() == ls[top].key() || str_lt(ls[i].key(), ls[top].key()));
                        if str_lt(ls[i].key(), ls[top].key()) && str_lt(ls[top].key(), x.key()) {
                            lemma_bytes_lt_transitive(
                                utf8(ls[i].key()),
                                utf8(ls[top].key()),
                                utf8(x.key()),
                            );
                        }
                    }
                }
            }
            assert forall|j: int| 0 <= j < right.len() implies goes_before(
                #[trigger] rs[j].key(),
                l + j,
                x.key(),
                taken,
            ) by {
                if from_left {
                    let top = old_right.len() - 1;
                    assert(old_right[top] == rs[top]);
                    assert(str_lt(rs[top].key(), x.key()));
                    if j < top {
                        assert(rs[j].key() == rs[top].key() || str_lt(rs[j].key(), rs[top].key()));
                        if str_lt(rs[j].key(), rs[top].key()) {
                            lemma_bytes_lt_transitive(
                                utf8(rs[j].key()),
                                utf8(rs[top].key()),
                                utf8(x.key()),
                            );
                        }
                    }
                } else {
                    assert(rs[j].key() == rs[taken - l].key() || str_lt(
                        rs[j].key(),
                        rs[taken - l].key(),
                    ));
                }
            }
        }
    }
    let ghost turned = back@;
    let mut out: Vec<T> = Vec::new();
    proof {
        lemma_nothing_adds_nothing(back@, left@);
        lemma_nothing_adds_nothing(back@, right@);
        lemma_nothing_adds_nothing(back@, out@);
        assert(back@ =~= turned.take(back.len() as int));
    }
    while back.len() > 0
        invariant
            back@ == turned.take(back.len() as int),
            back.len() <= turned.len(),
            out.len() + back.len() == turned.len(),
            forall|i: int| 0 <= i < out.len() ==> #[trigger] out@[i] == turned[turned.len() - 1 - i],
            out@.to_multiset().add(back@.to_multiset()) == turned.to_multiset(),
        decreases back.len(),
    {
        let ghost old_back = back@;
        let ghost old_out = out@;
        let x = back.pop().unwrap();
        out.push(x);
        proof {
            assert(back@ =~= turned.take(back.len() as int));
            assert(old_back =~= back@.push(x));
            to_multiset_build(back@, x);
            to_multiset_build(old_out, x);
            assert(out@.to_multiset().add(back@.to_multiset()) =~= old_out.to_multiset().add(
                old_back.to_multiset(),
            ));
        }
    }
    proof {
        lemma_nothing_adds_nothing(out@, back@);
        let p = Seq::new(n as nat, |i: int| src[n - 1 - i]);
        assert forall|i: int, j: int| 0 <= i < j < n implies #[trigger] p[i] != #[trigger] p[j] by {
            let k1 = n - 1 - j;
            let k2 = n - 1 - i;
            assert(goes_before(turned[k2].key(), src[k2], turned[k1].key(), src[k1]));
            lemma_str_lt_irreflexive(turned[k2].key());
            if src[k1] == src[k2] {
                assert(turned[k1] == all[src[k1]] && turned[k2] == all[src[k2]]);
            }
        }
        assert(arranges(all, out@, p)) by {
            assert forall|i: int| 0 <= i < p.len() implies #[trigger] out@[i] == all[p[i]] by {
                assert(turned[n - 1 - i] == all[src[n - 1 - i]]);
            }
        }
        assert(in_key_order(out@, p)) by {
            assert forall|i: int, j: int| 0 <= i < j < out@.len() && j < p.len() implies goes_before(
                #[trigger] out@[i].key(),
                p[i],
                #[trigger] out@[j].key(),
                p[j],
            ) by {
                let k1 = n - 1 - j;
                let k2 = n - 1 - i;
                assert(goes_before(turned[k2].key(), src[k2], turned[k1].key(), src[k1]));
            }
        }
    }
    out
}

/// Sorts records by key in ascending byte order; records with equal keys keep
/// their order.
pub fn sort_by_key<T: KeyedRecord>(v: Vec<T>) -> (out: Vec<T>)
    ensures
        stable_sort_of(v@, out@),
        out@.to_multiset() == v@.to_multiset(),
    decreases v.len(),
{
    if v.len() <= 1 {
        proof {
            lemma_short_is_sorted(v@);
        }
        return v;
    }
    let ghost input = v@;
    let mut first = v;
    let mid = first.len() / 2;
    let second = first.split_off(mid);
    let ghost il = first@;
    let ghost ir = second@;
    let left = sort_by_key(first);
    let right = sort_by_key(second);
    proof {
        lemma_stable_sort_properties(il, left@);
        lemma_stable_sort_properties(ir, right@);
    }
    let out = merge(left, right);
    proof {
        assert(il + ir =~= input);
        lemma_sorted_halves(il, ir, left@, right@, out@);
        lemma_multiset_commutative(il, ir);
    }
    out
}

/// The strings of `s` ascend strictly in byte order: none occurs twice.
pub open spec fn strictly_ascending(s: Seq<String>) -> bool {
    forall|i: int, j: int| 0 <= i < j < s.len() ==> str_lt(#[trigger] s[i]@, #[trigger] s[j]@)
}

/// Some string of `s` holds the characters `t`.
pub open spec fn holds_text(s: Seq<String>, t: Seq<char>) -> bool {
    exists|i: int| 0 <= i < s.len() && #[trigger] s[i]@ == t
}

/// The distinct strings of `v`, in ascending byte order.
pub fn sorted_distinct(v: Vec<String>) -> (out: Vec<String>)
    ensures
        strictly_ascending(out@),
        forall|t: Seq<char>| holds_text(out@, t) <==> holds_text(v@, t),
{
    let sorted = sort_by_key(v);
    proof {
        lemma_stable_sort_properties(v@, sorted@);
        assert forall|j: int| 0 <= j < v@.len() implies sorted@.contains(#[trigger] v@[j]) by {
            to_multiset_contains(v@, v@[j]);
            to_multiset_contains(sorted@, v@[j]);
        }
    }
    let mut out: Vec<String> = Vec::new();
    let mut i: usize = 0;
    while i < sorted.len()
        invariant
            i <= sorted.len(),
            keys_ascend(sorted@),
            strictly_ascending(out@),
            i == 0 ==> out.len() == 0,
            i > 0 ==> out.len() > 0 && out@[out.len() - 1]@ == sorted@[i - 1]@,
            forall|j: int| 0 <= j < i ==> holds_text(out@, #[trigger] sorted@[j]@),
            forall|k: int| 0 <= k < out.len() ==> holds_text(sorted@, #[trigger] out@[k]@),
        decreases sorted.len() - i,
    {
        let fresh = i == 0 || !str_eq(sorted[i].as_str(), sorted[i - 1].as_str());
        if fresh {
            let ghost old_out = out@;
            let item = sorted[i].clone();
            out.push(item);
            proof {
                let n = old_out.len() as int;
                assert(out@[n]@ == sorted@[i as int]@);
                assert forall|a: int, b: int| 0 <= a < b < out@.len() implies str_lt(
                    #[trigger] out@[a]@,
                    #[trigger] out@[b]@,
                ) by {
                    if b == n {
                        assert(out@[a] == old_out[a]);
                        assert(sorted@[i - 1].key() == sorted@[i as int].key() || str_lt(
                            sorted@[i - 1].key(),
                            sorted@[i as int].key(),
                        ));
                        if a < n - 1 {
                            assert(str_lt(old_out[a]@, old_out[n - 1]@));
                            lemma_bytes_lt_transitive(
                                utf8(old_out[a]@),
                                utf8(old_out[n - 1]@),
                                utf8(out@[n]@),
                            );
                        }
                    } else {
                        assert(out@[a] == old_out[a] && out@[b] == old_out[b]);
                    }
                }
                assert forall|j: int| 0 <= j < i + 1 implies holds_text(
                    out@,
                    #[trigger] sorted@[j]@,
                ) by {
                    if j < i {
                        let k = choose|k: int| 0 <= k < old_out.len() && #[trigger] old_out[k]@ == sorted@[j]@;
                        assert(out@[k]@ == sorted@[j]@);
                    } else {
                        assert(out@[n]@ == sorted@[j]@);
                    }
                }
                assert forall|k: int| 0 <= k < out.len() implies holds_text(
                    sorted@,
                    #[trigger] out@[k]@,
                ) by {
                    if k < n {
                        assert(out@[k] == old_out[k]);
                    } else {
                        assert(sorted@[i as int]@ == out@[k]@);
                    }
                }
            }
        } else {
            proof {
                assert forall|j: int| 0 <= j < i + 1 implies holds_text(
                    out@,
                    #[trigger] sorted@[j]@,
                ) by {
                    if j == i {
                        assert(out@[out.len() - 1]@ == sorted@[j]@);
                    }
                }
            }
        }
        i += 1;
    }
    proof {
        assert forall|t: Seq<char>| holds_text(out@, t) <==> holds_text(v@, t) by {
            if holds_text(out@, t) {
                let k = choose|k: int| 0 <= k < out@.len() && #[trigger] out@[k]@ == t;
                assert(holds_text(sorted@, out@[k]@));
                let j = choose|j: int| 0 <= j < sorted@.len() && #[trigger] sorted@[j]@ == t;
                assert(v@.contains(sorted@[j]));
                let w = choose|w: int| 0 <= w < v@.len() && v@[w] == sorted@[j];
                assert(v@[w]@ == t);
            }
            if holds_text(v@, t) {
                let w = choose|w: int| 0 <= w < v@.len() && #[trigger] v@[w]@ == t;
                assert(sorted@.contains(v@[w]));
                let j = choose|j: int| 0 <= j < sorted@.len() && sorted@[j] == v@[w];
                assert(holds_text(out@, sorted@[j]@));
            }
        }
    }
    out
}

} // verus!
