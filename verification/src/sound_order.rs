use vstd::prelude::*;

use crate::sounds::{
    has_name, is_alarm_entry, lemma_named_insert, lemma_offered_sounds_are_the_alarm_files, named,
    offered_sounds, sorted_by_name, sound_of, stem_of, file_name_of, is_wav, extension_of,
};
use crate::text::{
    lemma_lex_le_antisymmetric, lemma_lex_le_reflexive, lemma_lex_le_total, lemma_lex_le_transitive,
    lex_le,
};

verus! {

/// No two sounds share a name.
pub open spec fn distinct_names(s: Seq<(Seq<char>, Seq<char>)>) -> bool {
    forall|i: int, j: int| 0 <= i < j < s.len() ==> #[trigger] s[i].0 != #[trigger] s[j].0
}

/// The name of a sound.
pub open spec fn sound_name(s: (Seq<char>, Seq<char>)) -> Seq<char> {
    s.0
}

/// Every offered sound is named by the stem of its own path, and that path names a
/// `.wav` file (in any ASCII case).
pub proof fn lemma_offered_name_is_stem_of_path(entries: Seq<Option<Seq<char>>>)
    ensures
        forall|i: int|
            0 <= i < offered_sounds(entries).len() ==> {
                let s = #[trigger] offered_sounds(entries)[i];
                &&& s.0 == stem_of(file_name_of(s.1))
                &&& is_wav(extension_of(file_name_of(s.1)))
            },
{
    lemma_offered_sounds_are_the_alarm_files(entries);
    assert forall|i: int| 0 <= i < offered_sounds(entries).len() implies {
        let s = #[trigger] offered_sounds(entries)[i];
        &&& s.0 == stem_of(file_name_of(s.1))
        &&& is_wav(extension_of(file_name_of(s.1)))
    } by {
        let j = choose|j: int|
            0 <= j < entries.len() && is_alarm_entry(#[trigger] entries[j])
                && offered_sounds(entries)[i] == crate::sounds::entry_sound(entries[j]);
        assert(entries[j] is Some);
    }
}

/// The sounds of a listing made of two parts are those of the first part, then those
/// of the second.
pub proof fn lemma_offered_concat(u: Seq<Option<Seq<char>>>, v: Seq<Option<Seq<char>>>)
    ensures
        offered_sounds(u + v) == offered_sounds(u) + offered_sounds(v),
    decreases v.len(),
{
    if v.len() == 0 {
        assert(u + v =~= u);
        assert(offered_sounds(u) + offered_sounds(v) =~= offered_sounds(u));
    } else {
        lemma_offered_concat(u, v.drop_last());
        assert((u + v).drop_last() =~= u + v.drop_last());
        assert((u + v).last() == v.last());
        if sound_of(v.last()) is Some {
            assert(offered_sounds(u + v) =~= offered_sounds(u) + offered_sounds(v));
        }
    }
}

proof fn lemma_offered_single(e: Option<Seq<char>>)
    ensures
        offered_sounds(seq![e]) == match sound_of(e) {
            Some(s) => seq![s],
            None => Seq::<(Seq<char>, Seq<char>)>::empty(),
        },
{
    let d = seq![e].drop_last();
    assert(d =~= Seq::<Option<Seq<char>>>::empty());
    assert(offered_sounds(d) =~= Seq::<(Seq<char>, Seq<char>)>::empty());
    assert(seq![e].last() == e);
    if sound_of(e) is Some {
        assert(Seq::<(Seq<char>, Seq<char>)>::empty().push(sound_of(e)->0) =~= seq![sound_of(e)->0]);
    }
}

/// Listings that hold the same entries, in any order, offer the same sounds, in
/// some order.
pub proof fn lemma_offered_permutation(a: Seq<Option<Seq<char>>>, b: Seq<Option<Seq<char>>>)
    requires
        a.to_multiset() == b.to_multiset(),
    ensures
        offered_sounds(a).to_multiset() == offered_sounds(b).to_multiset(),
    decreases a.len(),
{
    broadcast use vstd::seq_lib::group_to_multiset_ensures;
    broadcast use vstd::multiset::group_multiset_axioms;

    assert(a.to_multiset().len() == a.len());
    assert(b.to_multiset().len() == b.len());
    if a.len() == 0 {
        assert(b.len() == 0);
        assert(a =~= b);
    } else {
        let x = a.last();
        assert(a.contains(x)) by {
            assert(a[a.len() - 1] == x);
        }
        assert(a.to_multiset().count(x) > 0);
        assert(b.to_multiset().count(x) > 0);
        assert(b.contains(x));
        let k = choose|k: int| 0 <= k < b.len() && b[k] == x;
        let ad = a.drop_last();
        let bk = b.remove(k);
        assert(ad =~= a.remove(a.len() - 1));
        assert(ad.to_multiset() =~= bk.to_multiset());
        lemma_offered_permutation(ad, bk);
        let front = b.take(k);
        let back = b.skip(k + 1);
        assert(b =~= (front + seq![x]) + back);
        assert(bk =~= front + back);
        assert(a =~= ad + seq![x]);
        lemma_offered_concat(front + seq![x], back);
        lemma_offered_concat(front, seq![x]);
        lemma_offered_concat(front, back);
        lemma_offered_concat(ad, seq![x]);
        lemma_offered_single(x);
        let ox = offered_sounds(seq![x]);
        vstd::seq_lib::lemma_multiset_commutative(offered_sounds(front) + ox, offered_sounds(back));
        vstd::seq_lib::lemma_multiset_commutative(offered_sounds(front), ox);
        vstd::seq_lib::lemma_multiset_commutative(offered_sounds(front), offered_sounds(back));
        vstd::seq_lib::lemma_multiset_commutative(offered_sounds(ad), ox);
        assert(offered_sounds(a).to_multiset() =~= offered_sounds(b).to_multiset());
    }
}

/// Sequences with the same contents have distinct names together.
proof fn lemma_distinct_names_transfer(x: Seq<(Seq<char>, Seq<char>)>, y: Seq<(Seq<char>, Seq<char>)>)
    requires
        x.to_multiset() == y.to_multiset(),
        distinct_names(x),
    ensures
        distinct_names(y),
{
    broadcast use vstd::seq_lib::group_to_multiset_ensures;

    assert(x.no_duplicates()) by {
        assert forall|i: int, j: int| 0 <= i < x.len() && 0 <= j < x.len() && i != j implies x[i]
            != x[j] by {
            if i < j {
                assert(x[i].0 != x[j].0);
            } else {
                assert(x[j].0 != x[i].0);
            }
        }
    }
    x.lemma_multiset_has_no_duplicates();
    y.lemma_multiset_has_no_duplicates_conv();
    assert forall|i: int, j: int| 0 <= i < j < y.len() implies #[trigger] y[i].0 != #[trigger] y[j].0 by {
        if y[i].0 == y[j].0 {
            assert(y.contains(y[i]));
            assert(y.contains(y[j]));
            assert(y.to_multiset().count(y[i]) > 0);
            assert(y.to_multiset().count(y[j]) > 0);
            assert(x.to_multiset().count(y[i]) > 0);
            assert(x.to_multiset().count(y[j]) > 0);
            assert(x.contains(y[i]));
            assert(x.contains(y[j]));
            let p = choose|p: int| 0 <= p < x.len() && x[p] == y[i];
            let q = choose|q: int| 0 <= q < x.len() && x[q] == y[j];
            if p < q {
                assert(x[p].0 != x[q].0);
            } else if q < p {
                assert(x[q].0 != x[p].0);
            }
        }
    }
}

proof fn lemma_sorted_tail(x: Seq<(Seq<char>, Seq<char>)>)
    requires
        x.len() > 0,
        sorted_by_name(x),
    ensures
        sorted_by_name(x.drop_first()),
{
    let t = x.drop_first();
    assert forall|i: int, j: int| 0 <= i < j < t.len() implies lex_le(#[trigger] t[i].0, #[trigger] t[j].0) by {
        assert(t[i] == x[i + 1]);
        assert(t[j] == x[j + 1]);
        assert(lex_le(x[i + 1].0, x[j + 1].0));
    }
}

/// An element of a sorted sequence has a name no earlier than the first one's.
proof fn lemma_first_is_least(x: Seq<(Seq<char>, Seq<char>)>, j: int)
    requires
        sorted_by_name(x),
        0 <= j < x.len(),
    ensures
        lex_le(x[0].0, x[j].0),
{
    if j == 0 {
        lemma_lex_le_reflexive(x[0].0);
    } else {
        assert(lex_le(x[0].0, x[j].0));
    }
}

/// Two sorted sequences with the same contents and no shared names are equal.
proof fn lemma_sorted_same_contents(x: Seq<(Seq<char>, Seq<char>)>, y: Seq<(Seq<char>, Seq<char>)>)
    requires
        sorted_by_name(x),
        sorted_by_name(y),
        x.to_multiset() == y.to_multiset(),
        distinct_names(x),
    ensures
        x == y,
    decreases x.len(),
{
    broadcast use vstd::seq_lib::group_to_multiset_ensures;

    assert(x.to_multiset().len() == x.len());
    assert(y.to_multiset().len() == y.len());
    assert(x.len() == y.len());
    if x.len() == 0 {
        assert(x =~= y);
    } else {
        let x0 = x[0];
        let y0 = y[0];
        assert(x.contains(x0));
        assert(x.to_multiset().count(x0) > 0);
        assert(y.to_multiset().count(x0) > 0);
        assert(y.contains(x0));
        let j = choose|j: int| 0 <= j < y.len() && y[j] == x0;
        lemma_first_is_least(y, j);
        assert(y.contains(y0));
        assert(y.to_multiset().count(y0) > 0);
        assert(x.to_multiset().count(y0) > 0);
        assert(x.contains(y0));
        let i = choose|i: int| 0 <= i < x.len() && x[i] == y0;
        lemma_first_is_least(x, i);
        lemma_lex_le_antisymmetric(x0.0, y0.0);
        if i > 0 {
            assert(x[0].0 != x[i].0);
        }
        assert(x0 == y0);
        let xt = x.drop_first();
        let yt = y.drop_first();
        assert(xt =~= x.remove(0));
        assert(yt =~= y.remove(0));
        assert(xt.to_multiset() =~= yt.to_multiset());
        lemma_sorted_tail(x);
        lemma_sorted_tail(y);
        assert forall|a: int, b: int| 0 <= a < b < xt.len() implies #[trigger] xt[a].0 != #[trigger] xt[b].0 by {
            assert(x[a + 1].0 != x[b + 1].0);
        }
        lemma_sorted_same_contents(xt, yt);
        assert(x =~= seq![x0] + xt);
        assert(y =~= seq![y0] + yt);
    }
}

/// Listing order does not matter: two listings that hold the same entries in any
/// order give the same sound list, as long as no two offered sounds share a name
/// (stated over what `select_alarm_sounds` ensures of its two results).
pub proof fn lemma_listing_order_does_not_matter(
    a: Seq<Option<Seq<char>>>,
    b: Seq<Option<Seq<char>>>,
    r1: Seq<(Seq<char>, Seq<char>)>,
    r2: Seq<(Seq<char>, Seq<char>)>,
)
    requires
        a.to_multiset() == b.to_multiset(),
        distinct_names(offered_sounds(a)),
        sorted_by_name(r1),
        r1.to_multiset() == offered_sounds(a).to_multiset(),
        sorted_by_name(r2),
        r2.to_multiset() == offered_sounds(b).to_multiset(),
    ensures
        r1 == r2,
{
    lemma_offered_permutation(a, b);
    lemma_distinct_names_transfer(offered_sounds(a), r1);
    lemma_sorted_same_contents(r1, r2);
}

proof fn lemma_named_empty(name: Seq<char>)
    ensures
        named(Seq::<(Seq<char>, Seq<char>)>::empty(), name) == Seq::<(Seq<char>, Seq<char>)>::empty(),
{
    reveal(Seq::filter);
}

proof fn lemma_named_prepend(x0: (Seq<char>, Seq<char>), t: Seq<(Seq<char>, Seq<char>)>, name: Seq<char>)
    ensures
        named(seq![x0] + t, name) == if x0.0 == name {
            seq![x0] + named(t, name)
        } else {
            named(t, name)
        },
{
    t.lemma_filter_prepend(x0, has_name(name));
    if x0.0 != name {
        assert(Seq::<(Seq<char>, Seq<char>)>::empty() + named(t, name) =~= named(t, name));
    }
}

/// Two sorted sequences that hold, for every name, the same sounds in the same order
/// are equal.
proof fn lemma_sorted_same_named(x: Seq<(Seq<char>, Seq<char>)>, y: Seq<(Seq<char>, Seq<char>)>)
    requires
        sorted_by_name(x),
        sorted_by_name(y),
        forall|n: Seq<char>| #[trigger] named(x, n) == named(y, n),
    ensures
        x == y,
    decreases x.len() + y.len(),
{
    if x.len() == 0 || y.len() == 0 {
        if x.len() > 0 {
            x.lemma_filter_contains(has_name(x[0].0), 0);
            assert(named(x, x[0].0) == named(y, x[0].0));
            assert(y =~= Seq::<(Seq<char>, Seq<char>)>::empty());
            lemma_named_empty(x[0].0);
        } else if y.len() > 0 {
            y.lemma_filter_contains(has_name(y[0].0), 0);
            assert(named(x, y[0].0) == named(y, y[0].0));
            assert(x =~= Seq::<(Seq<char>, Seq<char>)>::empty());
            lemma_named_empty(y[0].0);
        }
        assert(x =~= y);
    } else {
        let x0 = x[0];
        let y0 = y[0];
        let xt = x.drop_first();
        let yt = y.drop_first();
        assert(x =~= seq![x0] + xt);
        assert(y =~= seq![y0] + yt);
        x.lemma_filter_contains(has_name(x0.0), 0);
        assert(named(y, x0.0) == named(x, x0.0));
        y.lemma_filter_contains_rev(has_name(x0.0), x0);
        let j = choose|j: int| 0 <= j < y.len() && y[j] == x0;
        lemma_first_is_least(y, j);
        y.lemma_filter_contains(has_name(y0.0), 0);
        assert(named(x, y0.0) == named(y, y0.0));
        x.lemma_filter_contains_rev(has_name(y0.0), y0);
        let i = choose|i: int| 0 <= i < x.len() && x[i] == y0;
        lemma_first_is_least(x, i);
        lemma_lex_le_antisymmetric(x0.0, y0.0);
        let n0 = x0.0;
        lemma_named_prepend(x0, xt, n0);
        lemma_named_prepend(y0, yt, n0);
        assert(named(x, n0)[0] == x0);
        assert(named(y, n0)[0] == y0);
        assert(x0 == y0);
        assert forall|n: Seq<char>| #[trigger] named(xt, n) == named(yt, n) by {
            lemma_named_prepend(x0, xt, n);
            lemma_named_prepend(y0, yt, n);
            assert(named(x, n) == named(y, n));
            if n == n0 {
                assert(named(xt, n) =~= named(x, n).drop_first());
                assert(named(yt, n) =~= named(y, n).drop_first());
            }
        }
        lemma_sorted_tail(x);
        lemma_sorted_tail(y);
        lemma_sorted_same_named(xt, yt);
        assert(x =~= y);
    }
}

/// Where a sound with name `key` goes in a sorted sequence: after every name no
/// later than `key`, before every later one.
proof fn lemma_insertion_point(r: Seq<(Seq<char>, Seq<char>)>, key: Seq<char>) -> (p: int)
    requires
        sorted_by_name(r),
    ensures
        0 <= p <= r.len(),
        forall|j: int| 0 <= j < p ==> lex_le(#[trigger] r[j].0, key),
        forall|j: int| p <= j < r.len() ==> !lex_le(#[trigger] r[j].0, key),
    decreases r.len(),
{
    if r.len() == 0 {
        0
    } else if lex_le(r.last().0, key) {
        assert forall|j: int| 0 <= j < r.len() implies lex_le(#[trigger] r[j].0, key) by {
            if j < r.len() - 1 {
                assert(lex_le(r[j].0, r[r.len() - 1].0));
                lemma_lex_le_transitive(r[j].0, r[r.len() - 1].0, key);
            }
        }
        r.len() as int
    } else {
        let d = r.drop_last();
        assert forall|i: int, j: int| 0 <= i < j < d.len() implies lex_le(#[trigger] d[i].0, #[trigger] d[j].0) by {
            assert(lex_le(r[i].0, r[j].0));
        }
        let p = lemma_insertion_point(d, key);
        assert forall|j: int| p <= j < r.len() implies !lex_le(#[trigger] r[j].0, key) by {
            if j < r.len() - 1 {
                assert(!lex_le(d[j].0, key));
            }
        }
        assert forall|j: int| 0 <= j < p implies lex_le(#[trigger] r[j].0, key) by {
            assert(lex_le(d[j].0, key));
        }
        p
    }
}

/// One more file in the media directory changes the sound list by at most one sound:
/// a file that is not an alarm sound changes nothing, and an alarm sound whose name
/// no other offered sound has is inserted at its sorted place, wherever the listing
/// puts the file (stated over what `select_alarm_sounds` ensures of its two results).
pub proof fn lemma_one_more_file(
    a: Seq<Option<Seq<char>>>,
    k: int,
    f: Option<Seq<char>>,
    r1: Seq<(Seq<char>, Seq<char>)>,
    r2: Seq<(Seq<char>, Seq<char>)>,
)
    requires
        0 <= k <= a.len(),
        sorted_by_name(r1),
        forall|n: Seq<char>| #[trigger] named(r1, n) == named(offered_sounds(a), n),
        sorted_by_name(r2),
        forall|n: Seq<char>| #[trigger] named(r2, n) == named(offered_sounds(a.insert(k, f)), n),
        sound_of(f) is Some ==> forall|i: int|
            0 <= i < offered_sounds(a).len() ==> (#[trigger] offered_sounds(a)[i]).0 != sound_name(sound_of(f)->0),
    ensures
        sound_of(f) is None ==> r2 == r1,
        sound_of(f) is Some ==> exists|p: int| 0 <= p <= r1.len() && r2 == r1.insert(p, sound_of(f)->0),
{
    let a2 = a.insert(k, f);
    let front = a.take(k);
    let back = a.skip(k);
    assert(a2 =~= (front + seq![f]) + back);
    assert(a =~= front + back);
    lemma_offered_concat(front + seq![f], back);
    lemma_offered_concat(front, seq![f]);
    lemma_offered_concat(front, back);
    lemma_offered_single(f);
    let of = offered_sounds(front);
    let ob = offered_sounds(back);
    if sound_of(f) is None {
        assert(offered_sounds(a2) =~= offered_sounds(a));
        lemma_sorted_same_named(r1, r2);
    } else {
        let s = sound_of(f)->0;
        let key = s.0;
        let p = lemma_insertion_point(r1, key);
        let x = r1.insert(p, s);
        assert forall|j: int| p <= j < r1.len() implies (#[trigger] r1[j]).0 != key by {
            if r1[j].0 == key {
                lemma_lex_le_reflexive(key);
            }
        }
        // `x` is sorted.
        assert forall|i: int, j: int| 0 <= i < j < x.len() implies lex_le(#[trigger] x[i].0, #[trigger] x[j].0) by {
            if j < p {
                assert(lex_le(r1[i].0, r1[j].0));
            } else if j == p {
                assert(lex_le(r1[i].0, key));
            } else if i < p {
                assert(lex_le(r1[i].0, key));
                lemma_lex_le_total(key, r1[j - 1].0);
                lemma_lex_le_transitive(r1[i].0, key, r1[j - 1].0);
            } else if i == p {
                lemma_lex_le_total(key, r1[j - 1].0);
            } else {
                assert(lex_le(r1[i - 1].0, r1[j - 1].0));
            }
        }
        // No offered sound of `a` has the new name.
        let pred = has_name(key);
        assert(offered_sounds(a).all(|y: (Seq<char>, Seq<char>)| !pred(y))) by {
            assert forall|i: int| 0 <= i < offered_sounds(a).len() implies !pred(
                #[trigger] offered_sounds(a)[i],
            ) by {
                assert(offered_sounds(a)[i].0 != key);
            }
        }
        offered_sounds(a).lemma_all_neg_filter_empty(pred);
        assert forall|n: Seq<char>| #[trigger] named(x, n) == named(offered_sounds(a2), n) by {
            lemma_named_insert(r1, p, s, n);
            let q = has_name(n);
            Seq::filter_distributes_over_add(of + seq![s], ob, q);
            Seq::filter_distributes_over_add(of, seq![s], q);
            Seq::filter_distributes_over_add(of, ob, q);
            Seq::<(Seq<char>, Seq<char>)>::empty().lemma_filter_push(s, q);
            assert(seq![s] =~= Seq::<(Seq<char>, Seq<char>)>::empty().push(s));
            lemma_named_empty(n);
            assert(named(r1, n) == named(offered_sounds(a), n));
            if n == key {
                assert(named(offered_sounds(a), n).len() == 0);
                assert(of.filter(q).len() + ob.filter(q).len() == 0);
                assert(of.filter(q) =~= Seq::<(Seq<char>, Seq<char>)>::empty());
                assert(ob.filter(q) =~= Seq::<(Seq<char>, Seq<char>)>::empty());
                assert(named(x, n) =~= named(offered_sounds(a2), n));
            } else {
                assert(named(offered_sounds(a2), n) =~= of.filter(q) + ob.filter(q));
            }
        }
        lemma_sorted_same_named(x, r2);
        assert(r2 == r1.insert(p, s));
    }
}

} // verus!
