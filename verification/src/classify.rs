//! Filtering and classification of enumerated display modes.
//!
//! The raw mode table is narrowed by the fixed policy (60 Hz, default
//! scaling) and the surviving modes are split into a favorites bucket and
//! an others bucket by membership of their resolution/refresh-rate triple
//! in a favorites list. Both buckets keep the filtered enumeration order:
//! the favorites list is a membership filter, not a priority permutation.

use vstd::prelude::*;
use crate::modes::{DisplayMode, spec_keeps, keeps, triple_of};

verus! {

/// Whether the triple of `m` is named in the favorites list. Membership
/// is order-independent: the position in the list does not matter.
pub open spec fn spec_is_favorite(m: DisplayMode, favs: Seq<(u32, u32, u32)>) -> bool {
    favs.contains(triple_of(m))
}

/// The fixed policy as a predicate value, for use with `Seq::filter`.
pub open spec fn keep_pred() -> spec_fn(DisplayMode) -> bool {
    |m: DisplayMode| spec_keeps(m)
}

/// Membership of the favorites list as a predicate value.
pub open spec fn fav_pred(favs: Seq<(u32, u32, u32)>) -> spec_fn(DisplayMode) -> bool {
    |m: DisplayMode| spec_is_favorite(m, favs)
}

/// The complement of `fav_pred`.
pub open spec fn other_pred(favs: Seq<(u32, u32, u32)>) -> spec_fn(DisplayMode) -> bool {
    |m: DisplayMode| !spec_is_favorite(m, favs)
}

/// The modes that pass the fixed policy, in enumeration order.
pub open spec fn spec_filtered(s: Seq<DisplayMode>) -> Seq<DisplayMode> {
    s.filter(keep_pred())
}

/// The favorites bucket: the filtered modes whose triple is in the
/// favorites list, in filtered-enumeration order.
pub open spec fn spec_favorites_out(s: Seq<DisplayMode>, favs: Seq<(u32, u32, u32)>) -> Seq<
    DisplayMode,
> {
    spec_filtered(s).filter(fav_pred(favs))
}

/// The others bucket: the filtered modes whose triple is not in the
/// favorites list, in filtered-enumeration order.
pub open spec fn spec_others_out(s: Seq<DisplayMode>, favs: Seq<(u32, u32, u32)>) -> Seq<
    DisplayMode,
> {
    spec_filtered(s).filter(other_pred(favs))
}

/// The fixed list of preferred resolution/refresh-rate triples.
pub open spec fn spec_default_favorites() -> Seq<(u32, u32, u32)> {
    seq![
        (1280u32, 720u32, 60u32),
        (1920u32, 1080u32, 60u32),
        (2560u32, 1440u32, 60u32),
        (3840u32, 2160u32, 60u32),
    ]
}

/// Builds the fixed favorites list.
pub fn default_favorites() -> (v: Vec<(u32, u32, u32)>)
    ensures
        v@ == spec_default_favorites(),
{
    let mut v: Vec<(u32, u32, u32)> = Vec::new();
    v.push((1280, 720, 60));
    v.push((1920, 1080, 60));
    v.push((2560, 1440, 60));
    v.push((3840, 2160, 60));
    proof {
        assert(v@ =~= spec_default_favorites());
    }
    v
}

/// Tests whether the triple of `m` is named in `favorites`.
pub fn is_favorite(m: &DisplayMode, favorites: &Vec<(u32, u32, u32)>) -> (b: bool)
    ensures
        b == spec_is_favorite(*m, favorites@),
{
    let mut i: usize = 0;
    while i < favorites.len()
        invariant
            i <= favorites.len(),
            forall|j: int| 0 <= j < i ==> favorites@[j] != triple_of(*m),
        decreases favorites.len() - i,
    {
        let f = favorites[i];
        if f.0 == m.width && f.1 == m.height && f.2 == m.refresh_rate {
            proof {
                assert(favorites@[i as int] =~= triple_of(*m));
            }
            return true;
        }
        i += 1;
    }
    false
}

/// How one more element changes a filtered sequence.
proof fn lemma_filter_push<A>(s: Seq<A>, x: A, p: spec_fn(A) -> bool)
    ensures
        s.push(x).filter(p) == if p(x) {
            s.filter(p).push(x)
        } else {
            s.filter(p)
        },
{
    reveal(Seq::filter);
    assert(s.push(x).drop_last() =~= s);
    assert(s.push(x).last() == x);
}

/// How one more input mode changes the two buckets.
proof fn lemma_classify_step(s: Seq<DisplayMode>, favs: Seq<(u32, u32, u32)>, i: int)
    requires
        0 <= i < s.len(),
    ensures
        spec_favorites_out(s.take(i + 1), favs) == if spec_keeps(s[i]) && spec_is_favorite(
            s[i],
            favs,
        ) {
            spec_favorites_out(s.take(i), favs).push(s[i])
        } else {
            spec_favorites_out(s.take(i), favs)
        },
        spec_others_out(s.take(i + 1), favs) == if spec_keeps(s[i]) && !spec_is_favorite(
            s[i],
            favs,
        ) {
            spec_others_out(s.take(i), favs).push(s[i])
        } else {
            spec_others_out(s.take(i), favs)
        },
{
    assert(s.take(i + 1) =~= s.take(i).push(s[i]));
    lemma_filter_push(s.take(i), s[i], keep_pred());
    if spec_keeps(s[i]) {
        lemma_filter_push(spec_filtered(s.take(i)), s[i], fav_pred(favs));
        lemma_filter_push(spec_filtered(s.take(i)), s[i], other_pred(favs));
    }
}

/// Every element of a filtered sequence comes from the source sequence
/// and satisfies the predicate.
proof fn lemma_filter_elements<A>(s: Seq<A>, p: spec_fn(A) -> bool, x: A)
    requires
        s.filter(p).contains(x),
    ensures
        s.contains(x),
        p(x),
    decreases s.len(),
{
    reveal(Seq::filter);
    if s.len() == 0 {
    } else {
        let s0 = s.drop_last();
        if p(s.last()) && x == s.last() {
            assert(s[s.len() - 1] == x);
        } else {
            let j = choose|j: int| 0 <= j < s.filter(p).len() && s.filter(p)[j] == x;
            if p(s.last()) {
                assert(s.filter(p) == s0.filter(p).push(s.last()));
                assert(j < s0.filter(p).len());
                assert(s0.filter(p)[j] == x);
            }
            assert(s0.filter(p).contains(x));
            lemma_filter_elements(s0, p, x);
            let k = choose|k: int| 0 <= k < s0.len() && s0[k] == x;
            assert(s[k] == x);
        }
    }
}

/// A partition of a sequence by a predicate and its complement holds
/// exactly the elements of the sequence, each exactly once.
proof fn lemma_filter_partition_multiset<A>(s: Seq<A>, p: spec_fn(A) -> bool, q: spec_fn(A) -> bool)
    requires
        forall|x: A| #[trigger] q(x) <==> !p(x),
    ensures
        s.to_multiset() == s.filter(p).to_multiset().add(s.filter(q).to_multiset()),
    decreases s.len(),
{
    broadcast use vstd::seq_lib::group_to_multiset_ensures;
    broadcast use vstd::multiset::group_multiset_axioms;

    if s.len() == 0 {
        reveal(Seq::filter);
        assert(s.filter(p) == s);
        assert(s.filter(q) == s);
        assert forall|a: A| #[trigger] s.to_multiset().count(a) == 0 by {
            if s.to_multiset().count(a) > 0 {
                assert(s.contains(a));
            }
        }
        assert(s.to_multiset() =~= s.filter(p).to_multiset().add(s.filter(q).to_multiset()));
    } else {
        let s0 = s.drop_last();
        let x = s.last();
        lemma_filter_partition_multiset(s0, p, q);
        assert(s =~= s0.push(x));
        lemma_filter_push(s0, x, p);
        lemma_filter_push(s0, x, q);
        assert(s.to_multiset() =~= s0.to_multiset().insert(x));
        if p(x) {
            assert(s.filter(p).to_multiset() =~= s0.filter(p).to_multiset().insert(x));
            assert(s.filter(q).to_multiset() == s0.filter(q).to_multiset());
        } else {
            assert(s.filter(p).to_multiset() == s0.filter(p).to_multiset());
            assert(s.filter(q).to_multiset() =~= s0.filter(q).to_multiset().insert(x));
        }
        assert(s.to_multiset() =~= s.filter(p).to_multiset().add(s.filter(q).to_multiset()));
    }
}

/// Filtering keeps relative order: two entries of a filtered sequence
/// occur in the source sequence in the same order.
proof fn lemma_filter_order<A>(s: Seq<A>, p: spec_fn(A) -> bool, i: int, j: int)
    requires
        0 <= i < j < s.filter(p).len(),
    ensures
        exists|k: int, l: int|
            0 <= k < l < s.len() && s[k] == s.filter(p)[i] && s[l] == s.filter(p)[j],
    decreases s.len(),
{
    reveal(Seq::filter);
    let f = s.filter(p);
    s.lemma_filter_len(p);
    let s0 = s.drop_last();
    let f0 = s0.filter(p);
    if p(s.last()) {
        assert(f == f0.push(s.last()));
        if j < f0.len() {
            lemma_filter_order(s0, p, i, j);
            let (k, l) = choose|k: int, l: int|
                0 <= k < l < s0.len() && s0[k] == f0[i] && s0[l] == f0[j];
            assert(0 <= k < l < s.len() && s[k] == f[i] && s[l] == f[j]);
        } else {
            assert(f0.contains(f0[i]));
            lemma_filter_elements(s0, p, f0[i]);
            let k = choose|k: int| 0 <= k < s0.len() && s0[k] == f0[i];
            let l = s.len() - 1;
            assert(0 <= k < l < s.len() && s[k] == f[i] && s[l] == f[j]);
        }
    } else {
        assert(f == f0);
        lemma_filter_order(s0, p, i, j);
        let (k, l) = choose|k: int, l: int|
            0 <= k < l < s0.len() && s0[k] == f0[i] && s0[l] == f0[j];
        assert(0 <= k < l < s.len() && s[k] == f[i] && s[l] == f[j]);
    }
}

/// Law: the favorites bucket keeps the filtered enumeration's relative
/// order — two of its entries occur in the filtered sequence in the same
/// order. The favorites list is a membership filter, never a
/// reordering.
pub proof fn lemma_favorites_keep_order(
    s: Seq<DisplayMode>,
    favs: Seq<(u32, u32, u32)>,
    i: int,
    j: int,
)
    requires
        0 <= i < j < spec_favorites_out(s, favs).len(),
    ensures
        exists|k: int, l: int|
            0 <= k < l < spec_filtered(s).len() && spec_filtered(s)[k] == spec_favorites_out(
                s,
                favs,
            )[i] && spec_filtered(s)[l] == spec_favorites_out(s, favs)[j],
{
    lemma_filter_order(spec_filtered(s), fav_pred(favs), i, j);
}

/// Law: the others bucket keeps the filtered enumeration's relative
/// order, exactly as the favorites bucket does.
pub proof fn lemma_others_keep_order(
    s: Seq<DisplayMode>,
    favs: Seq<(u32, u32, u32)>,
    i: int,
    j: int,
)
    requires
        0 <= i < j < spec_others_out(s, favs).len(),
    ensures
        exists|k: int, l: int|
            0 <= k < l < spec_filtered(s).len() && spec_filtered(s)[k] == spec_others_out(
                s,
                favs,
            )[i] && spec_filtered(s)[l] == spec_others_out(s, favs)[j],
{
    lemma_filter_order(spec_filtered(s), other_pred(favs), i, j);
}

/// Law: classification loses and invents nothing. The favorites and
/// others buckets together hold exactly the filtered modes, each exactly
/// once. `lemma_favorites_keep_order` and `lemma_others_keep_order` add
/// that each bucket keeps the filtered enumeration's relative order.
pub proof fn lemma_classify_partitions(s: Seq<DisplayMode>, favs: Seq<(u32, u32, u32)>)
    ensures
        spec_filtered(s).to_multiset() == spec_favorites_out(s, favs).to_multiset().add(
            spec_others_out(s, favs).to_multiset(),
        ),
{
    lemma_filter_partition_multiset(spec_filtered(s), fav_pred(favs), other_pred(favs));
}

/// Law: a mode from the raw table is missing from both buckets iff it
/// fails the fixed policy (refresh rate other than 60 Hz, or output
/// scaling other than the default).
pub proof fn lemma_excluded_iff_filtered_out(
    s: Seq<DisplayMode>,
    favs: Seq<(u32, u32, u32)>,
    m: DisplayMode,
)
    requires
        s.contains(m),
    ensures
        (!spec_favorites_out(s, favs).contains(m) && !spec_others_out(s, favs).contains(m))
            <==> !spec_keeps(m),
{
    if spec_keeps(m) {
        let i = choose|i: int| 0 <= i < s.len() && s[i] == m;
        s.lemma_filter_contains(keep_pred(), i);
        let k = choose|k: int|
            0 <= k < spec_filtered(s).len() && spec_filtered(s)[k] == m;
        if spec_is_favorite(m, favs) {
            spec_filtered(s).lemma_filter_contains(fav_pred(favs), k);
        } else {
            spec_filtered(s).lemma_filter_contains(other_pred(favs), k);
        }
    } else {
        if spec_favorites_out(s, favs).contains(m) {
            lemma_filter_elements(spec_filtered(s), fav_pred(favs), m);
            lemma_filter_elements(s, keep_pred(), m);
        }
        if spec_others_out(s, favs).contains(m) {
            lemma_filter_elements(spec_filtered(s), other_pred(favs), m);
            lemma_filter_elements(s, keep_pred(), m);
        }
    }
}

/// Law: a filtered mode whose triple is named in the favorites list lands
/// in the favorites bucket, and never in the others bucket.
pub proof fn lemma_favorite_never_other(
    s: Seq<DisplayMode>,
    favs: Seq<(u32, u32, u32)>,
    m: DisplayMode,
)
    requires
        s.contains(m),
        spec_keeps(m),
        favs.contains(triple_of(m)),
    ensures
        spec_favorites_out(s, favs).contains(m),
        !spec_others_out(s, favs).contains(m),
{
    let i = choose|i: int| 0 <= i < s.len() && s[i] == m;
    s.lemma_filter_contains(keep_pred(), i);
    let k = choose|k: int| 0 <= k < spec_filtered(s).len() && spec_filtered(s)[k] == m;
    spec_filtered(s).lemma_filter_contains(fav_pred(favs), k);
    if spec_others_out(s, favs).contains(m) {
        lemma_filter_elements(spec_filtered(s), other_pred(favs), m);
    }
}

/// Splits the raw mode table into the favorites and others buckets.
///
/// A mode survives iff it passes the fixed policy; each survivor lands in
/// the favorites bucket iff its triple is named in `favorites`, else in
/// the others bucket, and both buckets keep the input's relative order.
pub fn classify(modes: &Vec<DisplayMode>, favorites: &Vec<(u32, u32, u32)>) -> (r: (
    Vec<DisplayMode>,
    Vec<DisplayMode>,
))
    ensures
        r.0@ == spec_favorites_out(modes@, favorites@),
        r.1@ == spec_others_out(modes@, favorites@),
{
    let mut fav: Vec<DisplayMode> = Vec::new();
    let mut other: Vec<DisplayMode> = Vec::new();
    let mut i: usize = 0;
    while i < modes.len()
        invariant
            i <= modes.len(),
            fav@ == spec_favorites_out(modes@.take(i as int), favorites@),
            other@ == spec_others_out(modes@.take(i as int), favorites@),
        decreases modes.len() - i,
    {
        let m = modes[i];
        proof {
            lemma_classify_step(modes@, favorites@, i as int);
        }
        if keeps(&m) {
            if is_favorite(&m, favorites) {
                fav.push(m);
            } else {
                other.push(m);
            }
        }
        i += 1;
    }
    proof {
        assert(modes@.take(modes@.len() as int) =~= modes@);
    }
    (fav, other)
}

} // verus!
