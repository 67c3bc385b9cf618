use crate::domain::{derived_timestamp, stream_views, Stream, StreamView};
use crate::types::string_views;
use itertools::Itertools;
use vstd::prelude::*;
use vstd::relations::{sorted_by, total_ordering};
use vstd::seq_lib::lemma_sorted_unique;

verus! {

/// What orders a candidate: whether its publication time can be read, that
/// time, and the place of the candidate among the candidates.
pub type SortKey = (u8, i64, usize);

/// The texts of a list, as a set.
pub open spec fn text_set(ids: Seq<Seq<char>>) -> Set<Seq<char>> {
    Set::new(|t: Seq<char>| ids.contains(t))
}

/// The texts of a list of ids, as a set.
pub open spec fn id_set(ids: Seq<String>) -> Set<Seq<char>> {
    text_set(string_views(ids))
}

/// The key of the candidate at `index`. A candidate whose publication time
/// cannot be read comes before every one whose time can.
pub open spec fn sort_key(s: StreamView, now: i64, index: usize) -> SortKey {
    match derived_timestamp(s.streamed_date, now) {
        None => (0u8, 0i64, index),
        Some(t) => (1u8, t, index),
    }
}

/// The order of keys: by the first part, then by the second, then by the
/// third.
pub open spec fn key_leq(a: SortKey, b: SortKey) -> bool {
    a.0 < b.0 || (a.0 == b.0 && (a.1 < b.1 || (a.1 == b.1 && a.2 <= b.2)))
}

/// [`key_leq`] as a relation.
pub open spec fn key_order() -> spec_fn(SortKey, SortKey) -> bool {
    |a: SortKey, b: SortKey| key_leq(a, b)
}

/// The keys of all candidates, in their order.
pub open spec fn all_keys(streams: Seq<StreamView>, now: i64) -> Seq<SortKey> {
    Seq::new(streams.len(), |i: int| sort_key(streams[i], now, i as usize))
}

/// Whether a key is that of a candidate that is not stored yet.
pub open spec fn is_new(streams: Seq<StreamView>, existing: Set<Seq<char>>) -> spec_fn(
    SortKey,
) -> bool {
    |k: SortKey| !existing.contains(streams[k.2 as int].video_id)
}

/// The keys of the candidates that are not stored yet, in the candidates'
/// order.
pub open spec fn new_keys(streams: Seq<StreamView>, existing: Set<Seq<char>>, now: i64) -> Seq<
    SortKey,
> {
    all_keys(streams, now).filter(is_new(streams, existing))
}

/// The order in which the candidates that are not stored yet are taken up:
/// oldest first; where two were published at the same time, the one that came
/// first among the candidates; and before all of them those whose publication
/// time cannot be read, in the order in which they came.
pub open spec fn selection_order(
    streams: Seq<StreamView>,
    existing: Set<Seq<char>>,
    now: i64,
) -> Seq<SortKey> {
    new_keys(streams, existing, now).sort_by(key_order())
}

/// The candidate that a key stands for.
pub open spec fn keyed(streams: Seq<StreamView>) -> spec_fn(SortKey) -> StreamView {
    |k: SortKey| streams[k.2 as int]
}

/// The batch of a run: of the candidates that are not stored yet, taken in
/// the selection order, the first `max_streams`, or all where they are fewer.
pub open spec fn selected(
    streams: Seq<StreamView>,
    existing: Set<Seq<char>>,
    now: i64,
    max_streams: nat,
) -> Seq<StreamView> {
    let order = selection_order(streams, existing, now);
    let count = if max_streams < order.len() {
        max_streams as int
    } else {
        order.len() as int
    };
    order.take(count).map_values(keyed(streams))
}

/// The order of the publication times of two streams, where one that cannot
/// be read comes before every one that can.
pub open spec fn timestamp_leq(a: Option<i64>, b: Option<i64>) -> bool {
    match (a, b) {
        (None, _) => true,
        (Some(_), None) => false,
        (Some(x), Some(y)) => x <= y,
    }
}

proof fn lemma_key_order_total()
    ensures
        total_ordering(key_order()),
{
    let r = key_order();
    assert forall|x: SortKey, y: SortKey| #[trigger] r(x, y) && #[trigger] r(y, x) implies x
        == y by {}
    assert forall|x: SortKey, y: SortKey, z: SortKey| #[trigger]
        r(x, y) && #[trigger] r(y, z) implies r(x, z) by {}
    assert forall|x: SortKey, y: SortKey| #[trigger] r(x, y) || #[trigger] r(y, x) by {}
    assert forall|x: SortKey| #[trigger] r(x, x) by {}
}

/// `Itertools::sorted` on keys: the result holds the keys that were given,
/// each as often as it was given, in ascending order. Keys are tuples of
/// integers, which std orders part by part from the first.
#[verifier::external_body]
fn sorted_keys(keys: Vec<SortKey>) -> (r: Vec<SortKey>)
    ensures
        r@.to_multiset() == keys@.to_multiset(),
        sorted_by(r@, key_order()),
{
    keys.into_iter().sorted().collect()
}

/// Whether `id` is among `ids`.
pub fn contains_id(ids: &Vec<String>, id: &String) -> (r: bool)
    ensures
        r == id_set(ids@).contains(id@),
{
    let ghost texts = string_views(ids@);
    let mut i: usize = 0;
    while i < ids.len()
        invariant
            i <= ids.len(),
            texts == string_views(ids@),
            forall|k: int| 0 <= k < i ==> #[trigger] texts[k] != id@,
        decreases ids.len() - i,
    {
        if ids[i] == *id {
            assert(texts[i as int] == id@);
            return true;
        }
        i += 1;
    }
    false
}

/// Every key of a candidate that is not stored yet names a candidate, is not
/// stored, and is the key of the candidate that it names.
proof fn lemma_new_keys(streams: Seq<StreamView>, existing: Set<Seq<char>>, now: i64, k: SortKey)
    requires
        streams.len() <= usize::MAX,
        new_keys(streams, existing, now).contains(k),
    ensures
        0 <= k.2 < streams.len(),
        !existing.contains(streams[k.2 as int].video_id),
        k == sort_key(streams[k.2 as int], now, k.2),
{
    let all = all_keys(streams, now);
    let pred = is_new(streams, existing);
    all.lemma_filter_contains_rev(pred, k);
    let i = choose|i: int| 0 <= i < all.len() && all[i] == k;
    let kept = all.filter(pred);
    let j = choose|j: int| 0 <= j < kept.len() && kept[j] == k;
    all.lemma_filter_pred(pred, j);
}

/// The selection order holds the keys of the candidates that are not stored
/// yet, each once, in ascending order.
pub proof fn lemma_selection_order(streams: Seq<StreamView>, existing: Set<Seq<char>>, now: i64)
    ensures
        selection_order(streams, existing, now).to_multiset() == new_keys(
            streams,
            existing,
            now,
        ).to_multiset(),
        selection_order(streams, existing, now).len() == new_keys(streams, existing, now).len(),
        sorted_by(selection_order(streams, existing, now), key_order()),
{
    lemma_key_order_total();
    let keys = new_keys(streams, existing, now);
    keys.lemma_sort_by_ensures(key_order());
    keys.to_multiset_ensures();
    keys.sort_by(key_order()).to_multiset_ensures();
}

/// Every key of the selection order is the key of a candidate that is not
/// stored yet.
pub proof fn lemma_selection_order_keys(
    streams: Seq<StreamView>,
    existing: Set<Seq<char>>,
    now: i64,
    i: int,
)
    requires
        streams.len() <= usize::MAX,
        0 <= i < selection_order(streams, existing, now).len(),
    ensures
        new_keys(streams, existing, now).contains(selection_order(streams, existing, now)[i]),
        0 <= selection_order(streams, existing, now)[i].2 < streams.len(),
        !existing.contains(
            streams[selection_order(streams, existing, now)[i].2 as int].video_id,
        ),
        selection_order(streams, existing, now)[i] == sort_key(
            streams[selection_order(streams, existing, now)[i].2 as int],
            now,
            selection_order(streams, existing, now)[i].2,
        ),
{
    let keys = new_keys(streams, existing, now);
    let order = selection_order(streams, existing, now);
    lemma_selection_order(streams, existing, now);
    let k = order[i];
    order.to_multiset_ensures();
    keys.to_multiset_ensures();
    assert(order.contains(k));
    assert(order.to_multiset().count(k) > 0);
    assert(keys.to_multiset().count(k) > 0);
    assert(keys.contains(k));
    lemma_new_keys(streams, existing, now, k);
}

/// No candidate that is not stored yet is lost: each has its place in the
/// selection order, which is returned.
pub proof fn lemma_every_new_candidate_is_ordered(
    streams: Seq<StreamView>,
    existing: Set<Seq<char>>,
    now: i64,
    k: int,
) -> (i: int)
    requires
        streams.len() <= usize::MAX,
        0 <= k < streams.len(),
        !existing.contains(streams[k].video_id),
    ensures
        0 <= i < selection_order(streams, existing, now).len(),
        selection_order(streams, existing, now)[i] == sort_key(streams[k], now, k as usize),
{
    let all = all_keys(streams, now);
    let pred = is_new(streams, existing);
    let key = sort_key(streams[k], now, k as usize);
    let keys = new_keys(streams, existing, now);
    let order = selection_order(streams, existing, now);
    assert(all[k] == key);
    assert(key.2 == k as usize);
    assert(pred(key));
    all.lemma_filter_contains(pred, k);
    assert(keys.contains(key));
    lemma_selection_order(streams, existing, now);
    keys.to_multiset_ensures();
    order.to_multiset_ensures();
    assert(keys.to_multiset().count(key) > 0);
    assert(order.to_multiset().count(key) > 0);
    assert(order.contains(key));
    choose|i: int| 0 <= i < order.len() && order[i] == key
}

/// Picks the batch of a run from the candidates: those whose id is not among
/// `existing_stream_ids`, oldest first, at most `max_streams` of them.
pub fn sort_filter_limit_streams(
    streams: &Vec<Stream>,
    existing_stream_ids: &Vec<String>,
    max_streams: usize,
    now: i64,
) -> (batch: Vec<Stream>)
    ensures
        stream_views(batch@) == selected(
            stream_views(streams@),
            id_set(existing_stream_ids@),
            now,
            max_streams as nat,
        ),
{
    let ghost views = stream_views(streams@);
    let ghost existing = id_set(existing_stream_ids@);
    let ghost all = all_keys(views, now);
    let ghost pred = is_new(views, existing);
    let mut keys: Vec<SortKey> = Vec::new();
    let mut i: usize = 0;
    proof {
        assert(all.take(0) == Seq::<SortKey>::empty());
        reveal(Seq::filter);
    }
    while i < streams.len()
        invariant
            i <= streams.len(),
            views == stream_views(streams@),
            existing == id_set(existing_stream_ids@),
            all == all_keys(views, now),
            pred == is_new(views, existing),
            keys@ == all.take(i as int).filter(pred),
        decreases streams.len() - i,
    {
        let stream = &streams[i];
        let ghost key = sort_key(views[i as int], now, i);
        proof {
            assert(all.take(i + 1) == all.take(i as int).push(key));
            all.take(i as int).lemma_filter_push(key, pred);
            assert(key.2 == i);
            assert(pred(key) == !existing.contains(views[i as int].video_id));
        }
        if !contains_id(existing_stream_ids, &stream.video_id) {
            let k: SortKey = match stream.timestamp_from_time_ago(now) {
                None => (0u8, 0i64, i),
                Some(t) => (1u8, t, i),
            };
            keys.push(k);
        }
        i += 1;
    }
    assert(all.take(streams.len() as int) == all);
    assert(keys@ == new_keys(views, existing, now));
    let order = sorted_keys(keys);
    proof {
        lemma_key_order_total();
        lemma_selection_order(views, existing, now);
        lemma_sorted_unique(order@, selection_order(views, existing, now), key_order());
    }
    assert(order@ == selection_order(views, existing, now));
    let count: usize = if max_streams < order.len() {
        max_streams
    } else {
        order.len()
    };
    let mut batch: Vec<Stream> = Vec::new();
    let mut j: usize = 0;
    assert(stream_views(batch@) == order@.take(0).map_values(keyed(views)));
    while j < count
        invariant
            j <= count <= order.len(),
            views == stream_views(streams@),
            order@ == selection_order(views, existing, now),
            stream_views(batch@) == order@.take(j as int).map_values(keyed(views)),
        decreases count - j,
    {
        let k = order[j];
        proof {
            assert(views.len() == streams.len());
            lemma_selection_order_keys(views, existing, now, j as int);
        }
        let s = streams[k.2].clone();
        let ghost before = stream_views(batch@);
        batch.push(s);
        proof {
            assert(stream_views(batch@) == before.push(s@));
            assert(order@.take(j + 1) == order@.take(j as int).push(k));
            assert(order@.take(j as int).push(k).map_values(keyed(views)) == order@.take(
                j as int,
            ).map_values(keyed(views)).push(keyed(views)(k)));
        }
        j += 1;
    }
    batch
}

/// Whether a candidate is not stored yet.
pub open spec fn not_stored(existing: Set<Seq<char>>) -> spec_fn(StreamView) -> bool {
    |s: StreamView| !existing.contains(s.video_id)
}

/// The candidates that are not stored yet, in their order.
pub open spec fn fresh(streams: Seq<StreamView>, existing: Set<Seq<char>>) -> Seq<StreamView> {
    streams.filter(not_stored(existing))
}

proof fn lemma_new_keys_prefix(
    streams: Seq<StreamView>,
    existing: Set<Seq<char>>,
    now: i64,
    n: int,
)
    requires
        streams.len() <= usize::MAX,
        0 <= n <= streams.len(),
    ensures
        all_keys(streams, now).take(n).filter(is_new(streams, existing)).map_values(
            keyed(streams),
        ) == streams.take(n).filter(not_stored(existing)),
    decreases n,
{
    reveal(Seq::filter);
    let all = all_keys(streams, now);
    let pred = is_new(streams, existing);
    if n == 0 {
        assert(all.take(0) == Seq::<SortKey>::empty());
        assert(streams.take(0) == Seq::<StreamView>::empty());
        assert(Seq::<SortKey>::empty().map_values(keyed(streams)) == Seq::<StreamView>::empty());
    } else {
        lemma_new_keys_prefix(streams, existing, now, n - 1);
        let key = all[n - 1];
        assert(key.2 == (n - 1) as usize);
        assert(all.take(n) == all.take(n - 1).push(key));
        assert(streams.take(n) == streams.take(n - 1).push(streams[n - 1]));
        all.take(n - 1).lemma_filter_push(key, pred);
        streams.take(n - 1).lemma_filter_push(streams[n - 1], not_stored(existing));
        let kept = all.take(n - 1).filter(pred);
        assert(kept.push(key).map_values(keyed(streams)) == kept.map_values(keyed(streams)).push(
            streams[n - 1],
        ));
    }
}

/// The keys of the candidates that are not stored yet stand for just these
/// candidates, in their order.
pub proof fn lemma_new_keys_are_fresh(streams: Seq<StreamView>, existing: Set<Seq<char>>, now: i64)
    requires
        streams.len() <= usize::MAX,
    ensures
        new_keys(streams, existing, now).map_values(keyed(streams)) == fresh(streams, existing),
        new_keys(streams, existing, now).len() == fresh(streams, existing).len(),
{
    lemma_new_keys_prefix(streams, existing, now, streams.len() as int);
    assert(all_keys(streams, now).take(streams.len() as int) == all_keys(streams, now));
    assert(streams.take(streams.len() as int) == streams);
}

/// The batch is no longer than the cap, and no longer than the list of
/// candidates that are not stored yet: it is as long as the smaller of the two.
pub proof fn lemma_selected_len(
    streams: Seq<StreamView>,
    existing: Set<Seq<char>>,
    now: i64,
    max_streams: nat,
)
    ensures
        selected(streams, existing, now, max_streams).len() <= max_streams,
        selected(streams, existing, now, max_streams).len() <= new_keys(
            streams,
            existing,
            now,
        ).len(),
        new_keys(streams, existing, now).len() <= streams.len(),
        selected(streams, existing, now, max_streams).len() == if max_streams < new_keys(
            streams,
            existing,
            now,
        ).len() {
            max_streams
        } else {
            new_keys(streams, existing, now).len()
        },
        streams.len() <= usize::MAX ==> selected(streams, existing, now, max_streams).len()
            <= fresh(streams, existing).len(),
{
    lemma_selection_order(streams, existing, now);
    all_keys(streams, now).lemma_filter_len(is_new(streams, existing));
    if streams.len() <= usize::MAX {
        lemma_new_keys_are_fresh(streams, existing, now);
    }
}

/// No stream of the batch is stored yet, and each is one of the candidates.
pub proof fn lemma_selected_new(
    streams: Seq<StreamView>,
    existing: Set<Seq<char>>,
    now: i64,
    max_streams: nat,
    i: int,
)
    requires
        streams.len() <= usize::MAX,
        0 <= i < selected(streams, existing, now, max_streams).len(),
    ensures
        !existing.contains(selected(streams, existing, now, max_streams)[i].video_id),
        streams.contains(selected(streams, existing, now, max_streams)[i]),
{
    lemma_selection_order_keys(streams, existing, now, i);
}

/// The batch is in the order of the publication times, oldest first, with the
/// streams whose time cannot be read in front. Where two streams of the batch
/// have the same time, they stand as they stood among the candidates.
pub proof fn lemma_selected_sorted(
    streams: Seq<StreamView>,
    existing: Set<Seq<char>>,
    now: i64,
    max_streams: nat,
    i: int,
    j: int,
)
    requires
        streams.len() <= usize::MAX,
        0 <= i < j < selected(streams, existing, now, max_streams).len(),
    ensures
        timestamp_leq(
            derived_timestamp(selected(streams, existing, now, max_streams)[i].streamed_date, now),
            derived_timestamp(selected(streams, existing, now, max_streams)[j].streamed_date, now),
        ),
        derived_timestamp(selected(streams, existing, now, max_streams)[i].streamed_date, now)
            == derived_timestamp(
            selected(streams, existing, now, max_streams)[j].streamed_date,
            now,
        ) ==> selection_order(streams, existing, now)[i].2 < selection_order(
            streams,
            existing,
            now,
        )[j].2,
{
    let order = selection_order(streams, existing, now);
    lemma_selection_order(streams, existing, now);
    lemma_selection_order_keys(streams, existing, now, i);
    lemma_selection_order_keys(streams, existing, now, j);
    assert(key_order()(order[i], order[j]));
    if order[i] == order[j] {
        lemma_key_order_total();
        new_keys(streams, existing, now).lemma_sort_by_ensures(key_order());
        lemma_order_distinct(streams, existing, now, i, j);
    }
}

/// No key stands twice in the selection order.
pub proof fn lemma_order_distinct(
    streams: Seq<StreamView>,
    existing: Set<Seq<char>>,
    now: i64,
    i: int,
    j: int,
)
    requires
        streams.len() <= usize::MAX,
        0 <= i < j < selection_order(streams, existing, now).len(),
    ensures
        selection_order(streams, existing, now)[i] != selection_order(streams, existing, now)[j],
{
    let keys = new_keys(streams, existing, now);
    let order = selection_order(streams, existing, now);
    lemma_selection_order(streams, existing, now);
    lemma_new_keys_distinct(streams, existing, now);
    keys.lemma_multiset_has_no_duplicates();
    order.lemma_multiset_has_no_duplicates_conv();
}

/// No key stands twice among the keys of the candidates that are not stored
/// yet.
proof fn lemma_new_keys_distinct(streams: Seq<StreamView>, existing: Set<Seq<char>>, now: i64)
    requires
        streams.len() <= usize::MAX,
    ensures
        new_keys(streams, existing, now).no_duplicates(),
{
    let all = all_keys(streams, now);
    assert(all.no_duplicates()) by {
        assert forall|i: int, j: int| 0 <= i < all.len() && 0 <= j < all.len() && i != j implies all[i]
            != all[j] by {
            assert(all[i].2 == i as usize);
            assert(all[j].2 == j as usize);
        }
    }
    lemma_filter_no_duplicates(all, is_new(streams, existing));
}

/// What is left of a sequence without repetitions has none.
proof fn lemma_filter_no_duplicates<A>(s: Seq<A>, pred: spec_fn(A) -> bool)
    requires
        s.no_duplicates(),
    ensures
        s.filter(pred).no_duplicates(),
    decreases s.len(),
{
    reveal(Seq::filter);
    if s.len() > 0 {
        let front = s.drop_last();
        lemma_filter_no_duplicates(front, pred);
        let kept = front.filter(pred);
        if pred(s.last()) {
            if kept.contains(s.last()) {
                front.lemma_filter_contains_rev(pred, s.last());
                let i = choose|i: int| 0 <= i < front.len() && front[i] == s.last();
                assert(s[i] == s[s.len() - 1]);
            }
            assert(forall|i: int| 0 <= i < kept.len() ==> kept[i] != s.last()) by {
                assert forall|i: int| 0 <= i < kept.len() implies kept[i] != s.last() by {
                    if kept[i] == s.last() {
                        assert(kept.contains(s.last()));
                    }
                }
            }
        }
    }
}

} // verus!
