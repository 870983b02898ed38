use vstd::prelude::*;
use crate::interfaces::{
    CacheTraderInfo, Time, TraderGraphSeries, TraderInfo, series_name, series_rank,
    series_rank_is_name_order,
};
use crate::text::lex_lt;

verus! {

/// Holds of the records of series `k`.
pub open spec fn info_is<N>(k: TraderGraphSeries) -> spec_fn(TraderInfo<N>) -> bool {
    |g: TraderInfo<N>| g.kind == k
}

/// The records of series `k`, in the order in which they come.
pub open spec fn infos_of_series<N>(s: Seq<TraderInfo<N>>, k: TraderGraphSeries) -> Seq<
    TraderInfo<N>,
> {
    s.filter(info_is(k))
}

/// The records listed by the names of their series ("EUR", "TOT", "USD",
/// "YEN", "YUAN"), those of one series in the order in which they come.
pub open spec fn infos_by_name<N>(s: Seq<TraderInfo<N>>) -> Seq<TraderInfo<N>> {
    infos_of_series(s, TraderGraphSeries::EUR) + infos_of_series(s, TraderGraphSeries::TOT)
        + infos_of_series(s, TraderGraphSeries::USD) + infos_of_series(s, TraderGraphSeries::YEN)
        + infos_of_series(s, TraderGraphSeries::YUAN)
}

/// The records with their day set to `day`.
pub open spec fn stamped<N>(s: Seq<TraderInfo<N>>, day: u32) -> Seq<TraderInfo<N>> {
    s.map_values(|g: TraderInfo<N>| TraderInfo { time: day, kind: g.kind, quantity: g.quantity })
}

fn push_infos_of_series<N: Copy>(
    out: &mut Vec<TraderInfo<N>>,
    goods: &Vec<TraderInfo<N>>,
    kind: TraderGraphSeries,
)
    ensures
        final(out)@ == old(out)@ + infos_of_series(goods@, kind),
{
    let n: usize = goods.len();
    let ghost start = old(out)@;
    for i in 0..n
        invariant
            n == goods.len(),
            out@ == start + infos_of_series(goods@.take(i as int), kind),
    {
        let info: TraderInfo<N> = goods[i];
        proof {
            assert(goods@.take(i + 1) =~= goods@.take(i as int).push(goods@[i as int]));
            goods@.take(i as int).lemma_filter_push(goods@[i as int], info_is(kind));
        }
        if info.kind == kind {
            out.push(info);
        }
    }
    assert(goods@.take(n as int) =~= goods@);
}

/// Sorts records by the names of their series, keeping the order of the
/// records of one series.
pub fn sort_infos_by_name<N: Copy>(goods: &Vec<TraderInfo<N>>) -> (sorted: Vec<TraderInfo<N>>)
    ensures
        sorted@ == infos_by_name(goods@),
{
    let mut out: Vec<TraderInfo<N>> = Vec::new();
    push_infos_of_series(&mut out, goods, TraderGraphSeries::EUR);
    push_infos_of_series(&mut out, goods, TraderGraphSeries::TOT);
    push_infos_of_series(&mut out, goods, TraderGraphSeries::USD);
    push_infos_of_series(&mut out, goods, TraderGraphSeries::YEN);
    push_infos_of_series(&mut out, goods, TraderGraphSeries::YUAN);
    assert(out@ =~= infos_by_name(goods@));
    out
}

proof fn lemma_infos_of_series_twice<N>(
    s: Seq<TraderInfo<N>>,
    k1: TraderGraphSeries,
    k2: TraderGraphSeries,
)
    ensures
        infos_of_series(infos_of_series(s, k1), k2) == if k1 == k2 {
            infos_of_series(s, k1)
        } else {
            Seq::<TraderInfo<N>>::empty()
        },
    decreases s.len(),
{
    reveal(Seq::filter);
    if s.len() > 0 {
        let rest = s.drop_last();
        lemma_infos_of_series_twice(rest, k1, k2);
        assert(s =~= rest.push(s.last()));
        rest.lemma_filter_push(s.last(), info_is(k1));
        infos_of_series(rest, k1).lemma_filter_push(s.last(), info_is(k2));
    }
}

/// Listing records by name is a stable sort: the records of each series stay
/// in the order in which they came.
pub proof fn infos_by_name_keeps_each_series_in_order<N>(
    s: Seq<TraderInfo<N>>,
    k: TraderGraphSeries,
)
    ensures
        infos_of_series(infos_by_name(s), k) == infos_of_series(s, k),
{
    broadcast use Seq::filter_distributes_over_add;

    let a = infos_of_series(s, TraderGraphSeries::EUR);
    let b = infos_of_series(s, TraderGraphSeries::TOT);
    let c = infos_of_series(s, TraderGraphSeries::USD);
    let d = infos_of_series(s, TraderGraphSeries::YEN);
    let e = infos_of_series(s, TraderGraphSeries::YUAN);
    lemma_infos_of_series_twice(s, TraderGraphSeries::EUR, k);
    lemma_infos_of_series_twice(s, TraderGraphSeries::TOT, k);
    lemma_infos_of_series_twice(s, TraderGraphSeries::USD, k);
    lemma_infos_of_series_twice(s, TraderGraphSeries::YEN, k);
    lemma_infos_of_series_twice(s, TraderGraphSeries::YUAN, k);
    assert(infos_of_series(a + b + c + d + e, k) =~= infos_of_series(s, k));
}

/// Listing records by name loses no record and adds none: with the order of
/// each series kept, it is a rearrangement of the records.
pub proof fn infos_by_name_keeps_every_record<N>(s: Seq<TraderInfo<N>>)
    ensures
        infos_by_name(s).len() == s.len(),
    decreases s.len(),
{
    reveal(Seq::filter);
    if s.len() > 0 {
        let rest = s.drop_last();
        infos_by_name_keeps_every_record(rest);
        assert(s =~= rest.push(s.last()));
        rest.lemma_filter_push(s.last(), info_is(TraderGraphSeries::EUR));
        rest.lemma_filter_push(s.last(), info_is(TraderGraphSeries::TOT));
        rest.lemma_filter_push(s.last(), info_is(TraderGraphSeries::USD));
        rest.lemma_filter_push(s.last(), info_is(TraderGraphSeries::YEN));
        rest.lemma_filter_push(s.last(), info_is(TraderGraphSeries::YUAN));
    }
}

/// Listing records by name puts them in the order of the names of their
/// series.
pub proof fn infos_by_name_is_sorted<N>(s: Seq<TraderInfo<N>>, i: int, j: int)
    requires
        0 <= i < j < infos_by_name(s).len(),
    ensures
        !lex_lt(series_name(infos_by_name(s)[j].kind), series_name(infos_by_name(s)[i].kind)),
{
    broadcast use Seq::lemma_filter_pred;

    let a = infos_of_series(s, TraderGraphSeries::EUR);
    let b = infos_of_series(s, TraderGraphSeries::TOT);
    let c = infos_of_series(s, TraderGraphSeries::USD);
    let d = infos_of_series(s, TraderGraphSeries::YEN);
    let e = infos_of_series(s, TraderGraphSeries::YUAN);
    let r = infos_by_name(s);
    let la = a.len() as int;
    let lb = la + b.len();
    let lc = lb + c.len();
    let ld = lc + d.len();
    assert forall|x: int| 0 <= x < r.len() implies #[trigger] series_rank(r[x].kind) == (if x
        < la {
        0int
    } else if x < lb {
        1int
    } else if x < lc {
        2int
    } else if x < ld {
        3int
    } else {
        4int
    }) by {
        if x < la {
            assert(r[x] == a[x]);
            assert(info_is::<N>(TraderGraphSeries::EUR)(a[x]));
        } else if x < lb {
            assert(r[x] == b[x - la]);
            assert(info_is::<N>(TraderGraphSeries::TOT)(b[x - la]));
        } else if x < lc {
            assert(r[x] == c[x - lb]);
            assert(info_is::<N>(TraderGraphSeries::USD)(c[x - lb]));
        } else if x < ld {
            assert(r[x] == d[x - lc]);
            assert(info_is::<N>(TraderGraphSeries::YEN)(d[x - lc]));
        } else {
            assert(r[x] == e[x - ld]);
            assert(info_is::<N>(TraderGraphSeries::YUAN)(e[x - ld]));
        }
    }
    assert(series_rank(r[i].kind) <= series_rank(r[j].kind));
    series_rank_is_name_order(r[j].kind, r[i].kind);
}

/// The trader's posted holdings sorted by the names of their series, each
/// stamped with the current day.
pub fn order_trader_goods<N: Copy>(goods: &Vec<TraderInfo<N>>, time: &Time) -> (ordered: Vec<
    TraderInfo<N>,
>)
    ensures
        ordered@ == stamped(infos_by_name(goods@), time.0),
        ordered@.len() == infos_by_name(goods@).len(),
        forall|i: int|
            0 <= i < ordered@.len() ==> #[trigger] ordered@[i] == (TraderInfo {
                time: time.0,
                kind: infos_by_name(goods@)[i].kind,
                quantity: infos_by_name(goods@)[i].quantity,
            }),
{
    let day: u32 = time.get();
    let sorted: Vec<TraderInfo<N>> = sort_infos_by_name(goods);
    let n: usize = sorted.len();
    let mut out: Vec<TraderInfo<N>> = Vec::new();
    for i in 0..n
        invariant
            n == sorted@.len(),
            day == time.0,
            out@ == stamped(sorted@.take(i as int), day),
    {
        let g: TraderInfo<N> = sorted[i];
        out.push(TraderInfo { time: day, kind: g.kind, quantity: g.quantity });
        assert(sorted@.take(i + 1) =~= sorted@.take(i as int).push(sorted@[i as int]));
        assert(stamped(sorted@.take(i + 1), day) =~= stamped(sorted@.take(i as int), day).push(
            TraderInfo { time: day, kind: g.kind, quantity: g.quantity },
        ));
    }
    assert(sorted@.take(n as int) =~= sorted@);
    proof {
        crate::laws::stamping_keeps_series_and_quantity(sorted@, day);
    }
    out
}

/// Records the trader's ordered holdings and then their total, in the series
/// `TOT`, all of the current day; returns the records in the order in which
/// they are to be sent.
pub fn post_trader_goods<N: Copy>(
    ordered: &Vec<TraderInfo<N>>,
    total: N,
    time: &Time,
    cache: &mut CacheTraderInfo<N>,
) -> (sent: Vec<TraderInfo<N>>)
    ensures
        sent@ == ordered@.push(
            TraderInfo { time: time.0, kind: TraderGraphSeries::TOT, quantity: total },
        ),
        final(cache)@ == old(cache)@ + sent@,
{
    let n: usize = ordered.len();
    let mut sent: Vec<TraderInfo<N>> = Vec::new();
    let ghost start = old(cache)@;
    for i in 0..n
        invariant
            n == ordered@.len(),
            sent@ == ordered@.take(i as int),
            cache@ == start + sent@,
    {
        let g: TraderInfo<N> = ordered[i];
        sent.push(g);
        cache.add(g);
        assert(ordered@.take(i + 1) =~= ordered@.take(i as int).push(ordered@[i as int]));
        assert(start + sent@ =~= (start + ordered@.take(i as int)).push(g));
    }
    assert(ordered@.take(n as int) =~= ordered@);
    let total_info: TraderInfo<N> = TraderInfo {
        time: time.get(),
        kind: TraderGraphSeries::TOT,
        quantity: total,
    };
    let ghost before = sent@;
    sent.push(total_info);
    cache.add(total_info);
    assert(start + sent@ =~= (start + before).push(total_info));
    sent
}

} // verus!
