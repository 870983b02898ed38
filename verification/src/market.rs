use vstd::prelude::*;
use crate::text::{lex_lt, lemma_lex_irreflexive, lemma_lex_asymmetric};

verus! {

/// The goods exchanged in the markets of the simulation.
#[derive(Clone, Copy, Debug, PartialEq, Eq, Structural)]
pub enum GoodKind {
    EUR,
    YEN,
    USD,
    YUAN,
}

/// The name under which a good is displayed.
pub open spec fn good_name(k: GoodKind) -> Seq<char> {
    match k {
        GoodKind::EUR => "EUR"@,
        GoodKind::YEN => "YEN"@,
        GoodKind::USD => "USD"@,
        GoodKind::YUAN => "YUAN"@,
    }
}

/// Position of a good when goods are listed by name.
pub open spec fn good_rank(k: GoodKind) -> int {
    match k {
        GoodKind::EUR => 0,
        GoodKind::USD => 1,
        GoodKind::YEN => 2,
        GoodKind::YUAN => 3,
    }
}

impl GoodKind {
    /// The displayed name of the good.
    pub fn to_string(&self) -> (name: String)
        ensures
            name@ == good_name(*self),
    {
        match self {
            GoodKind::EUR => "EUR".to_owned(),
            GoodKind::YEN => "YEN".to_owned(),
            GoodKind::USD => "USD".to_owned(),
            GoodKind::YUAN => "YUAN".to_owned(),
        }
    }
}

/// The rank order of goods is the order of their names.
pub proof fn good_rank_is_name_order(a: GoodKind, b: GoodKind)
    ensures
        lex_lt(good_name(a), good_name(b)) <==> good_rank(a) < good_rank(b),
{
    reveal_strlit("EUR");
    reveal_strlit("YEN");
    reveal_strlit("USD");
    reveal_strlit("YUAN");
    let eur = seq!['E', 'U', 'R'];
    let yen = seq!['Y', 'E', 'N'];
    let usd = seq!['U', 'S', 'D'];
    let yuan = seq!['Y', 'U', 'A', 'N'];
    assert("EUR"@ =~= eur);
    assert("YEN"@ =~= yen);
    assert("USD"@ =~= usd);
    assert("YUAN"@ =~= yuan);
    assert(eur.drop_first() =~= seq!['U', 'R']);
    assert(yen.drop_first() =~= seq!['E', 'N']);
    assert(yuan.drop_first() =~= seq!['U', 'A', 'N']);
    assert(usd.drop_first() =~= seq!['S', 'D']);
    reveal_with_fuel(lex_lt, 3);
    assert(lex_lt(eur, usd) && lex_lt(eur, yen) && lex_lt(eur, yuan));
    assert(lex_lt(usd, yen) && lex_lt(usd, yuan) && lex_lt(yen, yuan));
    lemma_lex_irreflexive(good_name(a));
    lemma_lex_asymmetric(good_name(a), good_name(b));
}

/// What a market reports of one good: the quantity it holds and the rates at
/// which it buys and sells it. `N` is the number type of quantities and rates.
#[derive(Clone, Copy, Debug)]
pub struct GoodLabel<N> {
    pub good_kind: GoodKind,
    pub quantity: N,
    pub exchange_rate_buy: N,
    pub exchange_rate_sell: N,
}

/// The good of the `i`-th label of a simulated market post: EUR, YUAN, YEN,
/// then USD.
pub open spec fn fake_label_kind(i: int) -> GoodKind {
    if i == 0 {
        GoodKind::EUR
    } else if i == 1 {
        GoodKind::YUAN
    } else if i == 2 {
        GoodKind::YEN
    } else {
        GoodKind::USD
    }
}

/// The labels of a simulated market post, one per good in the order EUR,
/// YUAN, YEN, USD; the `i`-th draw gives the quantity, the buy rate and the
/// sell rate of the `i`-th label.
pub fn fake_good_labels<N: Copy>(draws: &[(N, N, N); 4]) -> (labels: Vec<GoodLabel<N>>)
    ensures
        labels@.len() == 4,
        forall|i: int|
            0 <= i < 4 ==> #[trigger] labels@[i] == (GoodLabel {
                good_kind: fake_label_kind(i),
                quantity: draws@[i].0,
                exchange_rate_buy: draws@[i].1,
                exchange_rate_sell: draws@[i].2,
            }),
{
    let mut labels: Vec<GoodLabel<N>> = Vec::new();
    let kinds: [GoodKind; 4] = [GoodKind::EUR, GoodKind::YUAN, GoodKind::YEN, GoodKind::USD];
    for i in 0..4usize
        invariant
            labels@.len() == i,
            kinds@ == seq![GoodKind::EUR, GoodKind::YUAN, GoodKind::YEN, GoodKind::USD],
            forall|j: int|
                0 <= j < i ==> #[trigger] labels@[j] == (GoodLabel {
                    good_kind: fake_label_kind(j),
                    quantity: draws@[j].0,
                    exchange_rate_buy: draws@[j].1,
                    exchange_rate_sell: draws@[j].2,
                }),
    {
        let draw: (N, N, N) = draws[i];
        labels.push(
            GoodLabel {
                good_kind: kinds[i],
                quantity: draw.0,
                exchange_rate_buy: draw.1,
                exchange_rate_sell: draw.2,
            },
        );
    }
    labels
}

/// Holds of the labels of good `k`.
pub open spec fn label_is<N>(k: GoodKind) -> spec_fn(GoodLabel<N>) -> bool {
    |l: GoodLabel<N>| l.good_kind == k
}

/// The labels of good `k`, in the order in which they come.
pub open spec fn labels_of_kind<N>(s: Seq<GoodLabel<N>>, k: GoodKind) -> Seq<GoodLabel<N>> {
    s.filter(label_is(k))
}

/// The labels listed by the names of their goods ("EUR", "USD", "YEN",
/// "YUAN"), those of one good in the order in which they come.
pub open spec fn labels_by_name<N>(s: Seq<GoodLabel<N>>) -> Seq<GoodLabel<N>> {
    labels_of_kind(s, GoodKind::EUR) + labels_of_kind(s, GoodKind::USD) + labels_of_kind(
        s,
        GoodKind::YEN,
    ) + labels_of_kind(s, GoodKind::YUAN)
}

fn push_labels_of_kind<N: Copy>(out: &mut Vec<GoodLabel<N>>, goods: &Vec<GoodLabel<N>>, kind: GoodKind)
    ensures
        final(out)@ == old(out)@ + labels_of_kind(goods@, kind),
{
    let n: usize = goods.len();
    let ghost start = old(out)@;
    for i in 0..n
        invariant
            n == goods.len(),
            out@ == start + labels_of_kind(goods@.take(i as int), kind),
    {
        let label: GoodLabel<N> = goods[i];
        proof {
            assert(goods@.take(i + 1) =~= goods@.take(i as int).push(goods@[i as int]));
            goods@.take(i as int).lemma_filter_push(goods@[i as int], label_is(kind));
        }
        if label.good_kind == kind {
            out.push(label);
        }
    }
    assert(goods@.take(n as int) =~= goods@);
}

/// Sorts labels by the names of their goods, keeping the order of the labels
/// of one good.
pub fn sort_labels_by_name<N: Copy>(goods: &Vec<GoodLabel<N>>) -> (sorted: Vec<GoodLabel<N>>)
    ensures
        sorted@ == labels_by_name(goods@),
{
    let mut out: Vec<GoodLabel<N>> = Vec::new();
    push_labels_of_kind(&mut out, goods, GoodKind::EUR);
    push_labels_of_kind(&mut out, goods, GoodKind::USD);
    push_labels_of_kind(&mut out, goods, GoodKind::YEN);
    push_labels_of_kind(&mut out, goods, GoodKind::YUAN);
    assert(out@ =~= labels_by_name(goods@));
    out
}

proof fn lemma_labels_of_kind_twice<N>(s: Seq<GoodLabel<N>>, k1: GoodKind, k2: GoodKind)
    ensures
        labels_of_kind(labels_of_kind(s, k1), k2) == if k1 == k2 {
            labels_of_kind(s, k1)
        } else {
            Seq::<GoodLabel<N>>::empty()
        },
    decreases s.len(),
{
    reveal(Seq::filter);
    if s.len() > 0 {
        let rest = s.drop_last();
        lemma_labels_of_kind_twice(rest, k1, k2);
        assert(s =~= rest.push(s.last()));
        rest.lemma_filter_push(s.last(), label_is(k1));
        labels_of_kind(rest, k1).lemma_filter_push(s.last(), label_is(k2));
    }
}

/// Listing labels by name is a stable sort: the labels of each good stay
/// in the order in which they came.
pub proof fn labels_by_name_keeps_each_good_in_order<N>(s: Seq<GoodLabel<N>>, k: GoodKind)
    ensures
        labels_of_kind(labels_by_name(s), k) == labels_of_kind(s, k),
{
    broadcast use Seq::filter_distributes_over_add;

    let a = labels_of_kind(s, GoodKind::EUR);
    let b = labels_of_kind(s, GoodKind::USD);
    let c = labels_of_kind(s, GoodKind::YEN);
    let d = labels_of_kind(s, GoodKind::YUAN);
    lemma_labels_of_kind_twice(s, GoodKind::EUR, k);
    lemma_labels_of_kind_twice(s, GoodKind::USD, k);
    lemma_labels_of_kind_twice(s, GoodKind::YEN, k);
    lemma_labels_of_kind_twice(s, GoodKind::YUAN, k);
    assert(labels_of_kind(a + b + c + d, k) =~= labels_of_kind(s, k));
}

/// Listing labels by name loses no label and adds none: with the order of
/// each good kept, it is a rearrangement of the labels.
pub proof fn labels_by_name_keeps_every_label<N>(s: Seq<GoodLabel<N>>)
    ensures
        labels_by_name(s).len() == s.len(),
    decreases s.len(),
{
    reveal(Seq::filter);
    if s.len() > 0 {
        let rest = s.drop_last();
        labels_by_name_keeps_every_label(rest);
        assert(s =~= rest.push(s.last()));
        rest.lemma_filter_push(s.last(), label_is(GoodKind::EUR));
        rest.lemma_filter_push(s.last(), label_is(GoodKind::USD));
        rest.lemma_filter_push(s.last(), label_is(GoodKind::YEN));
        rest.lemma_filter_push(s.last(), label_is(GoodKind::YUAN));
    }
}

/// Listing labels by name puts them in the order of the names of their
/// goods.
pub proof fn labels_by_name_is_sorted<N>(s: Seq<GoodLabel<N>>, i: int, j: int)
    requires
        0 <= i < j < labels_by_name(s).len(),
    ensures
        !lex_lt(
            good_name(labels_by_name(s)[j].good_kind),
            good_name(labels_by_name(s)[i].good_kind),
        ),
{
    broadcast use Seq::lemma_filter_pred;

    let a = labels_of_kind(s, GoodKind::EUR);
    let b = labels_of_kind(s, GoodKind::USD);
    let c = labels_of_kind(s, GoodKind::YEN);
    let d = labels_of_kind(s, GoodKind::YUAN);
    let r = labels_by_name(s);
    assert forall|x: int| 0 <= x < r.len() implies #[trigger] good_rank(r[x].good_kind) == (if x
        < a.len() {
        0int
    } else if x < a.len() + b.len() {
        1int
    } else if x < a.len() + b.len() + c.len() {
        2int
    } else {
        3int
    }) by {
        if x < a.len() {
            assert(r[x] == a[x]);
            assert(label_is::<N>(GoodKind::EUR)(a[x]));
        } else if x < a.len() + b.len() {
            assert(r[x] == b[x - a.len()]);
            assert(label_is::<N>(GoodKind::USD)(b[x - a.len()]));
        } else if x < a.len() + b.len() + c.len() {
            assert(r[x] == c[x - a.len() - b.len()]);
            assert(label_is::<N>(GoodKind::YEN)(c[x - a.len() - b.len()]));
        } else {
            assert(r[x] == d[x - a.len() - b.len() - c.len()]);
            assert(label_is::<N>(GoodKind::YUAN)(d[x - a.len() - b.len() - c.len()]));
        }
    }
    assert(good_rank(r[i].good_kind) <= good_rank(r[j].good_kind));
    good_rank_is_name_order(r[j].good_kind, r[i].good_kind);
}

} // verus!
