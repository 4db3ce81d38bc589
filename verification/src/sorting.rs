//! Price-priority sorting: buys by descending price, sells by ascending
//! price, both stable (orders with equal prices keep their input order).
//! The specification is insertion sort, so the executable sorts are proved
//! equal to it element for element.

use vstd::prelude::*;

use crate::order::Order;

verus! {

/// Insert `x` behind every element whose price is at least `x.price`
/// (descending order; `x` goes after earlier equal prices, which is what
/// stability means when elements are inserted in input order).
pub open spec fn insert_desc(s: Seq<Order>, x: Order) -> Seq<Order>
    decreases s.len(),
{
    if s.len() == 0 {
        seq![x]
    } else if s[0].price >= x.price {
        seq![s[0]] + insert_desc(s.drop_first(), x)
    } else {
        seq![x] + s
    }
}

/// Insert `x` behind every element whose price is at most `x.price`
/// (ascending order, stable).
pub open spec fn insert_asc(s: Seq<Order>, x: Order) -> Seq<Order>
    decreases s.len(),
{
    if s.len() == 0 {
        seq![x]
    } else if s[0].price <= x.price {
        seq![s[0]] + insert_asc(s.drop_first(), x)
    } else {
        seq![x] + s
    }
}

/// Stable insertion sort by descending price: buy priority order.
pub open spec fn sort_desc(s: Seq<Order>) -> Seq<Order>
    decreases s.len(),
{
    if s.len() == 0 {
        Seq::empty()
    } else {
        insert_desc(sort_desc(s.drop_last()), s.last())
    }
}

/// Stable insertion sort by ascending price: sell priority order.
pub open spec fn sort_asc(s: Seq<Order>) -> Seq<Order>
    decreases s.len(),
{
    if s.len() == 0 {
        Seq::empty()
    } else {
        insert_asc(sort_asc(s.drop_last()), s.last())
    }
}

/// Descending by price: buy priority.
pub open spec fn sorted_desc(s: Seq<Order>) -> bool {
    forall|a: int, b: int| 0 <= a < b < s.len() ==> s[a].price >= s[b].price
}

/// Ascending by price: sell priority.
pub open spec fn sorted_asc(s: Seq<Order>) -> bool {
    forall|a: int, b: int| 0 <= a < b < s.len() ==> s[a].price <= s[b].price
}

proof fn lemma_singleton_contains(x: Order)
    ensures
        forall|y: Order| #[trigger] seq![x].contains(y) <==> y == x,
{
    assert(seq![x][0] == x);
    assert forall|y: Order| #[trigger] seq![x].contains(y) implies y == x by {
        let k = choose|k: int| 0 <= k < seq![x].len() && seq![x][k] == y;
        assert(k == 0);
    }
}

proof fn lemma_insert_desc_contains(s: Seq<Order>, x: Order)
    ensures
        forall|y: Order| #[trigger] insert_desc(s, x).contains(y) <==> (s.contains(y) || y == x),
    decreases s.len(),
{
    broadcast use vstd::seq_lib::lemma_seq_concat_contains_all_elements;

    lemma_singleton_contains(x);
    if s.len() == 0 {
        assert(insert_desc(s, x) == seq![x]);
        assert(forall|y: Order| !s.contains(y));
    } else {
        lemma_singleton_contains(s[0]);
        assert(s =~= seq![s[0]] + s.drop_first());
        if s[0].price >= x.price {
            lemma_insert_desc_contains(s.drop_first(), x);
            assert(insert_desc(s, x) == seq![s[0]] + insert_desc(s.drop_first(), x));
        } else {
            assert(insert_desc(s, x) == seq![x] + s);
        }
    }
}

proof fn lemma_insert_asc_contains(s: Seq<Order>, x: Order)
    ensures
        forall|y: Order| #[trigger] insert_asc(s, x).contains(y) <==> (s.contains(y) || y == x),
    decreases s.len(),
{
    broadcast use vstd::seq_lib::lemma_seq_concat_contains_all_elements;

    lemma_singleton_contains(x);
    if s.len() == 0 {
        assert(insert_asc(s, x) == seq![x]);
        assert(forall|y: Order| !s.contains(y));
    } else {
        lemma_singleton_contains(s[0]);
        assert(s =~= seq![s[0]] + s.drop_first());
        if s[0].price <= x.price {
            lemma_insert_asc_contains(s.drop_first(), x);
            assert(insert_asc(s, x) == seq![s[0]] + insert_asc(s.drop_first(), x));
        } else {
            assert(insert_asc(s, x) == seq![x] + s);
        }
    }
}

/// Sorting neither adds nor loses order values.
pub proof fn lemma_sort_desc_contains(s: Seq<Order>)
    ensures
        forall|y: Order| #[trigger] sort_desc(s).contains(y) <==> s.contains(y),
    decreases s.len(),
{
    broadcast use vstd::seq_lib::lemma_seq_concat_contains_all_elements;

    if s.len() == 0 {
        assert(forall|y: Order| !s.contains(y));
        assert(forall|y: Order| !sort_desc(s).contains(y));
    } else {
        lemma_sort_desc_contains(s.drop_last());
        lemma_insert_desc_contains(sort_desc(s.drop_last()), s.last());
        lemma_singleton_contains(s.last());
        assert(s =~= s.drop_last() + seq![s.last()]);
        assert(sort_desc(s) == insert_desc(sort_desc(s.drop_last()), s.last()));
    }
}

/// Sorting neither adds nor loses order values.
pub proof fn lemma_sort_asc_contains(s: Seq<Order>)
    ensures
        forall|y: Order| #[trigger] sort_asc(s).contains(y) <==> s.contains(y),
    decreases s.len(),
{
    broadcast use vstd::seq_lib::lemma_seq_concat_contains_all_elements;

    if s.len() == 0 {
        assert(forall|y: Order| !s.contains(y));
        assert(forall|y: Order| !sort_asc(s).contains(y));
    } else {
        lemma_sort_asc_contains(s.drop_last());
        lemma_insert_asc_contains(sort_asc(s.drop_last()), s.last());
        lemma_singleton_contains(s.last());
        assert(s =~= s.drop_last() + seq![s.last()]);
        assert(sort_asc(s) == insert_asc(sort_asc(s.drop_last()), s.last()));
    }
}

proof fn lemma_insert_desc_sorted(s: Seq<Order>, x: Order)
    requires
        sorted_desc(s),
    ensures
        sorted_desc(insert_desc(s, x)),
    decreases s.len(),
{
    if s.len() == 0 {
    } else if s[0].price >= x.price {
        let rest = insert_desc(s.drop_first(), x);
        lemma_insert_desc_sorted(s.drop_first(), x);
        lemma_insert_desc_contains(s.drop_first(), x);
        let r = insert_desc(s, x);
        assert(r == seq![s[0]] + rest);
        assert forall|a: int, b: int| 0 <= a < b < r.len() implies r[a].price >= r[b].price by {
            if a == 0 {
                assert(rest.contains(rest[b - 1]));
                let y = rest[b - 1];
                if y == x {
                } else {
                    assert(s.drop_first().contains(y));
                    let k = choose|k: int|
                        0 <= k < s.drop_first().len() && s.drop_first()[k] == y;
                    assert(s[k + 1] == y);
                }
            } else {
                assert(r[a] == rest[a - 1] && r[b] == rest[b - 1]);
            }
        }
    } else {
        let r = insert_desc(s, x);
        assert(r == seq![x] + s);
        assert forall|a: int, b: int| 0 <= a < b < r.len() implies r[a].price >= r[b].price by {
            if a == 0 {
                assert(r[b] == s[b - 1]);
                if b == 1 {
                } else {
                    assert(s[0].price >= s[b - 1].price);
                }
            } else {
                assert(r[a] == s[a - 1] && r[b] == s[b - 1]);
            }
        }
    }
}

proof fn lemma_insert_asc_sorted(s: Seq<Order>, x: Order)
    requires
        sorted_asc(s),
    ensures
        sorted_asc(insert_asc(s, x)),
    decreases s.len(),
{
    if s.len() == 0 {
    } else if s[0].price <= x.price {
        let rest = insert_asc(s.drop_first(), x);
        lemma_insert_asc_sorted(s.drop_first(), x);
        lemma_insert_asc_contains(s.drop_first(), x);
        let r = insert_asc(s, x);
        assert(r == seq![s[0]] + rest);
        assert forall|a: int, b: int| 0 <= a < b < r.len() implies r[a].price <= r[b].price by {
            if a == 0 {
                assert(rest.contains(rest[b - 1]));
                let y = rest[b - 1];
                if y == x {
                } else {
                    assert(s.drop_first().contains(y));
                    let k = choose|k: int|
                        0 <= k < s.drop_first().len() && s.drop_first()[k] == y;
                    assert(s[k + 1] == y);
                }
            } else {
                assert(r[a] == rest[a - 1] && r[b] == rest[b - 1]);
            }
        }
    } else {
        let r = insert_asc(s, x);
        assert(r == seq![x] + s);
        assert forall|a: int, b: int| 0 <= a < b < r.len() implies r[a].price <= r[b].price by {
            if a == 0 {
                assert(r[b] == s[b - 1]);
                if b == 1 {
                } else {
                    assert(s[0].price <= s[b - 1].price);
                }
            } else {
                assert(r[a] == s[a - 1] && r[b] == s[b - 1]);
            }
        }
    }
}

/// The buy priority order really is descending by price.
pub proof fn lemma_sort_desc_sorted(s: Seq<Order>)
    ensures
        sorted_desc(sort_desc(s)),
    decreases s.len(),
{
    if s.len() > 0 {
        lemma_sort_desc_sorted(s.drop_last());
        lemma_insert_desc_sorted(sort_desc(s.drop_last()), s.last());
    }
}

/// The sell priority order really is ascending by price.
pub proof fn lemma_sort_asc_sorted(s: Seq<Order>)
    ensures
        sorted_asc(sort_asc(s)),
    decreases s.len(),
{
    if s.len() > 0 {
        lemma_sort_asc_sorted(s.drop_last());
        lemma_insert_asc_sorted(sort_asc(s.drop_last()), s.last());
    }
}

/// Inserting at the first position `j` whose price is below `x.price`
/// is the same as `insert_desc`.
proof fn lemma_insert_desc_at(s: Seq<Order>, x: Order, j: int)
    requires
        0 <= j <= s.len(),
        forall|t: int| 0 <= t < j ==> s[t].price >= x.price,
        j < s.len() ==> s[j].price < x.price,
    ensures
        insert_desc(s, x) == s.insert(j, x),
    decreases j,
{
    if j == 0 {
        if s.len() == 0 {
            assert(insert_desc(s, x) =~= s.insert(0, x));
        } else {
            assert(s[0].price < x.price);
            assert(insert_desc(s, x) =~= s.insert(0, x));
        }
    } else {
        lemma_insert_desc_at(s.drop_first(), x, j - 1);
        assert(insert_desc(s, x) == seq![s[0]] + s.drop_first().insert(j - 1, x));
        assert(seq![s[0]] + s.drop_first().insert(j - 1, x) =~= s.insert(j, x));
    }
}

/// Inserting at the first position `j` whose price is above `x.price`
/// is the same as `insert_asc`.
proof fn lemma_insert_asc_at(s: Seq<Order>, x: Order, j: int)
    requires
        0 <= j <= s.len(),
        forall|t: int| 0 <= t < j ==> s[t].price <= x.price,
        j < s.len() ==> s[j].price > x.price,
    ensures
        insert_asc(s, x) == s.insert(j, x),
    decreases j,
{
    if j == 0 {
        if s.len() == 0 {
            assert(insert_asc(s, x) =~= s.insert(0, x));
        } else {
            assert(s[0].price > x.price);
            assert(insert_asc(s, x) =~= s.insert(0, x));
        }
    } else {
        lemma_insert_asc_at(s.drop_first(), x, j - 1);
        assert(insert_asc(s, x) == seq![s[0]] + s.drop_first().insert(j - 1, x));
        assert(seq![s[0]] + s.drop_first().insert(j - 1, x) =~= s.insert(j, x));
    }
}

/// Sort a copy of the buy list by descending price, stably.
pub fn sort_buys(v: &Vec<Order>) -> (r: Vec<Order>)
    ensures
        r@ == sort_desc(v@),
{
    let mut out: Vec<Order> = Vec::new();
    for k in 0..v.len()
        invariant
            out@ == sort_desc(v@.take(k as int)),
    {
        let x = v[k];
        let mut j: usize = 0;
        while j < out.len() && out[j].price >= x.price
            invariant
                j <= out.len(),
                forall|t: int| 0 <= t < j ==> out@[t].price >= x.price,
            decreases out.len() - j,
        {
            j = j + 1;
        }
        proof {
            lemma_insert_desc_at(out@, x, j as int);
            assert(v@.take(k as int + 1).drop_last() =~= v@.take(k as int));
            assert(v@.take(k as int + 1).last() == x);
        }
        out.insert(j, x);
    }
    proof {
        assert(v@.take(v@.len() as int) =~= v@);
    }
    out
}

/// Sort a copy of the sell list by ascending price, stably.
pub fn sort_sells(v: &Vec<Order>) -> (r: Vec<Order>)
    ensures
        r@ == sort_asc(v@),
{
    let mut out: Vec<Order> = Vec::new();
    for k in 0..v.len()
        invariant
            out@ == sort_asc(v@.take(k as int)),
    {
        let x = v[k];
        let mut j: usize = 0;
        while j < out.len() && out[j].price <= x.price
            invariant
                j <= out.len(),
                forall|t: int| 0 <= t < j ==> out@[t].price <= x.price,
            decreases out.len() - j,
        {
            j = j + 1;
        }
        proof {
            lemma_insert_asc_at(out@, x, j as int);
            assert(v@.take(k as int + 1).drop_last() =~= v@.take(k as int));
            assert(v@.take(k as int + 1).last() == x);
        }
        out.insert(j, x);
    }
    proof {
        assert(v@.take(v@.len() as int) =~= v@);
    }
    out
}

} // verus!
