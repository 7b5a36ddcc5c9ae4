//! The order in which the fields of a message are written: ascending by field
//! number, and by place in the declaration among fields with the same number.

use vstd::prelude::*;

verus! {

/// Field `i` is written before field `j`.
pub open spec fn before(tags: Seq<i64>, i: int, j: int) -> bool {
    tags[i] < tags[j] || (tags[i] == tags[j] && i < j)
}

/// `i` is among the elements of `order`.
pub open spec fn occurs(order: Seq<usize>, i: int) -> bool {
    exists|p: int| 0 <= p < order.len() && #[trigger] order[p] == i
}

/// `order` lists the first `count` fields, each once, in the order in which
/// they are written.
pub open spec fn orders_first(tags: Seq<i64>, order: Seq<usize>, count: int) -> bool {
    &&& order.len() == count
    &&& forall|p: int| 0 <= p < count ==> (#[trigger] order[p]) < count
    &&& forall|p: int, q: int|
        0 <= p < q < count ==> before(tags, #[trigger] order[p] as int, #[trigger] order[q] as int)
    &&& forall|i: int| 0 <= i < count ==> #[trigger] occurs(order, i)
}

/// `order` lists all fields, each once, in the order in which they are written.
pub open spec fn is_tag_order(tags: Seq<i64>, order: Seq<usize>) -> bool {
    orders_first(tags, order, tags.len() as int)
}

/// Putting field `count` in at `place`, after the fields that are written
/// before it and before those that are written after it, gives the order of
/// one more field.
pub proof fn lemma_insert_keeps_order(tags: Seq<i64>, order: Seq<usize>, count: int, place: int)
    requires
        orders_first(tags, order, count),
        0 <= count < tags.len(),
        count <= usize::MAX,
        0 <= place <= count,
        forall|p: int| 0 <= p < place ==> tags[(#[trigger] order[p]) as int] <= tags[count],
        forall|q: int| place <= q < count ==> tags[(#[trigger] order[q]) as int] > tags[count],
    ensures
        orders_first(tags, order.insert(place, count as usize), count + 1),
{
    let longer = order.insert(place, count as usize);
    assert(longer.len() == count + 1);
    assert forall|p: int| 0 <= p < count + 1 implies (#[trigger] longer[p]) < count + 1 by {
        if p < place {
            assert(longer[p] == order[p]);
        } else if p > place {
            assert(longer[p] == order[p - 1]);
        }
    }
    assert forall|p: int, q: int| 0 <= p < q < count + 1 implies before(
        tags,
        #[trigger] longer[p] as int,
        #[trigger] longer[q] as int,
    ) by {
        if q < place {
            assert(longer[p] == order[p] && longer[q] == order[q]);
        } else if q == place {
            assert(longer[p] == order[p]);
        } else if p < place {
            assert(longer[p] == order[p] && longer[q] == order[q - 1]);
            if p < q - 1 {
                assert(before(tags, order[p] as int, order[q - 1] as int));
            }
        } else if p == place {
            assert(longer[q] == order[q - 1]);
        } else {
            assert(longer[p] == order[p - 1] && longer[q] == order[q - 1]);
        }
    }
    assert forall|i: int| 0 <= i < count + 1 implies #[trigger] occurs(longer, i) by {
        if i == count {
            assert(longer[place] == i);
        } else {
            assert(occurs(order, i));
            let p = choose|p: int| 0 <= p < order.len() && order[p] == i;
            if p < place {
                assert(longer[p] == i);
            } else {
                assert(longer[p + 1] == i);
            }
        }
    }
}

proof fn insert_place(tags: Seq<i64>, order: Seq<usize>, count: int, from: int) -> (place: int)
    requires
        orders_first(tags, order, count),
        0 <= count < tags.len(),
        0 <= from <= count,
        forall|q: int| from <= q < count ==> tags[(#[trigger] order[q]) as int] > tags[count],
    ensures
        0 <= place <= count,
        forall|p: int| 0 <= p < place ==> tags[(#[trigger] order[p]) as int] <= tags[count],
        forall|q: int| place <= q < count ==> tags[(#[trigger] order[q]) as int] > tags[count],
    decreases from,
{
    if from > 0 && tags[order[from - 1] as int] > tags[count] {
        insert_place(tags, order, count, from - 1)
    } else {
        if from > 0 {
            assert forall|p: int| 0 <= p < from implies tags[(#[trigger] order[p]) as int]
                <= tags[count] by {
                if p < from - 1 {
                    assert(before(tags, order[p] as int, order[from - 1] as int));
                }
            }
        }
        from
    }
}

/// The first `count` fields of any message can be put in order.
pub proof fn lemma_order_exists(tags: Seq<i64>, count: int)
    requires
        0 <= count <= tags.len(),
        tags.len() <= usize::MAX,
    ensures
        exists|order: Seq<usize>| orders_first(tags, order, count),
    decreases count,
{
    if count == 0 {
        assert(orders_first(tags, Seq::<usize>::empty(), 0));
    } else {
        let fewer = count - 1;
        lemma_order_exists(tags, fewer);
        let shorter = choose|order: Seq<usize>| orders_first(tags, order, fewer);
        let place = insert_place(tags, shorter, fewer, fewer);
        lemma_insert_keeps_order(tags, shorter, fewer, place);
        assert(orders_first(tags, shorter.insert(place, fewer as usize), count));
    }
}

proof fn lemma_orders_agree(tags: Seq<i64>, a: Seq<usize>, b: Seq<usize>, upto: int)
    requires
        is_tag_order(tags, a),
        is_tag_order(tags, b),
        0 <= upto <= tags.len(),
    ensures
        forall|j: int| 0 <= j < upto ==> a[j] == b[j],
    decreases upto,
{
    if upto > 0 {
        lemma_orders_agree(tags, a, b, upto - 1);
        let k = upto - 1;
        assert(a[k] < tags.len() && b[k] < tags.len());
        assert(occurs(b, a[k] as int));
        let in_b = choose|p: int| 0 <= p < b.len() && b[p] == a[k] as int;
        assert(occurs(a, b[k] as int));
        let in_a = choose|p: int| 0 <= p < a.len() && a[p] == b[k] as int;
        if in_b < k {
            assert(a[in_b] == b[in_b]);
            assert(before(tags, a[in_b] as int, a[k] as int));
        }
        if in_a < k {
            assert(a[in_a] == b[in_a]);
            assert(before(tags, b[in_a] as int, b[k] as int));
        }
        if in_b > k && in_a > k {
            assert(before(tags, b[k] as int, b[in_b] as int));
            assert(before(tags, a[k] as int, a[in_a] as int));
        }
    }
}

/// The fields of a message can be put in order in one way only.
pub proof fn lemma_order_unique(tags: Seq<i64>, a: Seq<usize>, b: Seq<usize>)
    requires
        is_tag_order(tags, a),
        is_tag_order(tags, b),
    ensures
        a == b,
{
    lemma_orders_agree(tags, a, b, tags.len() as int);
    assert(a =~= b);
}

/// The order in which the fields with the given numbers are written.
pub open spec fn tag_order(tags: Seq<i64>) -> Seq<usize> {
    choose|order: Seq<usize>| is_tag_order(tags, order)
}

/// [`tag_order`] is the one order of the fields.
pub proof fn lemma_tag_order(tags: Seq<i64>)
    requires
        tags.len() <= usize::MAX,
    ensures
        is_tag_order(tags, tag_order(tags)),
{
    let count = tags.len() as int;
    lemma_order_exists(tags, count);
    let some = choose|order: Seq<usize>| orders_first(tags, order, count);
    assert(is_tag_order(tags, some));
}

/// Computes [`tag_order`].
pub fn sort_by_tag(tags: &Vec<i64>) -> (order: Vec<usize>)
    ensures
        order@ == tag_order(tags@),
        is_tag_order(tags@, order@),
{
    let mut order: Vec<usize> = Vec::new();
    let mut count: usize = 0;
    while count < tags.len()
        invariant
            count <= tags@.len(),
            orders_first(tags@, order@, count as int),
        decreases tags@.len() - count,
    {
        let tag = tags[count];
        let mut place: usize = count;
        while place > 0 && tags[order[place - 1]] > tag
            invariant
                place <= count < tags@.len(),
                tag == tags@[count as int],
                orders_first(tags@, order@, count as int),
                forall|q: int|
                    place <= q < count ==> tags@[(#[trigger] order@[q]) as int] > tags@[count as int],
            decreases place,
        {
            place = place - 1;
        }
        proof {
            if place > 0 {
                assert forall|p: int| 0 <= p < place implies tags@[(#[trigger] order@[p]) as int]
                    <= tags@[count as int] by {
                    if p < place - 1 {
                        assert(before(tags@, order@[p] as int, order@[place - 1] as int));
                    }
                }
            }
            lemma_insert_keeps_order(tags@, order@, count as int, place as int);
        }
        order.insert(place, count);
        count = count + 1;
    }
    proof {
        lemma_tag_order(tags@);
        lemma_order_unique(tags@, order@, tag_order(tags@));
    }
    order
}

/// The order is ascending by field number, and strictly so where no two
/// fields have the same number; every field has its place in it.
pub proof fn lemma_tag_order_ascending(tags: Seq<i64>)
    requires
        tags.len() <= usize::MAX,
    ensures
        tag_order(tags).len() == tags.len(),
        forall|p: int| 0 <= p < tags.len() ==> (#[trigger] tag_order(tags)[p]) < tags.len(),
        forall|i: int| 0 <= i < tags.len() ==> #[trigger] occurs(tag_order(tags), i),
        forall|p: int, q: int|
            0 <= p < q < tags.len() ==> tags[(#[trigger] tag_order(tags)[p]) as int] <= tags[(
            #[trigger] tag_order(tags)[q]) as int],
        (forall|i: int, j: int| 0 <= i < j < tags.len() ==> tags[i] != tags[j]) ==> forall|
            p: int,
            q: int,
        |
            0 <= p < q < tags.len() ==> tags[(#[trigger] tag_order(tags)[p]) as int] < tags[(
            #[trigger] tag_order(tags)[q]) as int],
{
    lemma_tag_order(tags);
    let order = tag_order(tags);
    assert forall|p: int, q: int| 0 <= p < q < tags.len() implies tags[(#[trigger] order[p]) as int]
        <= tags[(#[trigger] order[q]) as int] by {
        assert(before(tags, order[p] as int, order[q] as int));
    }
    if forall|i: int, j: int| 0 <= i < j < tags.len() ==> tags[i] != tags[j] {
        assert forall|p: int, q: int| 0 <= p < q < tags.len() implies tags[(
        #[trigger] order[p]) as int] < tags[(#[trigger] order[q]) as int] by {
            assert(before(tags, order[p] as int, order[q] as int));
        }
    }
}

} // verus!
