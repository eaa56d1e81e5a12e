//! The two sequences derived from the responses of one execution: batches,
//! the responses that carry rows, and rows, the batches' rows in order.
use vstd::prelude::*;

verus! {

pub open spec fn deep_view<T>(s: Seq<Vec<T>>) -> Seq<Seq<T>> {
    s.map_values(|v: Vec<T>| v@)
}

/// The non-empty row lists of `s`, in order.
pub open spec fn batches_spec<T>(s: Seq<Seq<T>>) -> Seq<Seq<T>>
    decreases s.len(),
{
    if s.len() == 0 {
        Seq::empty()
    } else if s.last().len() > 0 {
        batches_spec(s.drop_last()).push(s.last())
    } else {
        batches_spec(s.drop_last())
    }
}

/// All rows of `s`, list after list.
pub open spec fn rows_spec<T>(s: Seq<Seq<T>>) -> Seq<T>
    decreases s.len(),
{
    if s.len() == 0 {
        Seq::empty()
    } else {
        rows_spec(s.drop_last()) + s.last()
    }
}

/// Leaving out the empty responses loses no row and changes no order: the
/// rows of the batches are the rows of the responses.
pub proof fn lemma_batches_keep_rows<T>(s: Seq<Seq<T>>)
    ensures
        rows_spec(batches_spec(s)) == rows_spec(s),
    decreases s.len(),
{
    if s.len() > 0 {
        lemma_batches_keep_rows(s.drop_last());
        let b = batches_spec(s.drop_last());
        if s.last().len() > 0 {
            assert(b.push(s.last()).drop_last() =~= b);
        } else {
            assert(rows_spec(s.drop_last()) + s.last() =~= rows_spec(s.drop_last()));
        }
    }
}

/// Every batch holds at least one row.
pub proof fn lemma_batches_non_empty<T>(s: Seq<Seq<T>>)
    ensures
        forall|i: int| 0 <= i < batches_spec(s).len() ==> #[trigger] batches_spec(s)[i].len() > 0,
    decreases s.len(),
{
    if s.len() > 0 {
        lemma_batches_non_empty(s.drop_last());
        let b = batches_spec(s.drop_last());
        if s.last().len() > 0 {
            assert forall|i: int| 0 <= i < b.len() + 1 implies #[trigger] b.push(s.last())[i].len()
                > 0 by {
                if i < b.len() {
                    assert(b.push(s.last())[i] == b[i]);
                }
            }
        }
    }
}

/// The responses that carry rows, in arrival order.
pub fn batches_of<T>(responses: Vec<Vec<T>>) -> (r: Vec<Vec<T>>)
    ensures
        deep_view(r@) == batches_spec(deep_view(responses@)),
{
    let ghost all = deep_view(responses@);
    let mut rest = responses;
    let mut out: Vec<Vec<T>> = Vec::new();
    let ghost mut i: int = 0;
    while rest.len() > 0
        invariant
            0 <= i <= all.len(),
            deep_view(rest@) == all.skip(i),
            deep_view(out@) == batches_spec(all.take(i)),
        decreases rest.len(),
    {
        proof {
            assert(deep_view(rest@).len() == rest@.len());
            assert(i < all.len());
            assert(all.skip(i)[0] == all[i]);
            assert(deep_view(rest@)[0] == rest@[0]@);
        }
        let ghost prev = rest@;
        let batch = rest.remove(0);
        proof {
            assert(deep_view(rest@).len() == rest@.len());
            assert(i < all.len());
            assert(all[i] == batch@) by {
                assert(all.skip(i)[0] == all[i]);
            }
            assert(all.take(i + 1).drop_last() =~= all.take(i));
            assert(rest@ =~= prev.subrange(1, prev.len() as int));
            assert forall|j: int| 0 <= j < rest@.len() implies #[trigger] deep_view(rest@)[j] == all.skip(
                i + 1,
            )[j] by {
                assert(deep_view(prev)[j + 1] == all.skip(i)[j + 1]);
            }
            assert(deep_view(rest@) =~= all.skip(i + 1));
        }
        if batch.len() > 0 {
            let ghost before = out@;
            out.push(batch);
            proof {
                assert(deep_view(out@) =~= deep_view(before).push(all[i]));
            }
        }
        proof {
            i = i + 1;
        }
    }
    proof {
        assert(all.skip(i).len() == 0);
        assert(all.take(i) =~= all);
    }
    out
}

/// The rows of all batches, batch after batch, each in its own order.
pub fn rows_of<T>(batches: Vec<Vec<T>>) -> (r: Vec<T>)
    ensures
        r@ == rows_spec(deep_view(batches@)),
{
    let ghost all = deep_view(batches@);
    let mut rest = batches;
    let mut out: Vec<T> = Vec::new();
    let ghost mut i: int = 0;
    while rest.len() > 0
        invariant
            0 <= i <= all.len(),
            deep_view(rest@) == all.skip(i),
            out@ == rows_spec(all.take(i)),
        decreases rest.len(),
    {
        proof {
            assert(deep_view(rest@).len() == rest@.len());
            assert(i < all.len());
            assert(all.skip(i)[0] == all[i]);
            assert(deep_view(rest@)[0] == rest@[0]@);
        }
        let ghost prev = rest@;
        let mut batch = rest.remove(0);
        proof {
            assert(deep_view(rest@).len() == rest@.len());
            assert(i < all.len());
            assert(all[i] == batch@) by {
                assert(all.skip(i)[0] == all[i]);
            }
            assert(all.take(i + 1).drop_last() =~= all.take(i));
            assert(rest@ =~= prev.subrange(1, prev.len() as int));
            assert forall|j: int| 0 <= j < rest@.len() implies #[trigger] deep_view(rest@)[j] == all.skip(
                i + 1,
            )[j] by {
                assert(deep_view(prev)[j + 1] == all.skip(i)[j + 1]);
            }
            assert(deep_view(rest@) =~= all.skip(i + 1));
        }
        out.append(&mut batch);
        proof {
            i = i + 1;
        }
    }
    proof {
        assert(all.skip(i).len() == 0);
        assert(all.take(i) =~= all);
    }
    out
}

} // verus!
