//! Copying parts of lists.

use vstd::prelude::*;

verus! {

/// A copy of the entries from number `from` up to number `to`.
pub(crate) fn copy_range<T: Copy>(list: &[T], from: usize, to: usize) -> (part: Vec<T>)
    requires
        from <= to <= list@.len(),
    ensures
        part@ == list@.subrange(from as int, to as int),
{
    let mut part: Vec<T> = Vec::new();
    let mut index: usize = from;
    while index < to
        invariant
            from <= index <= to <= list@.len(),
            part@ == list@.subrange(from as int, index as int),
        decreases to - index,
    {
        part.push(list[index]);
        index += 1;
        proof {
            assert(part@ =~= list@.subrange(from as int, index as int));
        }
    }
    part
}

/// Appends copies of all entries.
pub(crate) fn append_all<T: Copy>(out: &mut Vec<T>, list: &[T])
    ensures
        final(out)@ == old(out)@ + list@,
{
    let ghost before = out@;
    let mut index: usize = 0;
    proof {
        assert(before + list@.take(0) =~= before);
    }
    while index < list.len()
        invariant
            index <= list@.len(),
            out@ == before + list@.take(index as int),
        decreases list@.len() - index,
    {
        out.push(list[index]);
        index += 1;
        proof {
            assert(out@ =~= before + list@.take(index as int));
        }
    }
    proof {
        assert(list@.take(list@.len() as int) =~= list@);
    }
}

} // verus!
