//! The values of the small counting streams: what each yields, item by item.
//! Pacing the items in time is left to the caller.
use vstd::prelude::*;

verus! {

/// The values a countdown from `from` yields: `from`, `from - 1`, ..., `0`.
pub fn countdown(from: u32) -> (res: Vec<u32>)
    ensures
        res@.len() == from + 1,
        forall|i: int| 0 <= i < res@.len() ==> #[trigger] res@[i] == from - i,
{
    let mut res: Vec<u32> = Vec::new();
    let mut i: u32 = from;
    loop
        invariant
            i <= from,
            res@.len() == from - i,
            forall|k: int| 0 <= k < res@.len() ==> #[trigger] res@[k] == from - k,
        decreases i,
    {
        res.push(i);
        if i == 0 {
            return res;
        }
        i = i - 1;
    }
}

/// The values `0`, `1`, `2`.
pub fn zero_to_three() -> (res: Vec<u32>)
    ensures
        res@ == seq![0u32, 1u32, 2u32],
{
    let mut res: Vec<u32> = Vec::new();
    let mut i: u32 = 0;
    while i < 3
        invariant
            i <= 3,
            res@.len() == i,
            forall|k: int| 0 <= k < i ==> #[trigger] res@[k] == k,
        decreases 3 - i,
    {
        res.push(i);
        i = i + 1;
    }
    assert(res@ =~= seq![0u32, 1u32, 2u32]);
    res
}

/// Replaces the value `1` by `20` and passes every other value.
pub fn handle_one(value: u32) -> (res: u32)
    ensures
        res == if value == 1 {
            20
        } else {
            value
        },
{
    if value == 1 {
        20
    } else {
        value
    }
}

/// Doubles a value.
pub fn double(value: u32) -> (res: u32)
    requires
        value * 2 <= u32::MAX,
    ensures
        res == value * 2,
{
    value * 2
}

} // verus!
