//! Token-usage accounting: the per-call snapshot and the per-adapter
//! cumulative collector.
use vstd::prelude::*;

verus! {

/// Token counts reported for one call; absent fields were not reported.
#[derive(Debug, Clone, Copy, PartialEq, Eq, Structural)]
pub struct Usage {
    pub input_tokens: Option<i32>,
    pub output_tokens: Option<i32>,
    pub total_tokens: Option<i32>,
}

impl Usage {
    /// A usage snapshot holding exactly the given counts.
    pub fn new(input_tokens: Option<i32>, output_tokens: Option<i32>, total_tokens: Option<
        i32,
    >) -> (r: Usage)
        ensures
            r.input_tokens == input_tokens,
            r.output_tokens == output_tokens,
            r.total_tokens == total_tokens,
    {
        Usage { input_tokens, output_tokens, total_tokens }
    }
}

/// The sum of two optional counts: absent fields count for nothing, and a
/// sum that does not fit is clamped at the largest count.
pub open spec fn spec_combine(a: Option<i32>, b: Option<i32>) -> Option<i32> {
    match (a, b) {
        (Some(x), Some(y)) => if x + y <= i32::MAX as int {
            Some((x + y) as i32)
        } else {
            Some(i32::MAX)
        },
        (Some(x), None) => Some(x),
        (None, Some(y)) => Some(y),
        (None, None) => None,
    }
}

fn combine(a: Option<i32>, b: Option<i32>) -> (r: Option<i32>)
    requires
        a is Some ==> a->0 >= 0,
        b is Some ==> b->0 >= 0,
    ensures
        r == spec_combine(a, b),
{
    match (a, b) {
        (Some(x), Some(y)) => match x.checked_add(y) {
            Some(s) => Some(s),
            None => Some(i32::MAX),
        },
        (Some(x), None) => Some(x),
        (None, Some(y)) => Some(y),
        (None, None) => None,
    }
}

/// All counts of the snapshot are either absent or non-negative.
pub open spec fn usage_counts_ok(u: Usage) -> bool {
    &&& (u.input_tokens is Some ==> u.input_tokens->0 >= 0)
    &&& (u.output_tokens is Some ==> u.output_tokens->0 >= 0)
    &&& (u.total_tokens is Some ==> u.total_tokens->0 >= 0)
}

/// The running total of usage across an adapter instance's lifetime.
#[derive(Debug, Clone, Copy, PartialEq, Eq, Structural)]
pub struct UsageCollector {
    pub total: Usage,
}

impl UsageCollector {
    /// A collector that has seen no usage yet.
    pub fn new() -> (r: UsageCollector)
        ensures
            r.total.input_tokens is None,
            r.total.output_tokens is None,
            r.total.total_tokens is None,
    {
        UsageCollector { total: Usage::new(None, None, None) }
    }

    /// Folds one call's usage into the running total, field by field.
    pub fn add_usage(&mut self, usage: &Usage)
        requires
            usage_counts_ok(old(self).total),
            usage_counts_ok(*usage),
        ensures
            final(self).total.input_tokens == spec_combine(
                old(self).total.input_tokens,
                usage.input_tokens,
            ),
            final(self).total.output_tokens == spec_combine(
                old(self).total.output_tokens,
                usage.output_tokens,
            ),
            final(self).total.total_tokens == spec_combine(
                old(self).total.total_tokens,
                usage.total_tokens,
            ),
    {
        self.total = Usage::new(
            combine(self.total.input_tokens, usage.input_tokens),
            combine(self.total.output_tokens, usage.output_tokens),
            combine(self.total.total_tokens, usage.total_tokens),
        );
    }

    /// The cumulative usage seen so far; reads only.
    pub fn get_usage(&self) -> (r: Usage)
        ensures
            r == self.total,
    {
        self.total
    }
}

} // verus!
