//! Bounded quantities owned by an actor.

use vstd::prelude::*;

verus! {

/// The value that a range from `lo` to `hi` leaves of `value`.
///
/// The upper bound is looked at first: with `lo > hi`, every value above `hi`
/// lands on `hi` and every other value below `lo` lands on `lo`.
pub open spec fn clamp(value: int, lo: int, hi: int) -> int {
    if value > hi {
        hi
    } else if value < lo {
        lo
    } else {
        value
    }
}

/// What a resource is to the contracts: its name and three integers.
pub struct ResourceView {
    pub name: Seq<char>,
    pub value: int,
    pub min: int,
    pub max: int,
}

impl ResourceView {
    /// The value lies between the resource's own floor and ceiling.
    pub open spec fn in_range(self) -> bool {
        self.min <= self.value <= self.max
    }

    /// The resource with `new_value` clamped to the range `lo..=hi`.
    pub open spec fn change_to_minmax(self, new_value: int, lo: int, hi: int) -> ResourceView {
        ResourceView { value: clamp(new_value, lo, hi), ..self }
    }

    /// The resource with `amount` added, then clamped to the range `lo..=hi`.
    pub open spec fn change_minmax(self, amount: int, lo: int, hi: int) -> ResourceView {
        self.change_to_minmax(self.value + amount, lo, hi)
    }

    /// The resource with `new_value` clamped to its own range.
    pub open spec fn change_to(self, new_value: int) -> ResourceView {
        self.change_to_minmax(new_value, self.min, self.max)
    }

    /// The resource with `amount` added, then clamped to its own range.
    pub open spec fn change(self, amount: int) -> ResourceView {
        self.change_to(self.value + amount)
    }

    /// The resource after one operation.
    pub open spec fn step(self, op: ResourceOp) -> ResourceView {
        match op {
            ResourceOp::Change(amount) => self.change(amount as int),
            ResourceOp::ChangeTo(new_value) => self.change_to(new_value as int),
        }
    }

    /// The resource after the operations of `ops`, first to last.
    pub open spec fn run(self, ops: Seq<ResourceOp>) -> ResourceView
        decreases ops.len(),
    {
        if ops.len() == 0 {
            self
        } else {
            self.run(ops.drop_last()).step(ops.last())
        }
    }
}

/// One of the two operations that clamp to the resource's own range.
#[derive(Clone, Copy, Debug)]
pub enum ResourceOp {
    /// Add a signed amount.
    Change(i64),
    /// Set a new value.
    ChangeTo(i64),
}

/// A named quantity with a floor and a ceiling.
///
/// Construction does not clamp: a resource may start outside its range. Every
/// operation that changes the value saturates at the bounds it is given.
#[derive(Debug)]
pub struct Resource {
    name: String,
    value: i64,
    min: i64,
    max: i64,
}

impl View for Resource {
    type V = ResourceView;

    closed spec fn view(&self) -> ResourceView {
        ResourceView {
            name: self.name@,
            value: self.value as int,
            min: self.min as int,
            max: self.max as int,
        }
    }
}

impl Default for Resource {
    /// An unnamed resource at 0 in the range from 0 to 100.
    fn default() -> (resource: Resource)
        ensures
            resource@ == (ResourceView { name: Seq::empty(), value: 0, min: 0, max: 100 }),
    {
        Resource { name: String::new(), value: 0, min: 0, max: 100 }
    }
}

impl Resource {
    /// A resource with the given name, value and bounds, none of them adjusted.
    pub fn new(name: &str, value: i64, min: i64, max: i64) -> (resource: Resource)
        ensures
            resource@ == (ResourceView {
                name: name@,
                value: value as int,
                min: min as int,
                max: max as int,
            }),
    {
        Resource { name: name.to_owned(), value, min, max }
    }

    pub fn name(&self) -> (name: &String)
        ensures
            name@ == self@.name,
    {
        &self.name
    }

    pub fn value(&self) -> (value: i64)
        ensures
            value == self@.value,
    {
        self.value
    }

    pub fn min(&self) -> (min: i64)
        ensures
            min == self@.min,
    {
        self.min
    }

    pub fn max(&self) -> (max: i64)
        ensures
            max == self@.max,
    {
        self.max
    }

    /// Adds `amount` to the value and clamps the sum to the resource's own
    /// range. The sum is taken exactly, so a change that overshoots a bound
    /// lands on that bound.
    pub fn change(&mut self, amount: i64)
        ensures
            final(self)@ == old(self)@.change(amount as int),
            old(self)@.min <= old(self)@.max ==> final(self)@.in_range(),
    {
        let bounds = (self.min, self.max);
        self.change_minmax(amount, bounds);
    }

    /// Sets the value to `new_value` clamped to the resource's own range.
    pub fn change_to(&mut self, new_value: i64)
        ensures
            final(self)@ == old(self)@.change_to(new_value as int),
            old(self)@.min <= old(self)@.max ==> final(self)@.in_range(),
    {
        let bounds = (self.min, self.max);
        self.change_to_minmax(new_value, bounds);
    }

    /// Adds `amount` to the value and clamps the sum to the range
    /// `minmax.0..=minmax.1` in place of the resource's own.
    pub fn change_minmax(&mut self, amount: i64, minmax: (i64, i64))
        ensures
            final(self)@ == old(self)@.change_minmax(
                amount as int,
                minmax.0 as int,
                minmax.1 as int,
            ),
    {
        let sum: i128 = self.value as i128 + amount as i128;
        if sum > minmax.1 as i128 {
            self.value = minmax.1;
        } else if sum < minmax.0 as i128 {
            self.value = minmax.0;
        } else {
            self.value = sum as i64;
        }
    }

    /// Sets the value to `new_value` clamped to the range
    /// `minmax.0..=minmax.1` in place of the resource's own.
    pub fn change_to_minmax(&mut self, new_value: i64, minmax: (i64, i64))
        ensures
            final(self)@ == old(self)@.change_to_minmax(
                new_value as int,
                minmax.0 as int,
                minmax.1 as int,
            ),
    {
        if new_value > minmax.1 {
            self.value = minmax.1;
        } else if new_value < minmax.0 {
            self.value = minmax.0;
        } else {
            self.value = new_value;
        }
    }
}

/// After any sequence of at least one `change` or `change_to`, the value of a
/// resource whose floor is not above its ceiling lies within its range,
/// wherever it started.
pub proof fn lemma_run_in_range(resource: ResourceView, ops: Seq<ResourceOp>)
    requires
        resource.min <= resource.max,
        ops.len() > 0,
    ensures
        resource.run(ops).in_range(),
        resource.run(ops).name == resource.name,
        resource.run(ops).min == resource.min,
        resource.run(ops).max == resource.max,
{
    lemma_run_keeps_bounds(resource, ops.drop_last());
}

/// No sequence of operations changes name or bounds, and one that starts in
/// range stays in range.
pub proof fn lemma_run_keeps_bounds(resource: ResourceView, ops: Seq<ResourceOp>)
    ensures
        resource.run(ops).name == resource.name,
        resource.run(ops).min == resource.min,
        resource.run(ops).max == resource.max,
        resource.in_range() ==> resource.run(ops).in_range(),
    decreases ops.len(),
{
    if ops.len() > 0 {
        lemma_run_keeps_bounds(resource, ops.drop_last());
    }
}

} // verus!
