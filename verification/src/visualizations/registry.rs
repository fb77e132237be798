//! The carousel of visualizations the user cycles through.
use vstd::prelude::*;

verus! {

/// The index that follows `i` among `n` entries, wrapping to the first.
pub open spec fn spec_next_index(i: int, n: int) -> int {
    if n == 0 {
        i
    } else {
        (i + 1) % n
    }
}

/// The index that precedes `i` among `n` entries, wrapping to the last.
pub open spec fn spec_prev_index(i: int, n: int) -> int {
    if n == 0 {
        i
    } else if i == 0 {
        n - 1
    } else {
        i - 1
    }
}

/// Registered visualizations, in registration order, and the one shown.
pub struct VisualizationRegistry<V> {
    plugins: Vec<V>,
    current_index: usize,
}

impl<V> VisualizationRegistry<V> {
    /// The registered visualizations, in registration order.
    pub closed spec fn items(&self) -> Seq<V> {
        self.plugins@
    }

    /// Position of the visualization shown.
    pub closed spec fn index(&self) -> int {
        self.current_index as int
    }

    /// The shown position is a registered one, or the first when none is.
    pub open spec fn wf(&self) -> bool {
        self.index() < self.items().len() || self.index() == 0
    }

    /// Creates a registry with nothing registered.
    pub fn new() -> (r: Self)
        ensures
            r.wf(),
            r.items() == Seq::<V>::empty(),
            r.index() == 0,
    {
        VisualizationRegistry { plugins: Vec::new(), current_index: 0 }
    }

    /// Adds a visualization after the ones registered so far; the one
    /// shown stays the same.
    pub fn register(&mut self, viz: V)
        requires
            old(self).wf(),
        ensures
            final(self).wf(),
            final(self).items() == old(self).items().push(viz),
            final(self).index() == old(self).index(),
    {
        self.plugins.push(viz);
    }

    /// Number of registered visualizations.
    pub fn len(&self) -> (n: usize)
        ensures
            n == self.items().len(),
    {
        self.plugins.len()
    }

    /// Whether nothing is registered.
    pub fn is_empty(&self) -> (b: bool)
        ensures
            b == (self.items().len() == 0),
    {
        self.plugins.is_empty()
    }

    /// The visualization shown, `None` when nothing is registered.
    pub fn current(&self) -> (r: Option<&V>)
        requires
            self.wf(),
        ensures
            self.items().len() == 0 ==> r is None,
            self.items().len() > 0 ==> r == Some(&self.items()[self.index()]),
    {
        if self.current_index < self.plugins.len() {
            Some(&self.plugins[self.current_index])
        } else {
            None
        }
    }

    /// The visualization shown, for changing it; `None` when nothing is
    /// registered.
    pub fn current_mut(&mut self) -> (r: Option<&mut V>)
        requires
            old(self).wf(),
        ensures
            old(self).items().len() == 0 ==> r is None && *final(self) == *old(self),
            old(self).items().len() > 0 ==> r is Some,
            r matches Some(v) ==> *v == old(self).items()[old(self).index()]
                && final(self).index() == old(self).index()
                && final(self).items() == old(self).items().update(old(self).index(), *final(v)),
    {
        if self.current_index < self.plugins.len() {
            Some(&mut self.plugins[self.current_index])
        } else {
            None
        }
    }

    /// Shows the next visualization, wrapping from the last to the first.
    pub fn next(&mut self)
        requires
            old(self).wf(),
        ensures
            final(self).wf(),
            final(self).items() == old(self).items(),
            final(self).index() == spec_next_index(old(self).index(), old(self).items().len() as int),
    {
        if !self.plugins.is_empty() {
            assert(self.plugins@.len() == self.plugins.len());
            self.current_index = (self.current_index + 1) % self.plugins.len();
        }
    }

    /// Shows the previous visualization, wrapping from the first to the last.
    pub fn prev(&mut self)
        requires
            old(self).wf(),
        ensures
            final(self).wf(),
            final(self).items() == old(self).items(),
            final(self).index() == spec_prev_index(old(self).index(), old(self).items().len() as int),
    {
        if !self.plugins.is_empty() {
            self.current_index = if self.current_index == 0 {
                self.plugins.len() - 1
            } else {
                self.current_index - 1
            };
        }
    }
}

/// The index reached from `i` after `k` steps forward among `n` entries.
pub open spec fn spec_advance(i: int, n: int, k: nat) -> int
    decreases k,
{
    if k == 0 {
        i
    } else {
        spec_next_index(spec_advance(i, n, (k - 1) as nat), n)
    }
}

proof fn lemma_advance(i: int, n: int, k: nat)
    requires
        0 <= i < n,
    ensures
        spec_advance(i, n, k) == (i + k) % n,
    decreases k,
{
    if k > 0 {
        lemma_advance(i, n, (k - 1) as nat);
        vstd::arithmetic::div_mod::lemma_add_mod_noop(i + k - 1, 1, n);
        if n > 1 {
            vstd::arithmetic::div_mod::lemma_small_mod(1, n as nat);
        } else {
            vstd::arithmetic::div_mod::lemma_mod_self_0(1);
        }
        vstd::arithmetic::div_mod::lemma_mod_twice(i + k, n);
    } else {
        vstd::arithmetic::div_mod::lemma_small_mod(i as nat, n as nat);
    }
}

/// A step forward and a step back cancel out, in either order, and `k`
/// steps forward from a valid position land `k` places further, modulo the
/// number of entries; so stepping forward once per entry comes back to the
/// start.
pub proof fn lemma_registry_cycle(i: int, n: int, k: nat)
    requires
        0 <= i < n,
    ensures
        spec_prev_index(spec_next_index(i, n), n) == i,
        spec_next_index(spec_prev_index(i, n), n) == i,
        spec_advance(i, n, k) == (i + k) % n,
        spec_advance(i, n, n as nat) == i,
{
    lemma_advance(i, n, k);
    lemma_advance(i, n, n as nat);
    vstd::arithmetic::div_mod::lemma_mod_self_0(n);
    vstd::arithmetic::div_mod::lemma_add_mod_noop(i, n, n);
    vstd::arithmetic::div_mod::lemma_small_mod(i as nat, n as nat);
    if i + 1 < n {
        vstd::arithmetic::div_mod::lemma_small_mod((i + 1) as nat, n as nat);
    }
    if i > 0 {
        vstd::arithmetic::div_mod::lemma_small_mod(i as nat, n as nat);
    } else {
        vstd::arithmetic::div_mod::lemma_small_mod((n - 1) as nat, n as nat);
    }
}

} // verus!
