//! The cache of rendered transcript lines, keyed by a hash of what was
//! rendered. Lines are only good for the width they were wrapped at: a
//! change of width empties the cache.

use std::collections::HashMap;
use vstd::prelude::*;

verus! {

broadcast use vstd::std_specs::hash::group_hash_axioms;

/// Rendered lines by key, and the width they were rendered at.
pub struct RenderCache<T> {
    entries: HashMap<u64, Vec<T>>,
    last_width: u16,
}

impl<T> RenderCache<T> {
    /// The lines kept for each key.
    pub closed spec fn entries(self) -> Map<u64, Seq<T>> {
        Map::new(|k: u64| self.entries@.contains_key(k), |k: u64| self.entries@[k]@)
    }

    /// The width the kept lines were rendered at (0 before any).
    pub closed spec fn width(self) -> u16 {
        self.last_width
    }

    /// An empty cache.
    pub fn new() -> (c: Self)
        ensures
            c.entries() == Map::<u64, Seq<T>>::empty(),
            c.width() == 0,
    {
        let c = RenderCache { entries: HashMap::new(), last_width: 0 };
        assert(c.entries() =~= Map::<u64, Seq<T>>::empty());
        c
    }

    /// Forgets every entry and the width.
    pub fn clear(&mut self)
        ensures
            final(self).entries() == Map::<u64, Seq<T>>::empty(),
            final(self).width() == 0,
    {
        self.entries.clear();
        self.last_width = 0;
        assert(self.entries() =~= Map::<u64, Seq<T>>::empty());
    }

    /// Rendering at `width`: a width other than the last one empties the
    /// cache.
    pub fn touch_width(&mut self, width: u16)
        ensures
            final(self).width() == width,
            final(self).entries() == (if width == old(self).width() {
                old(self).entries()
            } else {
                Map::<u64, Seq<T>>::empty()
            }),
    {
        if width != self.last_width {
            self.entries.clear();
            self.last_width = width;
            assert(self.entries() =~= Map::<u64, Seq<T>>::empty());
        }
    }

    /// Makes sure the lines of `key` at `width` are kept, rendering them
    /// with `compute` only when they are not, and returns how many there
    /// are.
    pub fn ensure_cached<F: FnOnce() -> Vec<T>>(&mut self, key: u64, width: u16, compute: F) -> (n:
        usize)
        requires
            call_requires(compute, ()),
        ensures
            final(self).width() == width,
            ({
                let kept = if width == old(self).width() {
                    old(self).entries()
                } else {
                    Map::<u64, Seq<T>>::empty()
                };
                if kept.contains_key(key) {
                    final(self).entries() == kept && n == kept[key].len()
                } else {
                    exists|lines: Vec<T>|
                        call_ensures(compute, (), lines) && final(self).entries() == kept.insert(
                            key,
                            lines@,
                        ) && n == lines@.len()
                }
            }),
    {
        self.touch_width(width);
        match self.entries.get(&key) {
            Some(v) => v.len(),
            None => {
                let lines = compute();
                let n = lines.len();
                let ghost lv = lines@;
                let ghost before = self.entries();
                self.entries.insert(key, lines);
                proof {
                    assert(self.entries() =~= before.insert(key, lv));
                }
                n
            },
        }
    }

    /// How many lines are kept for `key`, if any.
    pub fn line_count(&self, key: u64) -> (r: Option<usize>)
        ensures
            match r {
                Some(n) => self.entries().contains_key(key) && n == self.entries()[key].len(),
                None => !self.entries().contains_key(key),
            },
    {
        match self.entries.get(&key) {
            Some(v) => Some(v.len()),
            None => None,
        }
    }

    /// Keeps only the entries of the keys in `active`.
    pub fn retain_keys(&mut self, active: &[u64])
        ensures
            final(self).width() == old(self).width(),
            final(self).entries() == old(self).entries().restrict(active@.to_set()),
    {
        let ghost e0 = self.entries();
        let ghost w0 = self.last_width;
        let mut kept: HashMap<u64, Vec<T>> = HashMap::new();
        let mut i: usize = 0;
        while i < active.len()
            invariant
                i <= active@.len(),
                self.last_width == w0,
                forall|q: u64|
                    #[trigger] kept@.contains_key(q) <==> (e0.contains_key(q) && active@.take(
                        i as int,
                    ).to_set().contains(q)),
                forall|q: u64| kept@.contains_key(q) ==> #[trigger] kept@[q]@ == e0[q],
                forall|q: u64|
                    #[trigger] self.entries@.contains_key(q) <==> (e0.contains_key(q)
                        && !active@.take(i as int).to_set().contains(q)),
                forall|q: u64| self.entries@.contains_key(q) ==> #[trigger] self.entries@[q]@ == e0[q],
            decreases active@.len() - i,
        {
            let k = active[i];
            let ghost s0 = active@.take(i as int).to_set();
            let ghost s1 = active@.take(i + 1).to_set();
            proof {
                let t0 = active@.take(i as int);
                let t1 = active@.take(i + 1);
                assert forall|x: u64| s1.contains(x) <==> (s0.contains(x) || x == k) by {
                    if t0.contains(x) {
                        let j = choose|j: int| 0 <= j < t0.len() && #[trigger] t0[j] == x;
                        assert(t1[j] == x);
                    }
                    if x == k {
                        assert(t1[i as int] == x);
                    }
                    if t1.contains(x) {
                        let j = choose|j: int| 0 <= j < t1.len() && #[trigger] t1[j] == x;
                        if j < i {
                            assert(t0[j] == x);
                        }
                    }
                }
            }
            let ghost ent0 = self.entries@;
            let ghost kept0 = kept@;
            match self.entries.remove(&k) {
                Some(v) => {
                    proof {
                        assert(ent0.contains_key(k) && ent0[k] == v);
                    }
                    kept.insert(k, v);
                },
                None => {},
            }
            proof {
                assert(self.entries@ == ent0.remove(k));
            }
            i = i + 1;
        }
        self.entries = kept;
        proof {
            assert(active@.take(active@.len() as int) =~= active@);
            assert(self.entries() =~= e0.restrict(active@.to_set()));
        }
    }

    /// How many keys have lines kept.
    pub fn len(&self) -> (n: usize)
        ensures
            n == self.entries().dom().len(),
    {
        proof {
            assert(self.entries().dom() =~= self.entries@.dom());
        }
        self.entries.len()
    }
}

} // verus!
