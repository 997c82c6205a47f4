//! The sandbox published apps run their server-side code in.
//!
//! Three limits matter, and none of them are advisory:
//!
//! * **fuel** — a hard ceiling on executed instructions, so an infinite loop
//!   dies deterministically rather than pinning a core.
//! * **epochs** — wall-clock deadline, which catches guests that block without
//!   burning fuel.
//! * **memory** — a cap enforced when the guest asks to grow.
//!
//! A store is built fresh per request. Reusing one would leak state between
//! requests, and app state belongs in that app's database instead.
use crate::table::Table;
use vstd::prelude::*;

verus! {

/// How often the epoch ticker advances, in milliseconds. Wall-clock deadlines
/// are rounded up to a multiple of this, so it trades timeout precision against
/// wakeups.
pub const EPOCH_TICK: u64 = 50;

/// Compiled modules kept in memory. Eviction only costs a recompile, because
/// the `.wasm` itself stays on disk.
pub const MAX_CACHED_MODULES: usize = 32;

/// Ceilings for one request.
#[derive(Clone, Copy, Debug, PartialEq, Eq, Structural)]
pub struct Guards {
    /// Instructions the guest may execute before it is killed.
    pub fuel: u64,
    /// Ceiling on the guest's linear memory.
    pub memory_bytes: usize,
    /// Wall-clock ceiling in milliseconds, enforced even if the guest never
    /// burns fuel.
    pub wall_clock: u64,
}

impl Default for Guards {
    /// The ceilings of an ordinary request.
    fn default() -> (r: Guards)
        ensures
            r == (Guards { fuel: 200_000_000, memory_bytes: 67_108_864, wall_clock: 5_000 }),
    {
        Guards { fuel: 200_000_000, memory_bytes: 67_108_864, wall_clock: 5_000 }
    }
}

impl Guards {
    /// How many ticks the guest has until its deadline: enough to cover its
    /// wall-clock ceiling, no tick more than that takes, and at least one.
    pub fn ticks(&self) -> (r: u64)
        ensures
            r >= 1,
            r * EPOCH_TICK >= self.wall_clock,
            r > 1 ==> (r - 1) * EPOCH_TICK < self.wall_clock,
    {
        let whole: u64 = self.wall_clock / EPOCH_TICK;
        let ticks: u64 = if self.wall_clock % EPOCH_TICK > 0 {
            whole + 1
        } else {
            whole
        };
        if ticks == 0 {
            1
        } else {
            ticks
        }
    }
}

/// Which compiled modules are kept, and when each was last used.
pub struct ModuleCache {
    used: Table<u64>,
}

impl View for ModuleCache {
    type V = Map<Seq<char>, u64>;

    closed spec fn view(&self) -> Map<Seq<char>, u64> {
        self.used@
    }
}

impl ModuleCache {
    /// How many modules are kept never passes the ceiling.
    #[verifier::type_invariant]
    spec fn bounded(self) -> bool {
        self.used@.dom().finite() && self.used@.dom().len() <= MAX_CACHED_MODULES
    }

    /// An empty cache.
    pub fn new() -> (r: Self)
        ensures
            r@ == Map::<Seq<char>, u64>::empty(),
    {
        let used: Table<u64> = Table::new();
        assert(used@.dom() =~= Set::<Seq<char>>::empty());
        ModuleCache { used }
    }

    /// How many modules are kept.
    pub fn len(&self) -> (r: usize)
        ensures
            r == self@.dom().len(),
            r <= MAX_CACHED_MODULES,
    {
        proof {
            use_type_invariant(self);
        }
        self.used.len()
    }

    /// Whether a module is kept, which then counts as used now.
    pub fn touch(&mut self, key: &str, now: u64) -> (r: bool)
        ensures
            r == old(self)@.contains_key(key@),
            final(self)@ == if r {
                old(self)@.insert(key@, now)
            } else {
                old(self)@
            },
    {
        proof {
            use_type_invariant(&*self);
        }
        if !self.used.contains(key) {
            return false;
        }
        let mut used: Table<u64> = Table::new();
        assert(used@.dom() =~= Set::<Seq<char>>::empty());
        std::mem::swap(&mut self.used, &mut used);
        used.insert(key.to_owned(), now);
        proof {
            assert(used@.dom() =~= old(self)@.dom());
        }
        self.used = used;
        true
    }

    /// Keeps a module that was just compiled. Where the cache is full, the one
    /// that was used longest ago leaves first, and is handed back.
    pub fn keep(&mut self, key: &str, now: u64) -> (r: Option<String>)
        ensures
            match r {
                Some(gone) => {
                    &&& old(self)@.dom().len() == MAX_CACHED_MODULES
                    &&& old(self)@.contains_key(gone@)
                    &&& forall|k: Seq<char>| #[trigger]
                        old(self)@.contains_key(k) ==> old(self)@[gone@] <= old(self)@[k]
                    &&& final(self)@ == old(self)@.remove(gone@).insert(key@, now)
                },
                None => old(self)@.dom().len() < MAX_CACHED_MODULES && final(self)@ == old(
                    self,
                )@.insert(key@, now),
            },
    {
        proof {
            use_type_invariant(&*self);
        }
        let mut used: Table<u64> = Table::new();
        assert(used@.dom() =~= Set::<Seq<char>>::empty());
        std::mem::swap(&mut self.used, &mut used);
        let gone: Option<String> = if used.len() >= MAX_CACHED_MODULES {
            let coldest = coldest(&used);
            used.remove(coldest.as_str());
            Some(coldest)
        } else {
            None
        };
        used.insert(key.to_owned(), now);
        self.used = used;
        gone
    }
}

/// The name that was used longest ago.
fn coldest(used: &Table<u64>) -> (r: String)
    requires
        used.order().len() > 0,
    ensures
        used@.contains_key(r@),
        forall|k: Seq<char>| #[trigger] used@.contains_key(k) ==> used@[r@] <= used@[k],
{
    let names = used.names();
    let (first, time) = used.row(0);
    let mut best: String = first.clone();
    let mut least: u64 = *time;
    let mut i: usize = 1;
    while i < names.len()
        invariant
            1 <= i <= names.len(),
            names.len() == used.order().len(),
            used@.contains_key(best@),
            used@[best@] == least,
            used.order() == crate::text::texts(names@),
            forall|j: int| 0 <= j < i ==> least <= used@[#[trigger] used.order()[j]],
        decreases names.len() - i,
    {
        let (name, time) = used.row(i);
        if *time < least {
            best = name.clone();
            least = *time;
        }
        i += 1;
    }
    proof {
        assert forall|k: Seq<char>| #[trigger] used@.contains_key(k) implies least <= used@[k] by {
            assert(crate::text::texts(names@).contains(k));
            let j = crate::text::texts(names@).index_of(k);
            assert(used.order()[j] == k);
        }
    }
    best
}

} // verus!
