use vstd::prelude::*;

verus! {

/// An opaque reference to an instance: the class it was made by and its
/// slot. Slots are never reused, so a handle to a collected instance stays
/// detectably stale.
#[derive(Clone, Copy, Debug, PartialEq, Eq, Structural)]
pub struct Handle {
    pub class: usize,
    pub index: usize,
}

/// Why access to an instance was refused.
#[derive(Clone, Copy, Debug, PartialEq, Eq, Structural)]
pub enum ObjectError {
    /// The handle belongs to an instance of another class.
    TypeMismatch,
    /// The instance was collected, or never existed.
    StaleHandle,
    /// The instance's native state is already borrowed exclusively.
    BorrowConflict,
}

/// What a slot of the store holds.
#[derive(Clone, Copy, Debug, PartialEq, Eq, Structural)]
pub enum Slot<T> {
    /// Collected: its handle is stale.
    Free,
    /// Alive, with its native state at hand.
    Live(T),
    /// Alive, with its native state lent out by `take`.
    Borrowed,
}

/// The store as the contracts see it.
pub struct ObjectArenaView<T> {
    pub class: usize,
    pub slots: Seq<Slot<T>>,
    pub live: Seq<usize>,
}

impl<T> ObjectArenaView<T> {
    /// The live list holds each slot that is not free exactly once.
    pub open spec fn well_formed(self) -> bool {
        &&& self.live.no_duplicates()
        &&& forall|i: int|
            0 <= i < self.live.len() ==> #[trigger] self.live[i] < self.slots.len()
                && !(self.slots[self.live[i] as int] is Free)
        &&& forall|k: usize|
            k < self.slots.len() && !(#[trigger] self.slots[k as int] is Free) ==> self.live.contains(k)
    }

    /// The slot that `h` refers to, if `h` is a handle of this class.
    pub open spec fn check(self, h: Handle) -> Result<Slot<T>, ObjectError> {
        if h.class != self.class {
            Err(ObjectError::TypeMismatch)
        } else if h.index >= self.slots.len() || self.slots[h.index as int] is Free {
            Err(ObjectError::StaleHandle)
        } else {
            Ok(self.slots[h.index as int])
        }
    }

    pub open spec fn inserted(self, t: T) -> ObjectArenaView<T> {
        ObjectArenaView {
            class: self.class,
            slots: self.slots.push(Slot::Live(t)),
            live: self.live.push(self.slots.len() as usize),
        }
    }

    pub open spec fn collected(self, index: usize) -> ObjectArenaView<T> {
        ObjectArenaView {
            class: self.class,
            slots: self.slots.update(index as int, Slot::Free),
            live: self.live.remove_value(index),
        }
    }

    pub open spec fn can_insert(self) -> bool {
        self.slots.len() < usize::MAX
    }
}

/// The instances of one class: each exclusively owns its native state, and
/// the live list keeps them in the order in which they were made.
pub struct ObjectArena<T> {
    class: usize,
    slots: Vec<Slot<T>>,
    live: Vec<usize>,
}

impl<T> View for ObjectArena<T> {
    type V = ObjectArenaView<T>;

    closed spec fn view(&self) -> ObjectArenaView<T> {
        ObjectArenaView { class: self.class, slots: self.slots@, live: self.live@ }
    }
}

impl<T> ObjectArena<T> {
    /// An empty store for the instances of class `class`.
    pub fn new(class: usize) -> (r: ObjectArena<T>)
        ensures
            r@.class == class,
            r@.slots.len() == 0,
            r@.live.len() == 0,
            r@.well_formed(),
    {
        ObjectArena { class, slots: Vec::new(), live: Vec::new() }
    }

    /// Registers a new instance at the end of the live list.
    pub fn insert(&mut self, t: T) -> (h: Handle)
        requires
            old(self)@.well_formed(),
            old(self)@.can_insert(),
        ensures
            h == (Handle { class: old(self)@.class, index: old(self)@.slots.len() as usize }),
            final(self)@ == old(self)@.inserted(t),
            final(self)@.well_formed(),
    {
        let index = self.slots.len();
        self.slots.push(Slot::Live(t));
        self.live.push(index);
        proof {
            let o = old(self)@;
            assert forall|k: usize|
                k < self@.slots.len() && !(#[trigger] self@.slots[k as int] is Free) implies self@.live.contains(
                k,
            ) by {
                if k < o.slots.len() {
                    assert(o.slots[k as int] == self@.slots[k as int]);
                    let i = choose|i: int| 0 <= i < o.live.len() && o.live[i] == k;
                    assert(self@.live[i] == k);
                } else {
                    assert(self@.live[o.live.len() as int] == k);
                }
            }
            assert forall|i: int, j: int|
                0 <= i < self@.live.len() && 0 <= j < self@.live.len() && i != j implies self@.live[i]
                != self@.live[j] by {
                if i < o.live.len() && j < o.live.len() {
                } else if i < o.live.len() {
                    assert(o.live[i] < o.slots.len());
                } else if j < o.live.len() {
                    assert(o.live[j] < o.slots.len());
                }
            }
        }
        Handle { class: self.class, index }
    }

    /// Checks that `h` refers to a live instance of this store's class.
    pub fn cast(&self, h: Handle) -> (r: Result<(), ObjectError>)
        ensures
            r matches Ok(_) ==> self@.check(h) is Ok,
            r matches Err(e) ==> self@.check(h) == Err::<Slot<T>, ObjectError>(e),
    {
        if h.class != self.class {
            Err(ObjectError::TypeMismatch)
        } else if h.index >= self.slots.len() {
            Err(ObjectError::StaleHandle)
        } else {
            match &self.slots[h.index] {
                Slot::Free => Err(ObjectError::StaleHandle),
                _ => Ok(()),
            }
        }
    }

    /// Shared access to the native state of `h`.
    pub fn get(&self, h: Handle) -> (r: Result<&T, ObjectError>)
        ensures
            r matches Ok(t) ==> self@.check(h) == Ok::<Slot<T>, ObjectError>(Slot::Live(*t)),
            r matches Err(e) ==> (self@.check(h) == Err::<Slot<T>, ObjectError>(e)) || (e
                == ObjectError::BorrowConflict && self@.check(h) == Ok::<Slot<T>, ObjectError>(
                Slot::Borrowed,
            )),
    {
        if h.class != self.class {
            Err(ObjectError::TypeMismatch)
        } else if h.index >= self.slots.len() {
            Err(ObjectError::StaleHandle)
        } else {
            match &self.slots[h.index] {
                Slot::Free => Err(ObjectError::StaleHandle),
                Slot::Borrowed => Err(ObjectError::BorrowConflict),
                Slot::Live(t) => Ok(t),
            }
        }
    }

    /// Moves the slot of `index` out, leaving `replacement` in its place.
    fn swap_slot(&mut self, index: usize, replacement: Slot<T>) -> (prev: Slot<T>)
        requires
            index < old(self)@.slots.len(),
        ensures
            prev == old(self)@.slots[index as int],
            final(self)@ == (ObjectArenaView {
                slots: old(self)@.slots.update(index as int, replacement),
                ..old(self)@
            }),
    {
        self.slots.push(replacement);
        let prev = self.slots.swap_remove(index);
        proof {
            assert(self@.slots =~= old(self)@.slots.update(index as int, replacement));
        }
        prev
    }

    /// Exclusive access to the native state of `h`: the state is lent out
    /// until `restore` puts it back, and any access in between is refused.
    pub fn take(&mut self, h: Handle) -> (r: Result<T, ObjectError>)
        requires
            old(self)@.well_formed(),
        ensures
            final(self)@.well_formed(),
            match old(self)@.check(h) {
                Ok(Slot::Live(t)) => r == Ok::<T, ObjectError>(t) && final(self)@ == (ObjectArenaView {
                    slots: old(self)@.slots.update(h.index as int, Slot::Borrowed),
                    ..old(self)@
                }),
                Ok(_) => r == Err::<T, ObjectError>(ObjectError::BorrowConflict) && final(self)@
                    == old(self)@,
                Err(e) => r == Err::<T, ObjectError>(e) && final(self)@ == old(self)@,
            },
    {
        if let Err(e) = self.cast(h) {
            return Err(e);
        }
        match self.swap_slot(h.index, Slot::Borrowed) {
            Slot::Live(t) => {
                proof {
                    self.lemma_replace_keeps_well_formed(old(self)@, h.index, Slot::Borrowed);
                }
                Ok(t)
            },
            other => {
                self.swap_slot(h.index, other);
                proof {
                    assert(self@.slots =~= old(self)@.slots);
                }
                Err(ObjectError::BorrowConflict)
            },
        }
    }

    /// Puts back the native state that `take` lent out.
    pub fn restore(&mut self, h: Handle, t: T)
        requires
            old(self)@.well_formed(),
            old(self)@.check(h) == Ok::<Slot<T>, ObjectError>(Slot::Borrowed),
        ensures
            final(self)@.well_formed(),
            final(self)@ == (ObjectArenaView {
                slots: old(self)@.slots.update(h.index as int, Slot::Live(t)),
                ..old(self)@
            }),
    {
        self.swap_slot(h.index, Slot::Live(t));
        proof {
            self.lemma_replace_keeps_well_formed(old(self)@, h.index, Slot::Live(t));
        }
    }

    proof fn lemma_replace_keeps_well_formed(
        &self,
        before: ObjectArenaView<T>,
        index: usize,
        s: Slot<T>,
    )
        requires
            before.well_formed(),
            index < before.slots.len(),
            !(before.slots[index as int] is Free),
            !(s is Free),
            self@ == (ObjectArenaView { slots: before.slots.update(index as int, s), ..before }),
        ensures
            self@.well_formed(),
    {
        assert forall|k: usize|
            k < self@.slots.len() && !(#[trigger] self@.slots[k as int] is Free) implies self@.live.contains(
            k,
        ) by {
            if k != index {
                assert(before.slots[k as int] == self@.slots[k as int]);
            }
        }
    }

    /// Removes the instance of `h` when its script object is collected: its
    /// slot becomes free and exactly its entry leaves the live list. Returns
    /// its native state.
    pub fn collect(&mut self, h: Handle) -> (r: Result<T, ObjectError>)
        requires
            old(self)@.well_formed(),
        ensures
            final(self)@.well_formed(),
            match old(self)@.check(h) {
                Ok(Slot::Live(t)) => r == Ok::<T, ObjectError>(t) && final(self)@ == old(
                    self,
                )@.collected(h.index),
                Ok(_) => r == Err::<T, ObjectError>(ObjectError::BorrowConflict) && final(self)@
                    == old(self)@,
                Err(e) => r == Err::<T, ObjectError>(e) && final(self)@ == old(self)@,
            },
    {
        if let Err(e) = self.cast(h) {
            return Err(e);
        }
        match self.swap_slot(h.index, Slot::Free) {
            Slot::Live(t) => {
                self.unlist(h.index);
                Ok(t)
            },
            other => {
                self.swap_slot(h.index, other);
                proof {
                    assert(self@.slots =~= old(self)@.slots);
                }
                Err(ObjectError::BorrowConflict)
            },
        }
    }

    /// Takes `index`, whose slot was just freed, out of the live list.
    fn unlist(&mut self, index: usize)
        requires
            old(self)@.live.no_duplicates(),
            old(self)@.live.contains(index),
            index < old(self)@.slots.len(),
            old(self)@.slots[index as int] is Free,
            forall|i: int|
                0 <= i < old(self)@.live.len() && old(self)@.live[i] != index ==> #[trigger] old(
                    self,
                )@.live[i] < old(self)@.slots.len() && !(old(self)@.slots[old(self)@.live[i] as int] is Free),
            forall|k: usize|
                k < old(self)@.slots.len() && !(#[trigger] old(self)@.slots[k as int] is Free)
                    ==> old(self)@.live.contains(k),
        ensures
            final(self)@ == (ObjectArenaView { live: old(self)@.live.remove_value(index), ..old(self)@ }),
            final(self)@.well_formed(),
    {
        let mut pos: usize = 0;
        while pos < self.live.len() && self.live[pos] != index
            invariant
                self@ == old(self)@,
                pos <= self@.live.len(),
                forall|j: int| 0 <= j < pos ==> self@.live[j] != index,
            decreases self@.live.len() - pos,
        {
            pos = pos + 1;
        }
        let ghost o = old(self)@.live;
        proof {
            if pos >= self@.live.len() {
                let i = choose|i: int| 0 <= i < o.len() && o[i] == index;
                assert(false);
            }
            o.index_of_first_ensures(index);
            let f = o.index_of_first(index).unwrap();
            assert(f == pos as int);
        }
        self.live.remove(pos);
        proof {
            let n = self@.live;
            assert(n =~= o.remove_value(index));
            assert forall|i: int, j: int|
                0 <= i < n.len() && 0 <= j < n.len() && i != j implies n[i] != n[j] by {
                let i0 = if i < pos { i } else { i + 1 };
                let j0 = if j < pos { j } else { j + 1 };
                assert(o[i0] == n[i] && o[j0] == n[j]);
            }
            assert forall|i: int| 0 <= i < n.len() implies #[trigger] n[i] < self@.slots.len()
                && !(self@.slots[n[i] as int] is Free) by {
                let i0 = if i < pos { i } else { i + 1 };
                assert(o[i0] == n[i]);
                assert(o[i0] != index);
            }
            assert forall|k: usize|
                k < self@.slots.len() && !(#[trigger] self@.slots[k as int] is Free) implies n.contains(
                k,
            ) by {
                let i = choose|i: int| 0 <= i < o.len() && o[i] == k;
                assert(o[pos as int] == index);
                if i == pos {
                    assert(k == index);
                }
                let i1 = if i < pos { i } else { i - 1 };
                assert(n[i1] == k);
            }
        }
    }

    /// The number of live instances.
    pub fn live_count(&self) -> (n: usize)
        ensures
            n == self@.live.len(),
    {
        self.live.len()
    }

    /// Handles of the live instances, oldest first: the order in which the
    /// renderer visits them.
    pub fn live_handles(&self) -> (r: Vec<Handle>)
        ensures
            r@.len() == self@.live.len(),
            forall|i: int|
                0 <= i < r@.len() ==> #[trigger] r@[i] == (Handle { class: self@.class, index: self@.live[i] }),
    {
        let mut r: Vec<Handle> = Vec::new();
        let mut i: usize = 0;
        while i < self.live.len()
            invariant
                i <= self@.live.len(),
                r@.len() == i,
                forall|j: int|
                    0 <= j < i ==> #[trigger] r@[j] == (Handle { class: self@.class, index: self@.live[j] }),
            decreases self@.live.len() - i,
        {
            r.push(Handle { class: self.class, index: self.live[i] });
            i = i + 1;
        }
        r
    }
}

/// The store after registering `items` one by one, in order.
pub open spec fn inserted_all<T>(store: ObjectArenaView<T>, items: Seq<T>) -> ObjectArenaView<T>
    decreases items.len(),
{
    if items.len() == 0 {
        store
    } else {
        inserted_all(store, items.drop_last()).inserted(items.last())
    }
}

/// Registering N instances adds exactly N entries to the live list.
pub proof fn lemma_inserted_all_live_count<T>(store: ObjectArenaView<T>, items: Seq<T>)
    ensures
        inserted_all(store, items).live.len() == store.live.len() + items.len(),
    decreases items.len(),
{
    if items.len() > 0 {
        lemma_inserted_all_live_count(store, items.drop_last());
    }
}

/// Collecting a live instance removes exactly one entry from the live list:
/// its own; every other entry stays.
pub proof fn lemma_collect_removes_one_entry<T>(store: ObjectArenaView<T>, h: Handle)
    requires
        store.well_formed(),
        store.check(h) is Ok,
        !(store.check(h) == Ok::<Slot<T>, ObjectError>(Slot::Borrowed)),
    ensures
        store.collected(h.index).live.len() == store.live.len() - 1,
        !store.collected(h.index).live.contains(h.index),
        forall|k: usize| k != h.index ==> (#[trigger] store.collected(h.index).live.contains(k) <==> store.live.contains(k)),
{
    let o = store.live;
    let idx = h.index;
    assert(o.contains(idx));
    o.index_of_first_ensures(idx);
    let pos = o.index_of_first(idx).unwrap();
    let n = store.collected(idx).live;
    assert(n == o.remove(pos));
    assert forall|k: usize| k != idx implies (#[trigger] n.contains(k) <==> o.contains(k)) by {
        if o.contains(k) {
            let i = choose|i: int| 0 <= i < o.len() && o[i] == k;
            let i1 = if i < pos { i } else { i - 1 };
            assert(n[i1] == k);
        }
        if n.contains(k) {
            let i = choose|i: int| 0 <= i < n.len() && n[i] == k;
            let i0 = if i < pos { i } else { i + 1 };
            assert(o[i0] == k);
        }
    }
    if n.contains(idx) {
        let i = choose|i: int| 0 <= i < n.len() && n[i] == idx;
        let i0 = if i < pos { i } else { i + 1 };
        assert(o[i0] == idx && o[pos] == idx && i0 != pos);
    }
}

} // verus!
