use vstd::prelude::*;

verus! {

/// One connection as the contracts see it.
pub struct ConnectionView {
    pub id: u64,
    pub name: Seq<char>,
    pub callback: u64,
}

/// The callbacks connected to `name`, in the order in which they were
/// connected.
pub open spec fn callbacks_for(conns: Seq<ConnectionView>, name: Seq<char>) -> Seq<u64>
    decreases conns.len(),
{
    if conns.len() == 0 {
        Seq::empty()
    } else {
        let before = callbacks_for(conns.drop_last(), name);
        if conns.last().name == name {
            before.push(conns.last().callback)
        } else {
            before
        }
    }
}

/// A connected callback: `callback` is the identity of the script function
/// (its registry reference), `id` the handle that `connect` gave out.
#[derive(Clone, Debug)]
pub struct Connection {
    pub id: u64,
    pub name: String,
    pub callback: u64,
}

impl View for Connection {
    type V = ConnectionView;

    open spec fn view(&self) -> ConnectionView {
        ConnectionView { id: self.id, name: self.name@, callback: self.callback }
    }
}

/// The bus as the contracts see it.
pub struct SignalBusView {
    pub next_id: u64,
    pub connections: Seq<ConnectionView>,
}

impl SignalBusView {
    /// Connection handles are given out in increasing order and never again.
    pub open spec fn well_formed(self) -> bool {
        &&& forall|i: int|
            0 <= i < self.connections.len() ==> #[trigger] self.connections[i].id < self.next_id
        &&& forall|i: int, j: int|
            0 <= i < j < self.connections.len() ==> #[trigger] self.connections[i].id
                < #[trigger] self.connections[j].id
    }

    pub open spec fn connect(self, name: Seq<char>, callback: u64) -> SignalBusView {
        SignalBusView {
            next_id: (self.next_id + 1) as u64,
            connections: self.connections.push(
                ConnectionView { id: self.next_id, name, callback },
            ),
        }
    }

    pub open spec fn emit(self, name: Seq<char>) -> Seq<u64> {
        callbacks_for(self.connections, name)
    }

    pub open spec fn can_connect(self) -> bool {
        self.next_id < u64::MAX
    }
}

/// Named callbacks of one object, or the process-wide ones.
#[derive(Clone, Debug)]
pub struct SignalBus {
    next_id: u64,
    connections: Vec<Connection>,
}

impl View for SignalBus {
    type V = SignalBusView;

    closed spec fn view(&self) -> SignalBusView {
        SignalBusView { next_id: self.next_id, connections: self.connections@.map_values(|c: Connection| c@) }
    }
}

impl SignalBus {
    pub fn new() -> (r: SignalBus)
        ensures
            r@.next_id == 0,
            r@.connections.len() == 0,
            r@.well_formed(),
    {
        SignalBus { next_id: 0, connections: Vec::new() }
    }

    /// Connects `callback` to `name`; it runs after those connected before.
    pub fn connect(&mut self, name: String, callback: u64) -> (id: u64)
        requires
            old(self)@.well_formed(),
            old(self)@.can_connect(),
        ensures
            id == old(self)@.next_id,
            final(self)@ == old(self)@.connect(name@, callback),
            final(self)@.well_formed(),
    {
        let id = self.next_id;
        let ghost name_view = name@;
        self.connections.push(Connection { id, name, callback });
        self.next_id = id + 1;
        proof {
            assert(self@.connections =~= old(self)@.connections.push(
                ConnectionView { id, name: name_view, callback },
            ));
        }
        id
    }

    /// The callbacks to run for `name`, in connection order.
    pub fn emit(&self, name: &String) -> (r: Vec<u64>)
        ensures
            r@ == self@.emit(name@),
    {
        let mut r: Vec<u64> = Vec::new();
        let mut i: usize = 0;
        while i < self.connections.len()
            invariant
                i <= self.connections@.len(),
                r@ == callbacks_for(self@.connections.take(i as int), name@),
            decreases self.connections@.len() - i,
        {
            let c = &self.connections[i];
            proof {
                assert(self@.connections.take(i as int + 1).drop_last() =~= self@.connections.take(i as int));
            }
            if c.name.eq(name) {
                r.push(c.callback);
            }
            i = i + 1;
        }
        proof {
            assert(self@.connections.take(i as int) =~= self@.connections);
        }
        r
    }

    /// Removes the connection with handle `id`; nothing happens when there is
    /// none (it was never made, or was removed before). Returns whether one was
    /// removed.
    pub fn disconnect(&mut self, id: u64) -> (removed: bool)
        requires
            old(self)@.well_formed(),
        ensures
            final(self)@.well_formed(),
            final(self)@.next_id == old(self)@.next_id,
            removed == exists|k: int|
                0 <= k < old(self)@.connections.len() && old(self)@.connections[k].id == id,
            removed ==> exists|k: int|
                0 <= k < old(self)@.connections.len() && old(self)@.connections[k].id == id
                    && final(self)@.connections == old(self)@.connections.remove(k),
            !removed ==> final(self)@ == old(self)@,
    {
        let mut i: usize = 0;
        while i < self.connections.len()
            invariant
                i <= self.connections@.len(),
                self@ == old(self)@,
                old(self)@.well_formed(),
                forall|j: int| 0 <= j < i ==> self@.connections[j].id != id,
            decreases self.connections@.len() - i,
        {
            if self.connections[i].id == id {
                self.remove_at(i);
                assert(old(self)@.connections[i as int].id == id);
                return true;
            }
            i = i + 1;
        }
        false
    }

    /// Removes the earliest connection of `callback` to `name`, the script's
    /// `disconnect_signal(name, fn)`. Returns whether one was removed.
    pub fn disconnect_callback(&mut self, name: &String, callback: u64) -> (removed: bool)
        requires
            old(self)@.well_formed(),
        ensures
            final(self)@.well_formed(),
            final(self)@.next_id == old(self)@.next_id,
            removed == exists|k: int|
                0 <= k < old(self)@.connections.len() && old(self)@.connections[k].name == name@
                    && old(self)@.connections[k].callback == callback,
            removed ==> exists|k: int|
                0 <= k < old(self)@.connections.len() && old(self)@.connections[k].name == name@
                    && old(self)@.connections[k].callback == callback && (forall|j: int|
                    0 <= j < k ==> !(old(self)@.connections[j].name == name@
                        && old(self)@.connections[j].callback == callback))
                    && final(self)@.connections == old(self)@.connections.remove(k),
            !removed ==> final(self)@ == old(self)@,
    {
        let mut i: usize = 0;
        while i < self.connections.len()
            invariant
                i <= self.connections@.len(),
                self@ == old(self)@,
                old(self)@.well_formed(),
                forall|j: int|
                    0 <= j < i ==> !(self@.connections[j].name == name@
                        && self@.connections[j].callback == callback),
            decreases self.connections@.len() - i,
        {
            if self.connections[i].callback == callback && self.connections[i].name.eq(name) {
                self.remove_at(i);
                assert(old(self)@.connections[i as int].name == name@);
                return true;
            }
            i = i + 1;
        }
        false
    }

    fn remove_at(&mut self, k: usize)
        requires
            old(self)@.well_formed(),
            k < old(self)@.connections.len(),
        ensures
            final(self)@.well_formed(),
            final(self)@.next_id == old(self)@.next_id,
            final(self)@.connections == old(self)@.connections.remove(k as int),
    {
        let ghost before = self.connections@;
        self.connections.remove(k);
        proof {
            assert(self@.connections =~= old(self)@.connections.remove(k as int));
            assert forall|i: int, j: int|
                0 <= i < j < self@.connections.len() implies #[trigger] self@.connections[i].id
                < #[trigger] self@.connections[j].id by {
                let i0 = if i < k { i } else { i + 1 };
                let j0 = if j < k { j } else { j + 1 };
                assert(old(self)@.connections[i0].id < old(self)@.connections[j0].id);
            }
            assert forall|i: int| 0 <= i < self@.connections.len() implies #[trigger] self@.connections[i].id
                < self@.next_id by {
                let i0 = if i < k { i } else { i + 1 };
                assert(old(self)@.connections[i0].id < old(self)@.next_id);
            }
        }
    }
}

/// The index of the first failed outcome, or `None` when every callback
/// succeeded.
pub fn first_failure(outcomes: &Vec<bool>) -> (r: Option<usize>)
    ensures
        r matches Some(i) ==> i < outcomes@.len() && !outcomes@[i as int] && forall|j: int|
            0 <= j < i ==> outcomes@[j],
        r is None ==> forall|j: int| 0 <= j < outcomes@.len() ==> outcomes@[j],
{
    let mut i: usize = 0;
    while i < outcomes.len()
        invariant
            i <= outcomes@.len(),
            forall|j: int| 0 <= j < i ==> outcomes@[j],
        decreases outcomes@.len() - i,
    {
        if !outcomes[i] {
            return Some(i);
        }
        i = i + 1;
    }
    None
}

/// Emitting a signal right after connecting a callback to it runs the
/// callbacks that ran before, then the new one, once.
pub proof fn lemma_emit_after_connect(bus: SignalBusView, name: Seq<char>, callback: u64)
    ensures
        bus.connect(name, callback).emit(name) == bus.emit(name).push(callback),
{
    assert(bus.connect(name, callback).connections.drop_last() =~= bus.connections);
}

/// Connecting to another signal does not change what `name` runs.
pub proof fn lemma_emit_other_signal(
    bus: SignalBusView,
    other: Seq<char>,
    callback: u64,
    name: Seq<char>,
)
    requires
        other != name,
    ensures
        bus.connect(other, callback).emit(name) == bus.emit(name),
{
    assert(bus.connect(other, callback).connections.drop_last() =~= bus.connections);
}

/// Two callbacks connected to one signal run in connection order on one emit,
/// after those connected before them.
pub proof fn lemma_emit_in_connection_order(
    bus: SignalBusView,
    name: Seq<char>,
    first: u64,
    second: u64,
)
    ensures
        bus.connect(name, first).connect(name, second).emit(name) == bus.emit(name) + seq![
            first,
            second,
        ],
{
    lemma_emit_after_connect(bus, name, first);
    lemma_emit_after_connect(bus.connect(name, first), name, second);
    assert(bus.emit(name).push(first).push(second) =~= bus.emit(name) + seq![first, second]);
}

} // verus!
