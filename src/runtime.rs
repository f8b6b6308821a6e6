use vstd::prelude::*;
use crate::class::{ClassRegistry, ClassView};
use crate::drawin::{fresh_drawin, Drawin, DrawinArgs, DrawinView};
use crate::drawable::Surface;
use crate::drawin::Value;
use crate::drawin_class::{
    construct, drawin_at, drawin_class, frame_surfaces, init, presented, read_property, write_property,
    AccessError,
};
use crate::object::{Handle, ObjectError, ObjectArena, ObjectArenaView, Slot};
use crate::signal::{SignalBus, SignalBusView};

verus! {

pub struct RuntimeView {
    pub classes: Seq<ClassView>,
    pub drawins: ObjectArenaView<Drawin>,
    pub global_signals: SignalBusView,
}

impl RuntimeView {
    /// Every drawin at hand is well formed, the store serves the drawin
    /// class, and the signal tables give out fresh handles.
    pub open spec fn well_formed(self) -> bool {
        &&& self.drawins.well_formed()
        &&& self.global_signals.well_formed()
        &&& self.drawins.class < self.classes.len()
        &&& self.classes[self.drawins.class as int] == drawin_class()
        &&& forall|i: int|
            0 <= i < self.drawins.slots.len() ==> (#[trigger] self.drawins.slots[i] matches Slot::Live(
                d,
            ) ==> d@.well_formed())
    }
}

/// The native side of one scripting runtime: its classes, its live drawins
/// and its process-wide signals. A restart of the runtime replaces it
/// wholesale.
pub struct Runtime {
    classes: ClassRegistry,
    drawins: ObjectArena<Drawin>,
    global_signals: SignalBus,
}

impl View for Runtime {
    type V = RuntimeView;

    closed spec fn view(&self) -> RuntimeView {
        RuntimeView {
            classes: self.classes@,
            drawins: self.drawins@,
            global_signals: self.global_signals@,
        }
    }
}

impl Runtime {
    /// A runtime with the drawin class registered, no drawin, and no global
    /// signal connected.
    pub fn new() -> (r: Runtime)
        ensures
            r@.well_formed(),
            r@.classes == seq![drawin_class()],
            r@.drawins.class == 0,
            r@.drawins.slots.len() == 0,
            r@.drawins.live.len() == 0,
            r@.global_signals.connections.len() == 0,
    {
        let mut classes = ClassRegistry::new();
        let id = match init(&mut classes) {
            Ok(id) => id,
            Err(_) => 0,
        };
        proof {
            assert(classes@ =~= seq![drawin_class()]);
        }
        Runtime { classes, drawins: ObjectArena::new(id), global_signals: SignalBus::new() }
    }

    pub fn classes(&self) -> (r: &ClassRegistry)
        ensures
            r@ == self@.classes,
    {
        &self.classes
    }

    pub fn drawins(&self) -> (r: &ObjectArena<Drawin>)
        ensures
            r@ == self@.drawins,
    {
        &self.drawins
    }

    /// The script's `drawin(args)`: constructs a drawin and registers it at
    /// the end of the live list.
    pub fn construct_drawin(&mut self, args: &DrawinArgs) -> (h: Handle)
        requires
            old(self)@.well_formed(),
            old(self)@.drawins.can_insert(),
        ensures
            final(self)@.well_formed(),
            final(self)@.classes == old(self)@.classes,
            final(self)@.global_signals == old(self)@.global_signals,
            h == (Handle {
                class: old(self)@.drawins.class,
                index: old(self)@.drawins.slots.len() as usize,
            }),
            exists|d: Drawin|
                #[trigger] d@ == fresh_drawin().initialize(*args) && final(self)@.drawins == old(
                    self,
                )@.drawins.inserted(d),
    {
        let h = construct(&mut self.drawins, args);
        proof {
            let d = choose|d: Drawin|
                #[trigger] d@ == fresh_drawin().initialize(*args) && d@.well_formed() && self@.drawins
                    == old(self)@.drawins.inserted(d);
            assert forall|i: int|
                0 <= i < self@.drawins.slots.len() implies (#[trigger] self@.drawins.slots[i] matches Slot::Live(
                x,
            ) ==> x@.well_formed()) by {
                if i < old(self)@.drawins.slots.len() {
                    assert(self@.drawins.slots[i] == old(self)@.drawins.slots[i]);
                } else {
                    assert(self@.drawins.slots[i] == Slot::Live(d));
                }
            }
        }
        h
    }

    /// Removes the drawin of `h` once its script object is collected: exactly
    /// its entry leaves the live list.
    pub fn collect_drawin(&mut self, h: Handle) -> (r: Result<(), ObjectError>)
        requires
            old(self)@.well_formed(),
        ensures
            final(self)@.well_formed(),
            final(self)@.classes == old(self)@.classes,
            final(self)@.global_signals == old(self)@.global_signals,
            match old(self)@.drawins.check(h) {
                Ok(Slot::Live(_)) => r is Ok && final(self)@.drawins == old(self)@.drawins.collected(
                    h.index,
                ),
                Ok(_) => r == Err::<(), ObjectError>(ObjectError::BorrowConflict) && final(self)@
                    == old(self)@,
                Err(e) => r == Err::<(), ObjectError>(e) && final(self)@ == old(self)@,
            },
    {
        let r = self.drawins.collect(h);
        proof {
            assert forall|i: int|
                0 <= i < self@.drawins.slots.len() implies (#[trigger] self@.drawins.slots[i] matches Slot::Live(
                x,
            ) ==> x@.well_formed()) by {
                if i != h.index as int {
                    assert(self@.drawins.slots[i] == old(self)@.drawins.slots[i]);
                }
            }
        }
        match r {
            Ok(_) => Ok(()),
            Err(e) => Err(e),
        }
    }

    /// Reads the property `name` of the drawin of `h`.
    pub fn read_drawin_property(&self, h: Handle, name: &String) -> (r: Result<Value, AccessError>)
        ensures
            match self@.drawins.check(h) {
                Ok(Slot::Live(d)) => match d@.read_named(name@) {
                    Ok(v) => r == Ok::<Value, AccessError>(v),
                    Err(e) => r == Err::<Value, AccessError>(AccessError::Property(e)),
                },
                Ok(_) => r == Err::<Value, AccessError>(AccessError::Object(ObjectError::BorrowConflict)),
                Err(e) => r == Err::<Value, AccessError>(AccessError::Object(e)),
            },
    {
        read_property(&self.drawins, h, name)
    }

    /// Writes `value` to the property `name` of the drawin of `h`.
    pub fn write_drawin_property(&mut self, h: Handle, name: &String, value: Value) -> (r: Result<
        (),
        AccessError,
    >)
        requires
            old(self)@.well_formed(),
        ensures
            final(self)@.well_formed(),
            final(self)@.classes == old(self)@.classes,
            final(self)@.global_signals == old(self)@.global_signals,
            final(self)@.drawins.class == old(self)@.drawins.class,
            final(self)@.drawins.live == old(self)@.drawins.live,
            final(self)@.drawins.slots.len() == old(self)@.drawins.slots.len(),
            forall|i: int|
                0 <= i < old(self)@.drawins.slots.len() && i != h.index ==> (#[trigger] final(self)@.drawins.slots[i])
                    == old(self)@.drawins.slots[i],
            match old(self)@.drawins.check(h) {
                Ok(Slot::Live(d)) => match d@.write_named(name@, value) {
                    Ok(v) => r is Ok && drawin_at(final(self)@.drawins, h) == Some(v),
                    Err(e) => r == Err::<(), AccessError>(AccessError::Property(e)) && drawin_at(
                        final(self)@.drawins,
                        h,
                    ) == Some(d@),
                },
                Ok(_) => r == Err::<(), AccessError>(AccessError::Object(ObjectError::BorrowConflict))
                    && final(self)@ == old(self)@,
                Err(e) => r == Err::<(), AccessError>(AccessError::Object(e)) && final(self)@ == old(
                    self,
                )@,
            },
    {
        let r = write_property(&mut self.drawins, h, name, value);
        proof {
            if old(self)@.drawins.check(h) is Ok && !(old(self)@.drawins.check(h) == Ok::<
                Slot<Drawin>,
                ObjectError,
            >(Slot::Borrowed)) {
                assert forall|i: int|
                    0 <= i < self@.drawins.slots.len() implies (#[trigger] self@.drawins.slots[i] matches Slot::Live(
                    x,
                ) ==> x@.well_formed()) by {
                    if i != h.index as int {
                        assert(self@.drawins.slots[i] == old(self)@.drawins.slots[i]);
                    }
                }
            }
        }
        r
    }

    /// Connects `callback` to the process-wide signal `name`.
    pub fn connect_global_signal(&mut self, name: String, callback: u64) -> (id: u64)
        requires
            old(self)@.well_formed(),
            old(self)@.global_signals.can_connect(),
        ensures
            id == old(self)@.global_signals.next_id,
            final(self)@ == (RuntimeView {
                global_signals: old(self)@.global_signals.connect(name@, callback),
                ..old(self)@
            }),
            final(self)@.well_formed(),
    {
        self.global_signals.connect(name, callback)
    }

    /// The callbacks to run for the process-wide signal `name`, in
    /// connection order.
    pub fn emit_global_signal(&self, name: &String) -> (r: Vec<u64>)
        ensures
            r@ == self@.global_signals.emit(name@),
    {
        self.global_signals.emit(name)
    }

    /// The surfaces that the renderer presents this frame, in the order of the
    /// live list.
    pub fn frame(&self) -> (r: Vec<Option<Surface>>)
        ensures
            r@.len() == self@.drawins.live.len(),
            forall|i: int|
                0 <= i < r@.len() ==> #[trigger] r@[i] == match drawin_at(
                    self@.drawins,
                    Handle { class: self@.drawins.class, index: self@.drawins.live[i] },
                ) {
                    Some(d) => presented(d),
                    None => None,
                },
    {
        frame_surfaces(&self.drawins)
    }
}

/// Runs after each turn of the event loop: when a restart of the scripting
/// runtime is pending, the native side is replaced wholesale (classes, live
/// drawins and global signals alike) and the request is cleared. Returns
/// whether it restarted.
pub fn refresh_awesome(runtime: &mut Runtime, restart_pending: &mut bool) -> (restarted: bool)
    ensures
        restarted == *old(restart_pending),
        !*final(restart_pending),
        restarted ==> final(runtime)@.well_formed() && final(runtime)@.classes == seq![drawin_class()]
            && final(runtime)@.drawins.live.len() == 0 && final(runtime)@.drawins.slots.len() == 0
            && final(runtime)@.global_signals.connections.len() == 0,
        !restarted ==> final(runtime)@ == old(runtime)@,
{
    if *restart_pending {
        *restart_pending = false;
        *runtime = Runtime::new();
        true
    } else {
        false
    }
}

} // verus!
