use vstd::prelude::*;
use crate::class::{
    register_outcome, ClassError, ClassRegistry, ClassView, PropertyDescriptor, PropertyError,
    PropertyView,
};
use crate::drawable::Surface;
use crate::drawin::{fresh_drawin, Drawin, DrawinArgs, DrawinView, Value};
use crate::object::{Handle, ObjectError, ObjectArena, ObjectArenaView, Slot};

verus! {

/// Why a script's access to a drawin through its handle failed.
#[derive(Clone, Copy, Debug, PartialEq, Eq, Structural)]
pub enum AccessError {
    Object(ObjectError),
    Property(PropertyError),
}

pub open spec fn drawin_property(name: Seq<char>) -> PropertyView {
    PropertyView { name, has_initializer: true, writable: true }
}

/// The drawin class: its writable properties in declaration order and its
/// script-visible methods.
pub open spec fn drawin_class() -> ClassView {
    ClassView {
        name: "drawin"@,
        properties: seq![
            drawin_property("x"@),
            drawin_property("y"@),
            drawin_property("width"@),
            drawin_property("height"@),
            drawin_property("visible"@),
        ],
        methods: seq!["connect_signal"@, "disconnect_signal"@, "__call"@],
    }
}

/// Declares and registers the drawin class; fails when a class of that name
/// is registered already.
pub fn init(registry: &mut ClassRegistry) -> (r: Result<usize, ClassError>)
    ensures
        match register_outcome(old(registry)@, drawin_class()) {
            Ok(v) => r == Ok::<usize, ClassError>(old(registry)@.len() as usize) && final(registry)@
                == v,
            Err(e) => r == Err::<usize, ClassError>(e) && final(registry)@ == old(registry)@,
        },
{
    proof {
        reveal_strlit("drawin");
        reveal_strlit("x");
        reveal_strlit("y");
        reveal_strlit("width");
        reveal_strlit("height");
        reveal_strlit("visible");
        assert("x"@[0] != "y"@[0]);
        assert("x"@ != "y"@);
        assert("x"@.len() != "width"@.len() && "y"@.len() != "width"@.len());
        assert("x"@.len() != "height"@.len() && "y"@.len() != "height"@.len()
            && "width"@.len() != "height"@.len());
        assert("x"@.len() != "visible"@.len() && "y"@.len() != "visible"@.len()
            && "width"@.len() != "visible"@.len() && "height"@.len() != "visible"@.len());
    }
    let b = match registry.define("drawin".to_owned()) {
        Ok(b) => b,
        Err(e) => return Err(e),
    };
    let b = match b.property(PropertyDescriptor::new("x".to_owned(), true, true)) {
        Ok(b) => b,
        Err(e) => return Err(e),
    };
    proof {
        assert(forall|i: int|
            0 <= i < b@.properties.len() ==> b@.properties[i].name != "y"@);
    }
    let b = match b.property(PropertyDescriptor::new("y".to_owned(), true, true)) {
        Ok(b) => b,
        Err(e) => return Err(e),
    };
    proof {
        assert(forall|i: int|
            0 <= i < b@.properties.len() ==> b@.properties[i].name != "width"@);
    }
    let b = match b.property(PropertyDescriptor::new("width".to_owned(), true, true)) {
        Ok(b) => b,
        Err(e) => return Err(e),
    };
    proof {
        assert(forall|i: int|
            0 <= i < b@.properties.len() ==> b@.properties[i].name != "height"@);
    }
    let b = match b.property(PropertyDescriptor::new("height".to_owned(), true, true)) {
        Ok(b) => b,
        Err(e) => return Err(e),
    };
    proof {
        assert(forall|i: int|
            0 <= i < b@.properties.len() ==> b@.properties[i].name != "visible"@);
    }
    let b = match b.property(PropertyDescriptor::new("visible".to_owned(), true, true)) {
        Ok(b) => b,
        Err(e) => return Err(e),
    };
    let b = b.method("connect_signal".to_owned());
    let b = b.method("disconnect_signal".to_owned());
    let b = b.method("__call".to_owned());
    let class = b.build();
    proof {
        assert(class@.properties =~= drawin_class().properties);
        assert(class@.methods =~= drawin_class().methods);
    }
    registry.register(class)
}

/// Constructs a drawin from `args` and registers it at the end of the live
/// list.
pub fn construct(store: &mut ObjectArena<Drawin>, args: &DrawinArgs) -> (h: Handle)
    requires
        old(store)@.well_formed(),
        old(store)@.can_insert(),
    ensures
        final(store)@.well_formed(),
        h == (Handle { class: old(store)@.class, index: old(store)@.slots.len() as usize }),
        exists|d: Drawin|
            #[trigger] d@ == fresh_drawin().initialize(*args) && d@.well_formed() && final(store)@
                == old(store)@.inserted(d),
{
    let d = Drawin::new(args);
    store.insert(d)
}

/// The drawin that the slot of `h` holds, when it is at hand.
pub open spec fn drawin_at(store: ObjectArenaView<Drawin>, h: Handle) -> Option<DrawinView> {
    match store.check(h) {
        Ok(Slot::Live(d)) => Some(d@),
        _ => None,
    }
}

/// Reads the property `name` of the drawin of `h`.
pub fn read_property(store: &ObjectArena<Drawin>, h: Handle, name: &String) -> (r: Result<
    Value,
    AccessError,
>)
    ensures
        match store@.check(h) {
            Ok(Slot::Live(d)) => match d@.read_named(name@) {
                Ok(v) => r == Ok::<Value, AccessError>(v),
                Err(e) => r == Err::<Value, AccessError>(AccessError::Property(e)),
            },
            Ok(_) => r == Err::<Value, AccessError>(AccessError::Object(ObjectError::BorrowConflict)),
            Err(e) => r == Err::<Value, AccessError>(AccessError::Object(e)),
        },
{
    match store.get(h) {
        Ok(d) => match d.get_property(name) {
            Ok(v) => Ok(v),
            Err(e) => Err(AccessError::Property(e)),
        },
        Err(e) => Err(AccessError::Object(e)),
    }
}

/// Writes `value` to the property `name` of the drawin of `h`. The drawin's
/// state is borrowed exclusively for the write and put back after it.
pub fn write_property(store: &mut ObjectArena<Drawin>, h: Handle, name: &String, value: Value) -> (r:
    Result<(), AccessError>)
    requires
        old(store)@.well_formed(),
        forall|i: int|
            0 <= i < old(store)@.slots.len() ==> (#[trigger] old(store)@.slots[i] matches Slot::Live(
                d,
            ) ==> d@.well_formed()),
    ensures
        final(store)@.well_formed(),
        match old(store)@.check(h) {
            Ok(Slot::Live(d)) => match d@.write_named(name@, value) {
                Ok(v) => r is Ok && exists|n: Drawin|
                    #[trigger] n@ == v && final(store)@ == (ObjectArenaView {
                        slots: old(store)@.slots.update(h.index as int, Slot::Live(n)),
                        ..old(store)@
                    }),
                Err(e) => r == Err::<(), AccessError>(AccessError::Property(e)) && exists|n: Drawin|
                    #[trigger] n@ == d@ && final(store)@ == (ObjectArenaView {
                        slots: old(store)@.slots.update(h.index as int, Slot::Live(n)),
                        ..old(store)@
                    }),
            },
            Ok(_) => r == Err::<(), AccessError>(AccessError::Object(ObjectError::BorrowConflict))
                && final(store)@ == old(store)@,
            Err(e) => r == Err::<(), AccessError>(AccessError::Object(e)) && final(store)@ == old(
                store,
            )@,
        },
{
    let mut d = match store.take(h) {
        Ok(d) => d,
        Err(e) => return Err(AccessError::Object(e)),
    };
    proof {
        assert(old(store)@.slots[h.index as int] matches Slot::Live(x) ==> x@.well_formed());
    }
    let r = d.set_property(name, value);
    let ghost after = d;
    store.restore(h, d);
    proof {
        assert(store@.slots =~= old(store)@.slots.update(h.index as int, Slot::Live(after)));
    }
    match r {
        Ok(()) => Ok(()),
        Err(e) => Err(AccessError::Property(e)),
    }
}

/// What the renderer presents of a drawin: its cached surface while it is
/// mapped and synchronized, nothing otherwise.
pub open spec fn presented(d: DrawinView) -> Option<Surface> {
    if d.visible && !d.geometry_dirty {
        d.surface
    } else {
        None
    }
}

/// One frame's worth of surfaces, in the order of the live list.
pub fn frame_surfaces(store: &ObjectArena<Drawin>) -> (r: Vec<Option<Surface>>)
    ensures
        r@.len() == store@.live.len(),
        forall|i: int|
            0 <= i < r@.len() ==> #[trigger] r@[i] == match drawin_at(
                store@,
                Handle { class: store@.class, index: store@.live[i] },
            ) {
                Some(d) => presented(d),
                None => None,
            },
{
    let handles = store.live_handles();
    let mut r: Vec<Option<Surface>> = Vec::new();
    let mut i: usize = 0;
    while i < handles.len()
        invariant
            i <= handles@.len(),
            handles@.len() == store@.live.len(),
            r@.len() == i,
            forall|j: int|
                0 <= j < handles@.len() ==> #[trigger] handles@[j] == (Handle {
                    class: store@.class,
                    index: store@.live[j],
                }),
            forall|j: int|
                0 <= j < i ==> #[trigger] r@[j] == match drawin_at(store@, handles@[j]) {
                    Some(d) => presented(d),
                    None => None,
                },
        decreases handles@.len() - i,
    {
        let s = match store.get(handles[i]) {
            Ok(d) => if d.get_visible() && !d.geometry_dirty() {
                d.surface()
            } else {
                None
            },
            Err(_) => None,
        };
        r.push(s);
        i = i + 1;
    }
    proof {
        assert forall|j: int| 0 <= j < r@.len() implies #[trigger] r@[j] == match drawin_at(
            store@,
            Handle { class: store@.class, index: store@.live[j] },
        ) {
            Some(d) => presented(d),
            None => None,
        } by {
            assert(handles@[j] == (Handle { class: store@.class, index: store@.live[j] }));
        }
    }
    r
}

} // verus!
