//! Native side of the scripting-object bridge: classes with declared
//! properties, per-object signals, the drawin overlay surface and the
//! registry of live drawin instances that the renderer walks each frame.

pub mod class;
pub mod drawable;
pub mod drawin;
pub mod drawin_class;
pub mod geometry;
pub mod object;
pub mod runtime;
pub mod signal;

pub use class::{Class, ClassBuilder, ClassError, ClassRegistry, ClassView, PropertyDescriptor, PropertyError, PropertyView};
pub use drawable::{Drawable, DrawableView, Surface};
pub use drawin::{Drawin, DrawinArgs, DrawinProperty, Value, DrawinState, DrawinView, GeometryArgs, Struts};
pub use drawin_class::{construct, frame_surfaces, init, read_property, write_property, AccessError};
pub use geometry::{Area, Origin, Size};
pub use object::{Handle, ObjectError, ObjectArena, ObjectArenaView, Slot};
pub use runtime::{refresh_awesome, Runtime, RuntimeView};
pub use signal::{first_failure, Connection, ConnectionView, SignalBus, SignalBusView};
