use vstd::prelude::*;

verus! {

/// Why a class could not be declared.
#[derive(Clone, Copy, Debug, PartialEq, Eq, Structural)]
pub enum ClassError {
    /// A class of that name is already registered.
    DuplicateClass,
    /// The class already declares a property of that name.
    DuplicateProperty,
}

/// Why a property access was refused.
#[derive(Clone, Copy, Debug, PartialEq, Eq, Structural)]
pub enum PropertyError {
    /// The class declares no property of that name.
    UnknownProperty,
    /// The property has no writer.
    ReadOnly,
    /// The value does not have the shape that the property holds.
    TypeMismatch,
}

pub struct PropertyView {
    pub name: Seq<char>,
    pub has_initializer: bool,
    pub writable: bool,
}

/// One named field of a class: whether it can be set by the constructor's
/// argument table, and whether it can be written afterwards. Every property
/// can be read.
#[derive(Clone, Debug)]
pub struct PropertyDescriptor {
    pub name: String,
    pub has_initializer: bool,
    pub writable: bool,
}

impl View for PropertyDescriptor {
    type V = PropertyView;

    open spec fn view(&self) -> PropertyView {
        PropertyView {
            name: self.name@,
            has_initializer: self.has_initializer,
            writable: self.writable,
        }
    }
}

impl PropertyDescriptor {
    pub fn new(name: String, has_initializer: bool, writable: bool) -> (r: PropertyDescriptor)
        ensures
            r@ == (PropertyView { name: name@, has_initializer, writable }),
    {
        PropertyDescriptor { name, has_initializer, writable }
    }
}

pub struct ClassView {
    pub name: Seq<char>,
    pub properties: Seq<PropertyView>,
    pub methods: Seq<Seq<char>>,
}

/// Whether some property of `props` is called `name`.
pub open spec fn declares(props: Seq<PropertyView>, name: Seq<char>) -> bool {
    exists|i: int| 0 <= i < props.len() && #[trigger] props[i].name == name
}

/// Property names are unique within a class.
pub open spec fn names_unique(props: Seq<PropertyView>) -> bool {
    forall|i: int, j: int|
        0 <= i < props.len() && 0 <= j < props.len() && i != j ==> #[trigger] props[i].name
            != #[trigger] props[j].name
}

impl ClassView {
    pub open spec fn well_formed(self) -> bool {
        names_unique(self.properties)
    }

    /// The property that a read of `name` dispatches to.
    pub open spec fn read_target(self, name: Seq<char>) -> Result<int, PropertyError> {
        if declares(self.properties, name) {
            Ok(choose|i: int| 0 <= i < self.properties.len() && #[trigger] self.properties[i].name == name)
        } else {
            Err(PropertyError::UnknownProperty)
        }
    }

    /// The property that a write of `name` dispatches to.
    pub open spec fn write_target(self, name: Seq<char>) -> Result<int, PropertyError> {
        match self.read_target(name) {
            Ok(i) => if self.properties[i].writable {
                Ok(i)
            } else {
                Err(PropertyError::ReadOnly)
            },
            Err(e) => Err(e),
        }
    }
}

/// A class being declared; `build` ends the declaration.
pub struct ClassBuilder {
    name: String,
    properties: Vec<PropertyDescriptor>,
    methods: Vec<String>,
}

/// A named bundle of property descriptors and methods.
pub struct Class {
    name: String,
    properties: Vec<PropertyDescriptor>,
    methods: Vec<String>,
}

impl View for ClassBuilder {
    type V = ClassView;

    closed spec fn view(&self) -> ClassView {
        ClassView {
            name: self.name@,
            properties: self.properties@.map_values(|p: PropertyDescriptor| p@),
            methods: self.methods@.map_values(|m: String| m@),
        }
    }
}

impl View for Class {
    type V = ClassView;

    closed spec fn view(&self) -> ClassView {
        ClassView {
            name: self.name@,
            properties: self.properties@.map_values(|p: PropertyDescriptor| p@),
            methods: self.methods@.map_values(|m: String| m@),
        }
    }
}

fn find_property(props: &Vec<PropertyDescriptor>, name: &String) -> (r: Option<usize>)
    ensures
        r matches Some(i) ==> i < props@.len() && props@[i as int].name@ == name@,
        r is None ==> !declares(props@.map_values(|p: PropertyDescriptor| p@), name@),
{
    let mut i: usize = 0;
    while i < props.len()
        invariant
            i <= props@.len(),
            forall|j: int| 0 <= j < i ==> props@[j].name@ != name@,
        decreases props@.len() - i,
    {
        if props[i].name.eq(name) {
            return Some(i);
        }
        i = i + 1;
    }
    proof {
        let v = props@.map_values(|p: PropertyDescriptor| p@);
        assert forall|j: int| 0 <= j < v.len() implies #[trigger] v[j].name != name@ by {
            assert(v[j] == props@[j]@);
        }
    }
    None
}

impl ClassBuilder {
    /// Adds a property; its name must be new to the class.
    pub fn property(self, descriptor: PropertyDescriptor) -> (r: Result<ClassBuilder, ClassError>)
        requires
            self@.well_formed(),
        ensures
            declares(self@.properties, descriptor@.name) <==> r is Err,
            r matches Err(e) ==> e == ClassError::DuplicateProperty,
            r matches Ok(b) ==> b@ == (ClassView {
                properties: self@.properties.push(descriptor@),
                ..self@
            }) && b@.well_formed(),
    {
        let mut b = self;
        match find_property(&b.properties, &descriptor.name) {
            Some(i) => {
                proof {
                    assert(b@.properties[i as int] == b.properties@[i as int]@);
                    assert(b@.properties[i as int].name == descriptor@.name);
                }
                Err(ClassError::DuplicateProperty)
            },
            None => {
                let ghost before = b@;
                let ghost d = descriptor@;
                b.properties.push(descriptor);
                proof {
                    assert(b@.properties =~= before.properties.push(d));
                    assert(b@.methods =~= before.methods);
                    assert forall|i: int, j: int|
                        0 <= i < b@.properties.len() && 0 <= j < b@.properties.len() && i != j
                            implies #[trigger] b@.properties[i].name != #[trigger] b@.properties[j].name by {
                        if i == before.properties.len() as int {
                            assert(before.properties[j].name != d.name);
                        } else if j == before.properties.len() as int {
                            assert(before.properties[i].name != d.name);
                        }
                    }
                }
                Ok(b)
            },
        }
    }

    /// Adds a script-visible method.
    pub fn method(self, name: String) -> (r: ClassBuilder)
        ensures
            r@ == (ClassView { methods: self@.methods.push(name@), ..self@ }),
    {
        let mut b = self;
        let ghost before = b@;
        let ghost n = name@;
        b.methods.push(name);
        proof {
            assert(b@.methods =~= before.methods.push(n));
            assert(b@.properties =~= before.properties);
        }
        b
    }

    pub fn build(self) -> (r: Class)
        ensures
            r@ == self@,
    {
        Class { name: self.name, properties: self.properties, methods: self.methods }
    }
}

impl Class {
    /// The index of the property that a read of `name` dispatches to.
    pub fn read_target(&self, name: &String) -> (r: Result<usize, PropertyError>)
        requires
            self@.well_formed(),
        ensures
            r matches Ok(i) ==> self@.read_target(name@) == Ok::<int, PropertyError>(i as int),
            r matches Err(e) ==> self@.read_target(name@) == Err::<int, PropertyError>(e),
    {
        match find_property(&self.properties, name) {
            Some(i) => {
                proof {
                    assert(self@.properties[i as int] == self.properties@[i as int]@);
                    assert(self@.properties[i as int].name == name@);
                    assert(declares(self@.properties, name@));
                    let c = choose|c: int|
                        0 <= c < self@.properties.len() && #[trigger] self@.properties[c].name == name@;
                    assert(c == i as int);
                }
                Ok(i)
            },
            None => Err(PropertyError::UnknownProperty),
        }
    }

    /// The index of the property that a write of `name` dispatches to.
    pub fn write_target(&self, name: &String) -> (r: Result<usize, PropertyError>)
        requires
            self@.well_formed(),
        ensures
            r matches Ok(i) ==> self@.write_target(name@) == Ok::<int, PropertyError>(i as int),
            r matches Err(e) ==> self@.write_target(name@) == Err::<int, PropertyError>(e),
    {
        let i = self.read_target(name)?;
        proof {
            assert(self@.properties[i as int] == self.properties@[i as int]@);
        }
        if self.properties[i].writable {
            Ok(i)
        } else {
            Err(PropertyError::ReadOnly)
        }
    }

    pub fn name(&self) -> (r: &String)
        ensures
            r@ == self@.name,
    {
        &self.name
    }

    pub fn property_count(&self) -> (n: usize)
        ensures
            n == self@.properties.len(),
    {
        self.properties.len()
    }
}

/// Whether some class of `classes` is called `name`.
pub open spec fn has_class(classes: Seq<ClassView>, name: Seq<char>) -> bool {
    exists|i: int| 0 <= i < classes.len() && #[trigger] classes[i].name == name
}

/// What registering `class` does to the registered classes: it is added at
/// the end, or refused when its name is taken.
pub open spec fn register_outcome(classes: Seq<ClassView>, class: ClassView) -> Result<
    Seq<ClassView>,
    ClassError,
> {
    if has_class(classes, class.name) {
        Err(ClassError::DuplicateClass)
    } else {
        Ok(classes.push(class))
    }
}

/// The classes of one scripting runtime; a name is registered at most once.
pub struct ClassRegistry {
    classes: Vec<Class>,
}

impl View for ClassRegistry {
    type V = Seq<ClassView>;

    closed spec fn view(&self) -> Seq<ClassView> {
        self.classes@.map_values(|c: Class| c@)
    }
}

impl ClassRegistry {
    pub fn new() -> (r: ClassRegistry)
        ensures
            r@.len() == 0,
    {
        ClassRegistry { classes: Vec::new() }
    }

    fn find_class(&self, name: &String) -> (r: Option<usize>)
        ensures
            r matches Some(i) ==> i < self@.len() && self@[i as int].name == name@,
            r is None ==> !has_class(self@, name@),
    {
        let mut i: usize = 0;
        while i < self.classes.len()
            invariant
                i <= self@.len(),
                forall|j: int| 0 <= j < i ==> self@[j].name != name@,
            decreases self@.len() - i,
        {
            proof {
                assert(self@[i as int] == self.classes@[i as int]@);
            }
            if self.classes[i].name.eq(name) {
                return Some(i);
            }
            i = i + 1;
        }
        None
    }

    /// Starts declaring a class called `name`; fails when that name is taken.
    pub fn define(&self, name: String) -> (r: Result<ClassBuilder, ClassError>)
        ensures
            has_class(self@, name@) <==> r is Err,
            r matches Err(e) ==> e == ClassError::DuplicateClass,
            r matches Ok(b) ==> b@ == (ClassView {
                name: name@,
                properties: Seq::empty(),
                methods: Seq::empty(),
            }) && b@.well_formed(),
    {
        if let Some(i) = self.find_class(&name) {
            return Err(ClassError::DuplicateClass);
        }
        let b = ClassBuilder { name, properties: Vec::new(), methods: Vec::new() };
        proof {
            assert(b@.properties =~= Seq::<PropertyView>::empty());
            assert(b@.methods =~= Seq::<Seq<char>>::empty());
        }
        Ok(b)
    }

    /// Registers `class` and returns its id; fails when its name is taken.
    pub fn register(&mut self, class: Class) -> (r: Result<usize, ClassError>)
        ensures
            match register_outcome(old(self)@, class@) {
                Ok(v) => r == Ok::<usize, ClassError>(old(self)@.len() as usize) && final(self)@ == v,
                Err(e) => r == Err::<usize, ClassError>(e) && final(self)@ == old(self)@,
            },
    {
        if let Some(i) = self.find_class(&class.name) {
            return Err(ClassError::DuplicateClass);
        }
        let id = self.classes.len();
        let ghost c = class@;
        self.classes.push(class);
        proof {
            assert(self@ =~= old(self)@.push(c));
        }
        Ok(id)
    }

    /// The class registered under `id`.
    pub fn get(&self, id: usize) -> (r: Option<&Class>)
        ensures
            r matches Some(c) ==> id < self@.len() && c@ == self@[id as int],
            r is None <==> id >= self@.len(),
    {
        if id < self.classes.len() {
            Some(&self.classes[id])
        } else {
            None
        }
    }

    /// The number of registered classes.
    pub fn len(&self) -> (n: usize)
        ensures
            n == self@.len(),
    {
        self.classes.len()
    }
}

/// Registering a class succeeds at most once per name: once a class is
/// registered, registering any class of the same name is refused.
pub proof fn lemma_register_twice_fails(
    classes: Seq<ClassView>,
    first: ClassView,
    second: ClassView,
)
    requires
        first.name == second.name,
    ensures
        register_outcome(classes, first) matches Ok(after) ==> register_outcome(after, second)
            == Err::<Seq<ClassView>, ClassError>(ClassError::DuplicateClass),
        register_outcome(classes, first) is Err ==> register_outcome(classes, second)
            == Err::<Seq<ClassView>, ClassError>(ClassError::DuplicateClass),
{
    let after = classes.push(first);
    assert(after[classes.len() as int].name == second.name);
}

} // verus!
