//! The heap: an arena of arrays that only grows.

use crate::error::MistError;
use crate::value::MistValue;
use vstd::prelude::*;

verus! {

/// One heap object: its own index, its class, and its cells.
#[derive(Clone, Debug, PartialEq, Eq)]
pub struct Object {
    pub id: usize,
    pub class: usize,
    pub mem: Vec<MistValue>,
}

impl Object {
    /// The object that stands at index 0, for the null reference.
    pub fn null() -> (o: Object)
        ensures
            o.id == 0,
            o.class == 0,
            o.mem@ == Seq::<MistValue>::empty(),
    {
        Object { id: 0, class: 0, mem: Vec::new() }
    }
}

/// The objects allocated so far, each found at the index that is its
/// identifier. Nothing is ever reclaimed.
#[derive(Debug)]
pub struct Heap {
    memory: Vec<Object>,
}

/// The code by which `newarray` names the element kind boolean.
pub const T_BOOLEAN: u8 = 4;

/// The code of the element kind char.
pub const T_CHAR: u8 = 5;

/// The code of the element kind float.
pub const T_FLOAT: u8 = 6;

/// The code of the element kind double.
pub const T_DOUBLE: u8 = 7;

/// The code of the element kind byte.
pub const T_BYTE: u8 = 8;

/// The code of the element kind short.
pub const T_SHORT: u8 = 9;

/// The code of the element kind int.
pub const T_INT: u8 = 10;

/// The code of the element kind long.
pub const T_LONG: u8 = 11;

/// The cell that every element of a new array of kind `atype` holds: the zero
/// of that kind, and the null reference for a code that names no primitive
/// kind.
pub open spec fn element_default(atype: u8) -> MistValue {
    if atype == T_BOOLEAN {
        MistValue::Boolean(false)
    } else if atype == T_CHAR {
        MistValue::Char(0)
    } else if atype == T_FLOAT {
        MistValue::Float(0)
    } else if atype == T_DOUBLE {
        MistValue::Double(0)
    } else if atype == T_BYTE {
        MistValue::Byte(0)
    } else if atype == T_SHORT {
        MistValue::Short(0)
    } else if atype == T_INT {
        MistValue::Integer(0)
    } else if atype == T_LONG {
        MistValue::Long(0)
    } else {
        MistValue::ObjectReference(0)
    }
}

/// The cells of a new array of `count` elements of kind `atype`;
/// `ArrayBounds` for a negative count.
pub open spec fn allocated(atype: u8, count: i32) -> Result<Seq<MistValue>, MistError> {
    if count < 0 {
        Err(MistError::ArrayBounds)
    } else {
        Ok(Seq::new(count as nat, |i: int| element_default(atype)))
    }
}

/// The element `index` of the array `arrayref` in the heap `objects`:
/// `NullReference` for the identifier 0, `InvalidReference` for one that
/// nothing was allocated under, `ArrayBounds` for an index outside the
/// array.
pub open spec fn element(objects: Seq<Seq<MistValue>>, arrayref: int, index: int) -> Result<
    MistValue,
    MistError,
> {
    if arrayref == 0 {
        Err(MistError::NullReference)
    } else if !(0 < arrayref < objects.len()) {
        Err(MistError::InvalidReference)
    } else if !(0 <= index < objects[arrayref].len()) {
        Err(MistError::ArrayBounds)
    } else {
        Ok(objects[arrayref][index])
    }
}

/// The heap `objects` after `value` has been written to the element `index`
/// of the array `arrayref`; the errors are those of [`element`].
pub open spec fn element_written(
    objects: Seq<Seq<MistValue>>,
    arrayref: int,
    index: int,
    value: MistValue,
) -> Result<Seq<Seq<MistValue>>, MistError> {
    match element(objects, arrayref, index) {
        Ok(_) => Ok(objects.update(arrayref, objects[arrayref].update(index, value))),
        Err(e) => Err(e),
    }
}

fn default_cell(atype: u8) -> (v: MistValue)
    ensures
        v == element_default(atype),
{
    if atype == T_BOOLEAN {
        MistValue::Boolean(false)
    } else if atype == T_CHAR {
        MistValue::Char(0)
    } else if atype == T_FLOAT {
        MistValue::Float(0)
    } else if atype == T_DOUBLE {
        MistValue::Double(0)
    } else if atype == T_BYTE {
        MistValue::Byte(0)
    } else if atype == T_SHORT {
        MistValue::Short(0)
    } else if atype == T_INT {
        MistValue::Integer(0)
    } else if atype == T_LONG {
        MistValue::Long(0)
    } else {
        MistValue::ObjectReference(0)
    }
}

impl View for Heap {
    type V = Seq<Seq<MistValue>>;

    /// The cells of every object, by identifier; the first is the null
    /// object, which has none.
    closed spec fn view(&self) -> Seq<Seq<MistValue>> {
        Seq::new(self.memory@.len(), |i: int| self.memory@[i].mem@)
    }
}

impl Heap {
    /// The heap's invariant: the null object stands at index 0, and every
    /// object carries its own index as identifier.
    pub closed spec fn wf(&self) -> bool {
        &&& self.memory@.len() >= 1
        &&& self.memory@[0].mem@.len() == 0
        &&& forall|i: int| 0 <= i < self.memory@.len() ==> (#[trigger] self.memory@[i]).id == i
    }

    /// The number of arrays allocated so far.
    pub open spec fn array_count(&self) -> int {
        self@.len() - 1
    }

    /// A well-formed heap holds the null object, which has no cells.
    pub proof fn lemma_wf(&self)
        requires
            self.wf(),
        ensures
            self@.len() >= 1,
            self@[0] == Seq::<MistValue>::empty(),
            self.array_count() >= 0,
    {
        assert(self@[0] =~= Seq::<MistValue>::empty());
    }

    /// A heap that holds the null object and nothing else.
    pub fn new() -> (heap: Heap)
        ensures
            heap.wf(),
            heap@ == seq![Seq::<MistValue>::empty()],
            heap.array_count() == 0,
    {
        let mut memory: Vec<Object> = Vec::new();
        memory.push(Object::null());
        let heap = Heap { memory };
        assert(heap@ =~= seq![Seq::<MistValue>::empty()]);
        heap
    }

    /// Whether the heap's invariant holds; it does of every heap that `new`
    /// gave, whatever was done with it since.
    pub fn is_well_formed(&self) -> (r: bool)
        ensures
            r == self.wf(),
    {
        if self.memory.len() < 1 || self.memory[0].mem.len() != 0 {
            return false;
        }
        let mut i: usize = 0;
        while i < self.memory.len()
            invariant
                i <= self.memory@.len(),
                forall|k: int| 0 <= k < i ==> (#[trigger] self.memory@[k]).id == k,
            decreases self.memory@.len() - i,
        {
            if self.memory[i].id != i {
                return false;
            }
            i += 1;
        }
        true
    }

    /// The number of objects, the null object included.
    pub fn len(&self) -> (n: usize)
        ensures
            n == self@.len(),
    {
        self.memory.len()
    }

    /// Allocates an array of `count` elements of kind `atype`, each the
    /// default of its kind, and returns its identifier: the number of arrays
    /// allocated before, plus one. `ArrayBounds` for a negative count, and
    /// then nothing changes.
    pub fn newarray(&mut self, atype: u8, count: i32) -> (r: Result<usize, MistError>)
        requires
            old(self).wf(),
        ensures
            final(self).wf(),
            match allocated(atype, count) {
                Ok(cells) => r == Ok::<usize, MistError>((old(self).array_count() + 1) as usize)
                    && old(self).array_count() + 1 >= 1 && final(self)@ == old(self)@.push(cells),
                Err(e) => r == Err::<usize, MistError>(e) && final(self)@ == old(self)@,
            },
    {
        if count < 0 {
            return Err(MistError::ArrayBounds);
        }
        let id = self.memory.len();
        let cell = default_cell(atype);
        let mut mem: Vec<MistValue> = Vec::new();
        let mut i: i32 = 0;
        while i < count
            invariant
                0 <= i <= count,
                cell == element_default(atype),
                mem@ == Seq::new(i as nat, |k: int| element_default(atype)),
            decreases count - i,
        {
            mem.push(cell);
            i += 1;
        }
        self.memory.push(Object { id, class: 0, mem });
        assert(self@ =~= old(self)@.push(allocated(atype, count).unwrap()));
        Ok(id)
    }

    /// A copy of the element `index` of the array `arrayref`.
    pub fn load(&self, arrayref: usize, index: i32) -> (r: Result<MistValue, MistError>)
        ensures
            r == element(self@, arrayref as int, index as int),
    {
        if arrayref == 0 {
            Err(MistError::NullReference)
        } else if arrayref >= self.memory.len() {
            Err(MistError::InvalidReference)
        } else if index < 0 || index as usize >= self.memory[arrayref].mem.len() {
            Err(MistError::ArrayBounds)
        } else {
            Ok(self.memory[arrayref].mem[index as usize])
        }
    }

    /// Writes `value` to the element `index` of the array `arrayref`. On an
    /// error nothing changes.
    pub fn store(&mut self, arrayref: usize, index: i32, value: MistValue) -> (r: Result<
        (),
        MistError,
    >)
        requires
            old(self).wf(),
        ensures
            final(self).wf(),
            match element_written(old(self)@, arrayref as int, index as int, value) {
                Ok(objects) => r is Ok && final(self)@ == objects,
                Err(e) => r == Err::<(), MistError>(e) && final(self)@ == old(self)@,
            },
    {
        if arrayref == 0 {
            Err(MistError::NullReference)
        } else if arrayref >= self.memory.len() {
            Err(MistError::InvalidReference)
        } else if index < 0 || index as usize >= self.memory[arrayref].mem.len() {
            Err(MistError::ArrayBounds)
        } else {
            self.memory[arrayref].mem[index as usize] = value;
            assert(self@ =~= old(self)@.update(
                arrayref as int,
                old(self)@[arrayref as int].update(index as int, value),
            ));
            Ok(())
        }
    }

    /// `iastore`: writes the int `value` to the element `index` of the array
    /// `arrayref`.
    pub fn iastore(&mut self, arrayref: usize, index: i32, value: i32) -> (r: Result<(), MistError>)
        requires
            old(self).wf(),
        ensures
            final(self).wf(),
            match element_written(
                old(self)@,
                arrayref as int,
                index as int,
                MistValue::Integer(value),
            ) {
                Ok(objects) => r is Ok && final(self)@ == objects,
                Err(e) => r == Err::<(), MistError>(e) && final(self)@ == old(self)@,
            },
    {
        self.store(arrayref, index, MistValue::Integer(value))
    }

    /// `iaload`: the int in the element `index` of the array `arrayref`;
    /// `TypeMismatch` if the element holds no int.
    pub fn iaload(&self, arrayref: usize, index: i32) -> (r: Result<i32, MistError>)
        ensures
            r == (match element(self@, arrayref as int, index as int) {
                Ok(MistValue::Integer(x)) => Ok::<i32, MistError>(x),
                Ok(_) => Err(MistError::TypeMismatch),
                Err(e) => Err(e),
            }),
    {
        match self.load(arrayref, index) {
            Ok(MistValue::Integer(x)) => Ok(x),
            Ok(_) => Err(MistError::TypeMismatch),
            Err(e) => Err(e),
        }
    }
}

/// Right after an allocation every element of the new array holds the default
/// of the array's kind, the new array has the asked length, and every element
/// of an older array is what it was.
pub proof fn lemma_load_after_allocation(
    objects: Seq<Seq<MistValue>>,
    atype: u8,
    count: i32,
    index: int,
    arrayref: int,
)
    requires
        objects.len() >= 1,
        count >= 0,
    ensures
        allocated(atype, count) is Ok,
        allocated(atype, count).unwrap().len() == count,
        0 <= index < count ==> element(
            objects.push(allocated(atype, count).unwrap()),
            objects.len() as int,
            index,
        ) == Ok::<MistValue, MistError>(element_default(atype)),
        !(0 <= index < count) ==> element(
            objects.push(allocated(atype, count).unwrap()),
            objects.len() as int,
            index,
        ) == Err::<MistValue, MistError>(MistError::ArrayBounds),
        0 <= arrayref < objects.len() ==> element(
            objects.push(allocated(atype, count).unwrap()),
            arrayref,
            index,
        ) == element(objects, arrayref, index),
{
}

/// A load after a store to the same element gives back the cell stored.
pub proof fn lemma_load_after_element_store(
    objects: Seq<Seq<MistValue>>,
    arrayref: int,
    index: int,
    value: MistValue,
)
    requires
        element(objects, arrayref, index) is Ok,
    ensures
        element_written(objects, arrayref, index, value) is Ok,
        element(element_written(objects, arrayref, index, value).unwrap(), arrayref, index) == Ok::<
            MistValue,
            MistError,
        >(value),
{
}

} // verus!
