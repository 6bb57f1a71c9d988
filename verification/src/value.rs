//! The value cell: one typed runtime value.

use core::cmp::Ordering;
use vstd::prelude::*;

verus! {

/// One runtime value, as carried on the operand stack, in a local slot or in a
/// heap object.
///
/// Floating-point payloads are held as their IEEE-754 bit patterns, so that
/// every cell compares bit for bit.
#[derive(Clone, Copy, Debug, PartialEq, Eq, Structural)]
pub enum MistValue {
    /// True or false.
    Boolean(bool),
    /// From -128 to 127.
    Byte(i8),
    /// From -32768 to 32767.
    Short(i16),
    /// From -2147483648 to 2147483647.
    Integer(i32),
    /// The bits of a 32-bit IEEE-754 number.
    Float(u32),
    /// From -9223372036854775808 to 9223372036854775807.
    Long(i64),
    /// The bits of a 64-bit IEEE-754 number.
    Double(u64),
    /// A 16-bit code unit, from 0 to 65535.
    Char(u16),
    /// An index into the heap; 0 is the null reference.
    ObjectReference(usize),
}

/// The nine tags by which descriptors name the kinds of value.
pub open spec fn is_tag(c: char) -> bool {
    c == 'Z' || c == 'B' || c == 'S' || c == 'I' || c == 'F' || c == 'J' || c == 'D' || c == 'C'
        || c == 'A'
}

/// The zero of the kind that `c` names.
pub open spec fn zero_of_tag(c: char) -> Option<MistValue> {
    if c == 'Z' {
        Some(MistValue::Boolean(false))
    } else if c == 'B' {
        Some(MistValue::Byte(0))
    } else if c == 'S' {
        Some(MistValue::Short(0))
    } else if c == 'I' {
        Some(MistValue::Integer(0))
    } else if c == 'F' {
        Some(MistValue::Float(0))
    } else if c == 'J' {
        Some(MistValue::Long(0))
    } else if c == 'D' {
        Some(MistValue::Double(0))
    } else if c == 'C' {
        Some(MistValue::Char(0))
    } else if c == 'A' {
        Some(MistValue::ObjectReference(0))
    } else {
        None
    }
}

impl MistValue {
    /// The tag of the variant of `self`, as descriptors write it.
    pub open spec fn tag(self) -> char {
        match self {
            MistValue::Boolean(_) => 'Z',
            MistValue::Byte(_) => 'B',
            MistValue::Short(_) => 'S',
            MistValue::Integer(_) => 'I',
            MistValue::Float(_) => 'F',
            MistValue::Long(_) => 'J',
            MistValue::Double(_) => 'D',
            MistValue::Char(_) => 'C',
            MistValue::ObjectReference(_) => 'A',
        }
    }

    /// Whether `self` and `other` are of one kind, whatever they hold.
    pub open spec fn same_kind(self, other: MistValue) -> bool {
        self.tag() == other.tag()
    }

    /// Whether `self` takes two slots in a frame laid out by a compiler.
    pub open spec fn is_wide(self) -> bool {
        self is Long || self is Double
    }

    /// The one-letter tag of the kind of `self`, as descriptors write it.

    pub fn short_name(&self) -> (c: char)
        ensures
            c == self.tag(),
    {
        match self {
            MistValue::Boolean(_) => 'Z',
            MistValue::Byte(_) => 'B',
            MistValue::Short(_) => 'S',
            MistValue::Integer(_) => 'I',
            MistValue::Float(_) => 'F',
            MistValue::Long(_) => 'J',
            MistValue::Double(_) => 'D',
            MistValue::Char(_) => 'C',
            MistValue::ObjectReference(_) => 'A',
        }
    }

    /// The zero of the kind that the tag `c` names; `None` for a character
    /// that is no tag.
    pub fn from_tag(c: char) -> (v: Option<MistValue>)
        ensures
            v == zero_of_tag(c),
    {
        if c == 'Z' {
            Some(MistValue::Boolean(false))
        } else if c == 'B' {
            Some(MistValue::Byte(0))
        } else if c == 'S' {
            Some(MistValue::Short(0))
        } else if c == 'I' {
            Some(MistValue::Integer(0))
        } else if c == 'F' {
            Some(MistValue::Float(0))
        } else if c == 'J' {
            Some(MistValue::Long(0))
        } else if c == 'D' {
            Some(MistValue::Double(0))
        } else if c == 'C' {
            Some(MistValue::Char(0))
        } else if c == 'A' {
            Some(MistValue::ObjectReference(0))
        } else {
            None
        }
    }

    /// The int that a three-way comparison pushes: -1, 0 or 1.
    pub fn from_ordering(value: Ordering) -> (v: MistValue)
        ensures
            v == match value {
                Ordering::Less => MistValue::Integer(-1i32),
                Ordering::Equal => MistValue::Integer(0),
                Ordering::Greater => MistValue::Integer(1),
            },
    {
        match value {
            Ordering::Less => MistValue::Integer(-1),
            Ordering::Equal => MistValue::Integer(0),
            Ordering::Greater => MistValue::Integer(1),
        }
    }

    /// As [`MistValue::from_ordering`], where the operands may have been
    /// unordered: then there is nothing to push.
    pub fn try_from_ordering(value: Option<Ordering>) -> (v: Option<MistValue>)
        ensures
            v == match value {
                Some(Ordering::Less) => Some(MistValue::Integer(-1i32)),
                Some(Ordering::Equal) => Some(MistValue::Integer(0)),
                Some(Ordering::Greater) => Some(MistValue::Integer(1)),
                None => None,
            },
    {
        match value {
            Some(o) => Some(MistValue::from_ordering(o)),
            None => None,
        }
    }

    /// The payload of a boolean cell.
    pub fn as_boolean(&self) -> (r: Option<bool>)
        ensures
            r == (match *self {
                MistValue::Boolean(b) => Some(b),
                _ => None,
            }),
    {
        match self {
            MistValue::Boolean(b) => Some(*b),
            _ => None,
        }
    }

    /// The payload of a byte cell.
    pub fn as_byte(&self) -> (r: Option<i8>)
        ensures
            r == (match *self {
                MistValue::Byte(b) => Some(b),
                _ => None,
            }),
    {
        match self {
            MistValue::Byte(b) => Some(*b),
            _ => None,
        }
    }

    /// The payload of a short cell.
    pub fn as_short(&self) -> (r: Option<i16>)
        ensures
            r == (match *self {
                MistValue::Short(b) => Some(b),
                _ => None,
            }),
    {
        match self {
            MistValue::Short(b) => Some(*b),
            _ => None,
        }
    }

    /// The payload of an int cell.
    pub fn as_integer(&self) -> (r: Option<i32>)
        ensures
            r == (match *self {
                MistValue::Integer(b) => Some(b),
                _ => None,
            }),
    {
        match self {
            MistValue::Integer(b) => Some(*b),
            _ => None,
        }
    }

    /// The bit pattern of a float cell.
    pub fn as_float(&self) -> (r: Option<u32>)
        ensures
            r == (match *self {
                MistValue::Float(b) => Some(b),
                _ => None,
            }),
    {
        match self {
            MistValue::Float(b) => Some(*b),
            _ => None,
        }
    }

    /// The payload of a long cell.
    pub fn as_long(&self) -> (r: Option<i64>)
        ensures
            r == (match *self {
                MistValue::Long(b) => Some(b),
                _ => None,
            }),
    {
        match self {
            MistValue::Long(b) => Some(*b),
            _ => None,
        }
    }

    /// The bit pattern of a double cell.
    pub fn as_double(&self) -> (r: Option<u64>)
        ensures
            r == (match *self {
                MistValue::Double(b) => Some(b),
                _ => None,
            }),
    {
        match self {
            MistValue::Double(b) => Some(*b),
            _ => None,
        }
    }

    /// The code unit of a char cell.
    pub fn as_char(&self) -> (r: Option<u16>)
        ensures
            r == (match *self {
                MistValue::Char(b) => Some(b),
                _ => None,
            }),
    {
        match self {
            MistValue::Char(b) => Some(*b),
            _ => None,
        }
    }

    /// The heap index of a reference cell.
    pub fn as_reference(&self) -> (r: Option<usize>)
        ensures
            r == (match *self {
                MistValue::ObjectReference(b) => Some(b),
                _ => None,
            }),
    {
        match self {
            MistValue::ObjectReference(b) => Some(*b),
            _ => None,
        }
    }
}

impl Default for MistValue {
    fn default() -> (v: MistValue)
        ensures
            v == MistValue::Integer(0),
    {
        MistValue::Integer(0)
    }
}

/// Every cell carries one of the nine tags, and the tag names the cell's own
/// kind: the zero of that tag is a cell of the same variant.
pub proof fn lemma_tag_names_kind(v: MistValue)
    ensures
        is_tag(v.tag()),
        zero_of_tag(v.tag()) is Some,
        zero_of_tag(v.tag()).unwrap().same_kind(v),
        v is Boolean <==> v.tag() == 'Z',
        v is Byte <==> v.tag() == 'B',
        v is Short <==> v.tag() == 'S',
        v is Integer <==> v.tag() == 'I',
        v is Float <==> v.tag() == 'F',
        v is Long <==> v.tag() == 'J',
        v is Double <==> v.tag() == 'D',
        v is Char <==> v.tag() == 'C',
        v is ObjectReference <==> v.tag() == 'A',
{
}

/// Two cells of one tag are of one variant.
pub proof fn lemma_tag_decides_variant(v: MistValue, w: MistValue)
    requires
        v.tag() == w.tag(),
    ensures
        v is Boolean <==> w is Boolean,
        v is Byte <==> w is Byte,
        v is Short <==> w is Short,
        v is Integer <==> w is Integer,
        v is Float <==> w is Float,
        v is Long <==> w is Long,
        v is Double <==> w is Double,
        v is Char <==> w is Char,
        v is ObjectReference <==> w is ObjectReference,
{
}

} // verus!
