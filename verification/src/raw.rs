//! The raw host snapshot: a loosely typed tree in which any field may be
//! absent or hold a value of another shape than expected.
//!
//! Nothing here fails. Every accessor answers `None` for a value of the wrong
//! shape, so a reader narrows each access to a default of its own choosing.

use vstd::prelude::*;

verus! {

/// How many units of a fixed-point number make one: reals are held in
/// millionths.
pub const MILLION: i64 = 1_000_000;

/// One node of a raw snapshot.
#[derive(Debug, PartialEq, Eq)]
pub enum RawValue {
    /// An explicit null.
    Null,
    /// A boolean.
    Flag(bool),
    /// A whole number.
    Integer(i128),
    /// A number with a fractional part, in millionths.
    Real(i64),
    /// A string.
    Text(String),
    /// An ordered list of values.
    List(Vec<RawValue>),
    /// Named fields, in the order they were given.
    Record(Vec<RawField>),
}

/// A named field of a record.
#[derive(Debug, PartialEq, Eq)]
pub struct RawField {
    pub name: String,
    pub value: RawValue,
}

/// The value of the first field called `name` among `fields`.
pub open spec fn first_named(fields: Seq<RawField>, name: Seq<char>) -> Option<RawValue>
    decreases fields.len(),
{
    if fields.len() == 0 {
        None
    } else if fields[0].name@ == name {
        Some(fields[0].value)
    } else {
        first_named(fields.drop_first(), name)
    }
}

/// `x` brought into the range of `i64`, by the nearer end where it lies
/// outside.
pub open spec fn clamp_to_i64(x: int) -> i64 {
    if x > i64::MAX {
        i64::MAX
    } else if x < i64::MIN {
        i64::MIN
    } else {
        x as i64
    }
}

impl RawValue {
    /// The field `name` of a record; `None` for anything but a record, and for
    /// a record without such a field.
    pub open spec fn spec_field(self, name: Seq<char>) -> Option<RawValue> {
        match self {
            RawValue::Record(fields) => first_named(fields@, name),
            _ => None,
        }
    }

    /// Looks up the field `name`.
    pub fn field(&self, name: &str) -> (found: Option<&RawValue>)
        ensures
            found == match self.spec_field(name@) {
                Some(v) => Some(&v),
                None => None,
            },
    {
        match self {
            RawValue::Record(fields) => {
                let wanted = name.to_owned();
                let mut i: usize = 0;
                assert(fields@.subrange(0, fields@.len() as int) == fields@);
                while i < fields.len()
                    invariant
                        i <= fields.len(),
                        wanted@ == name@,
                        self.spec_field(name@) == first_named(fields@, name@),
                        first_named(fields@, name@) == first_named(
                            fields@.subrange(i as int, fields@.len() as int),
                            name@,
                        ),
                    decreases fields.len() - i,
                {
                    let ghost rest = fields@.subrange(i as int, fields@.len() as int);
                    assert(rest[0] == fields@[i as int]);
                    assert(rest.drop_first() == fields@.subrange(i as int + 1, fields@.len() as int));
                    if fields[i].name == wanted {
                        assert(first_named(rest, name@) == Some(fields@[i as int].value));
                        return Some(&fields[i].value);
                    }
                    i += 1;
                }
                None
            },
            _ => None,
        }
    }

    /// The string that a text node holds.
    pub open spec fn spec_text(self) -> Option<Seq<char>> {
        match self {
            RawValue::Text(s) => Some(s@),
            _ => None,
        }
    }

    /// Reads the node as a string.
    pub fn as_text(&self) -> (found: Option<&str>)
        ensures
            match found {
                Some(s) => self.spec_text() == Some(s@),
                None => self.spec_text().is_none(),
            },
    {
        match self {
            RawValue::Text(s) => Some(s.as_str()),
            _ => None,
        }
    }

    /// The number that a whole, non-negative node holds, where it fits 64 bits.
    pub open spec fn spec_count(self) -> Option<u64> {
        match self {
            RawValue::Integer(n) => if 0 <= n <= u64::MAX {
                Some(n as u64)
            } else {
                None
            },
            _ => None,
        }
    }

    /// Reads the node as an unsigned integer. A negative number, a real and an
    /// integer beyond 64 bits are not one.
    pub fn as_count(&self) -> (found: Option<u64>)
        ensures
            found == self.spec_count(),
    {
        match self {
            RawValue::Integer(n) => {
                if 0 <= *n && *n <= u64::MAX as i128 {
                    Some(*n as u64)
                } else {
                    None
                }
            },
            _ => None,
        }
    }

    /// The boolean that a flag node holds.
    pub open spec fn spec_flag(self) -> Option<bool> {
        match self {
            RawValue::Flag(b) => Some(b),
            _ => None,
        }
    }

    /// Reads the node as a boolean.
    pub fn as_flag(&self) -> (found: Option<bool>)
        ensures
            found == self.spec_flag(),
    {
        match self {
            RawValue::Flag(b) => Some(*b),
            _ => None,
        }
    }

    /// The items that a list node holds, in order.
    pub open spec fn spec_items(self) -> Option<Seq<RawValue>> {
        match self {
            RawValue::List(items) => Some(items@),
            _ => None,
        }
    }

    /// Reads the node as a list.
    pub fn as_items(&self) -> (found: Option<&Vec<RawValue>>)
        ensures
            match found {
                Some(items) => self.spec_items() == Some(items@),
                None => self.spec_items().is_none(),
            },
    {
        match self {
            RawValue::List(items) => Some(items),
            _ => None,
        }
    }

    /// The number that any numeric node holds, in millionths. A whole number
    /// too large for that is held at the nearer end of `i64`.
    pub open spec fn spec_millionths(self) -> Option<i64> {
        match self {
            RawValue::Integer(n) => Some(clamp_to_i64(n * MILLION)),
            RawValue::Real(m) => Some(m),
            _ => None,
        }
    }

    /// Reads the node as a number in millionths.
    pub fn as_millionths(&self) -> (found: Option<i64>)
        ensures
            found == self.spec_millionths(),
    {
        match self {
            RawValue::Integer(n) => {
                if *n > 9_223_372_036_854 {
                    Some(i64::MAX)
                } else if *n < -9_223_372_036_854 {
                    Some(i64::MIN)
                } else {
                    Some((*n * 1_000_000) as i64)
                }
            },
            RawValue::Real(m) => Some(*m),
            _ => None,
        }
    }
}

} // verus!
