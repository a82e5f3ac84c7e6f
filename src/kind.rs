//! Flat sets of value categories.

use vstd::prelude::*;

verus! {

/// A flat set of value categories, with no nested detail.
#[derive(Clone, Copy, Debug, PartialEq, Eq, Structural)]
pub struct Kind {
    pub bytes: bool,
    pub integer: bool,
    pub float: bool,
    pub boolean: bool,
    pub timestamp: bool,
    pub regex: bool,
    pub null: bool,
    pub array: bool,
    pub object: bool,
}

impl Kind {
    /// The set with no category.
    pub open spec fn spec_empty() -> Kind {
        Kind {
            bytes: false,
            integer: false,
            float: false,
            boolean: false,
            timestamp: false,
            regex: false,
            null: false,
            array: false,
            object: false,
        }
    }

    /// The set of every category.
    pub open spec fn spec_all() -> Kind {
        Kind {
            bytes: true,
            integer: true,
            float: true,
            boolean: true,
            timestamp: true,
            regex: true,
            null: true,
            array: true,
            object: true,
        }
    }

    pub open spec fn spec_union(self, o: Kind) -> Kind {
        Kind {
            bytes: self.bytes || o.bytes,
            integer: self.integer || o.integer,
            float: self.float || o.float,
            boolean: self.boolean || o.boolean,
            timestamp: self.timestamp || o.timestamp,
            regex: self.regex || o.regex,
            null: self.null || o.null,
            array: self.array || o.array,
            object: self.object || o.object,
        }
    }

    /// Every category of `o` is in `self`.
    pub open spec fn spec_contains(self, o: Kind) -> bool {
        &&& o.bytes ==> self.bytes
        &&& o.integer ==> self.integer
        &&& o.float ==> self.float
        &&& o.boolean ==> self.boolean
        &&& o.timestamp ==> self.timestamp
        &&& o.regex ==> self.regex
        &&& o.null ==> self.null
        &&& o.array ==> self.array
        &&& o.object ==> self.object
    }

    /// Some category is in both.
    pub open spec fn spec_intersects(self, o: Kind) -> bool {
        ||| self.bytes && o.bytes
        ||| self.integer && o.integer
        ||| self.float && o.float
        ||| self.boolean && o.boolean
        ||| self.timestamp && o.timestamp
        ||| self.regex && o.regex
        ||| self.null && o.null
        ||| self.array && o.array
        ||| self.object && o.object
    }

    /// The scalar categories of `self` alone.
    pub open spec fn spec_scalars(self) -> Kind {
        Kind { array: false, object: false, ..self }
    }

    /// Exactly one category, and it is a scalar one.
    pub open spec fn spec_is_single_scalar(self) -> bool {
        &&& !self.array
        &&& !self.object
        &&& {
            ||| self == Kind { bytes: true, ..Kind::spec_empty() }
            ||| self == Kind { integer: true, ..Kind::spec_empty() }
            ||| self == Kind { float: true, ..Kind::spec_empty() }
            ||| self == Kind { boolean: true, ..Kind::spec_empty() }
            ||| self == Kind { timestamp: true, ..Kind::spec_empty() }
            ||| self == Kind { regex: true, ..Kind::spec_empty() }
            ||| self == Kind { null: true, ..Kind::spec_empty() }
        }
    }

    pub fn empty() -> (r: Kind)
        ensures
            r == Kind::spec_empty(),
    {
        Kind {
            bytes: false,
            integer: false,
            float: false,
            boolean: false,
            timestamp: false,
            regex: false,
            null: false,
            array: false,
            object: false,
        }
    }

    pub fn all() -> (r: Kind)
        ensures
            r == Kind::spec_all(),
    {
        Kind {
            bytes: true,
            integer: true,
            float: true,
            boolean: true,
            timestamp: true,
            regex: true,
            null: true,
            array: true,
            object: true,
        }
    }

    pub fn bytes() -> (r: Kind)
        ensures
            r == (Kind { bytes: true, ..Kind::spec_empty() }),
    {
        Kind { bytes: true, ..Kind::empty() }
    }

    pub fn integer() -> (r: Kind)
        ensures
            r == (Kind { integer: true, ..Kind::spec_empty() }),
    {
        Kind { integer: true, ..Kind::empty() }
    }

    pub fn float() -> (r: Kind)
        ensures
            r == (Kind { float: true, ..Kind::spec_empty() }),
    {
        Kind { float: true, ..Kind::empty() }
    }

    pub fn boolean() -> (r: Kind)
        ensures
            r == (Kind { boolean: true, ..Kind::spec_empty() }),
    {
        Kind { boolean: true, ..Kind::empty() }
    }

    pub fn timestamp() -> (r: Kind)
        ensures
            r == (Kind { timestamp: true, ..Kind::spec_empty() }),
    {
        Kind { timestamp: true, ..Kind::empty() }
    }

    pub fn regex() -> (r: Kind)
        ensures
            r == (Kind { regex: true, ..Kind::spec_empty() }),
    {
        Kind { regex: true, ..Kind::empty() }
    }

    pub fn null() -> (r: Kind)
        ensures
            r == (Kind { null: true, ..Kind::spec_empty() }),
    {
        Kind { null: true, ..Kind::empty() }
    }

    pub fn array() -> (r: Kind)
        ensures
            r == (Kind { array: true, ..Kind::spec_empty() }),
    {
        Kind { array: true, ..Kind::empty() }
    }

    pub fn object() -> (r: Kind)
        ensures
            r == (Kind { object: true, ..Kind::spec_empty() }),
    {
        Kind { object: true, ..Kind::empty() }
    }

    pub fn is_empty(&self) -> (r: bool)
        ensures
            r == (*self == Kind::spec_empty()),
    {
        !(self.bytes || self.integer || self.float || self.boolean || self.timestamp || self.regex
            || self.null || self.array || self.object)
    }

    pub fn is_all(&self) -> (r: bool)
        ensures
            r == (*self == Kind::spec_all()),
    {
        self.bytes && self.integer && self.float && self.boolean && self.timestamp && self.regex
            && self.null && self.array && self.object
    }

    /// The categories of both sets together.
    pub fn union(self, o: Kind) -> (r: Kind)
        ensures
            r == self.spec_union(o),
    {
        Kind {
            bytes: self.bytes || o.bytes,
            integer: self.integer || o.integer,
            float: self.float || o.float,
            boolean: self.boolean || o.boolean,
            timestamp: self.timestamp || o.timestamp,
            regex: self.regex || o.regex,
            null: self.null || o.null,
            array: self.array || o.array,
            object: self.object || o.object,
        }
    }

    pub fn contains(&self, o: Kind) -> (r: bool)
        ensures
            r == self.spec_contains(o),
    {
        (!o.bytes || self.bytes) && (!o.integer || self.integer) && (!o.float || self.float) && (
        !o.boolean || self.boolean) && (!o.timestamp || self.timestamp) && (!o.regex
            || self.regex) && (!o.null || self.null) && (!o.array || self.array) && (!o.object
            || self.object)
    }

    pub fn intersects(&self, o: Kind) -> (r: bool)
        ensures
            r == self.spec_intersects(o),
    {
        (self.bytes && o.bytes) || (self.integer && o.integer) || (self.float && o.float) || (
        self.boolean && o.boolean) || (self.timestamp && o.timestamp) || (self.regex && o.regex)
            || (self.null && o.null) || (self.array && o.array) || (self.object && o.object)
    }

    /// Exactly one category, and it is a scalar one.
    pub fn is_single_scalar(&self) -> (r: bool)
        ensures
            r == self.spec_is_single_scalar(),
    {
        let n: u8 = (self.bytes as u8) + (self.integer as u8) + (self.float as u8) + (
        self.boolean as u8) + (self.timestamp as u8) + (self.regex as u8) + (self.null as u8);
        !self.array && !self.object && n == 1
    }
}

} // verus!
