//! Access levels and kinds of constructors.
use vstd::prelude::*;

use crate::access_flags::{acc_private, acc_protected, acc_public};
use crate::index::{AnnotationValue, ValueView};
use crate::text::str_eq;

verus! {

/// How far a generated member can be seen; `Never` asks for no member at all.
#[derive(Clone, Copy, Debug, PartialEq, Eq, Structural)]
pub enum AccessLevel {
    Public,
    Module,
    Protected,
    Package,
    Private,
    Never,
}

impl AccessLevel {
    /// The level that a constant of `lombok.AccessLevel` names.
    pub open spec fn named(name: Seq<char>) -> Option<AccessLevel> {
        if name == "PUBLIC"@ {
            Some(AccessLevel::Public)
        } else if name == "MODULE"@ {
            Some(AccessLevel::Module)
        } else if name == "PROTECTED"@ {
            Some(AccessLevel::Protected)
        } else if name == "PACKAGE"@ {
            Some(AccessLevel::Package)
        } else if name == "PRIVATE"@ {
            Some(AccessLevel::Private)
        } else if name == "NONE"@ {
            Some(AccessLevel::Never)
        } else {
            None
        }
    }

    /// The level that the value of an annotation's element names.
    pub open spec fn told(value: ValueView) -> Option<AccessLevel> {
        match value {
            ValueView::Enum { enum_type, const_name } => AccessLevel::named(const_name),
            _ => None,
        }
    }

    pub fn from_annotation_value(value: &AnnotationValue) -> (r: Option<AccessLevel>)
        ensures
            r == AccessLevel::told(value.deep_view()),
    {
        match value {
            AnnotationValue::Enum { const_name, .. } => {
                let name = const_name.as_str();
                if str_eq(name, "PUBLIC") {
                    Some(AccessLevel::Public)
                } else if str_eq(name, "MODULE") {
                    Some(AccessLevel::Module)
                } else if str_eq(name, "PROTECTED") {
                    Some(AccessLevel::Protected)
                } else if str_eq(name, "PACKAGE") {
                    Some(AccessLevel::Package)
                } else if str_eq(name, "PRIVATE") {
                    Some(AccessLevel::Private)
                } else if str_eq(name, "NONE") {
                    Some(AccessLevel::Never)
                } else {
                    None
                }
            },
            _ => None,
        }
    }

    /// The access flags of a member of the level.
    pub open spec fn flags(self) -> u16 {
        match self {
            AccessLevel::Public => 0x0001,
            AccessLevel::Private => 0x0002,
            AccessLevel::Protected => 0x0004,
            _ => 0,
        }
    }

    pub fn to_access_flags(&self) -> (r: u16)
        ensures
            r == self.flags(),
    {
        match self {
            AccessLevel::Public => acc_public(),
            AccessLevel::Private => acc_private(),
            AccessLevel::Protected => acc_protected(),
            _ => 0,
        }
    }
}

/// What a generated constructor takes.
#[derive(Clone, Copy, Debug, PartialEq, Eq, Structural)]
pub enum LombokConstructorType {
    NoArgs,
    RequiredArgs,
    AllArgs,
}

} // verus!
