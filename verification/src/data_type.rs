//! The data types that this library knows.

use vstd::prelude::*;
use crate::timestamp::TimestampType;
use crate::variant::VariantObjectType;

verus! {

/// The id of a data type.
#[derive(Clone, Copy, Debug, PartialEq, Eq, Structural)]
pub enum TypeID {
    Timestamp,
    VariantObject,
}

/// What a columnar file records of a data type beside its storage type.
#[derive(Debug, PartialEq, Eq)]
pub struct ArrowExtension {
    pub name: String,
    pub meta: Option<String>,
}

/// A data type.
#[derive(Debug, PartialEq, Eq)]
pub enum DataTypeImpl {
    Timestamp(TimestampType),
    VariantObject(VariantObjectType),
}

impl DataTypeImpl {
    /// The id of the type.
    pub fn data_type_id(&self) -> (id: TypeID)
        ensures
            id == match self {
                DataTypeImpl::Timestamp(_) => TypeID::Timestamp,
                DataTypeImpl::VariantObject(_) => TypeID::VariantObject,
            },
    {
        match self {
            DataTypeImpl::Timestamp(t) => t.data_type_id(),
            DataTypeImpl::VariantObject(t) => t.data_type_id(),
        }
    }
}

} // verus!
