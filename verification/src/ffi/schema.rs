//! Types on the C data interface.
use vstd::prelude::*;

use crate::datatypes::DataType;
use crate::error::Error;
use crate::text::write_around;

verus! {

/// The text of the error for a child that the type does not have.
pub open spec fn no_child_message(index: nat) -> Seq<char> {
    crate::text::around("Requested child "@, index, " of a type that has no such child"@)
}

/// Whether the type is a struct or a union with no field `index`.
pub open spec fn beyond_fields(data_type: DataType, index: int) -> bool {
    &&& data_type.logical() is Struct || data_type.logical() is Union
    &&& index >= data_type.fields().len()
}

/// The type of the child `index` of an array of type `data_type`.
pub fn get_child(data_type: &DataType, index: usize) -> (r: Result<DataType, Error>)
    requires
        !beyond_fields(*data_type, index as int),
    ensures
        match r {
            Ok(t) => data_type.child(index as int) == Some(t),
            Err(e) => data_type.child(index as int) is None && e.is_out_of_spec(
                no_child_message(index as nat),
            ),
        },
{
    match data_type.to_logical_type() {
        DataType::List(field) if index == 0 => Ok(field.data_type.clone()),
        DataType::FixedSizeList(field, _) if index == 0 => Ok(field.data_type.clone()),
        DataType::LargeList(field) if index == 0 => Ok(field.data_type.clone()),
        DataType::Mapping(field, _) if index == 0 => Ok(field.data_type.clone()),
        DataType::Struct(fields) => Ok(fields[index].data_type.clone()),
        DataType::Union(fields, _, _) => Ok(fields[index].data_type.clone()),
        _ => Err(
            Error::OutOfSpec(
                write_around("Requested child ", index, " of a type that has no such child"),
            ),
        ),
    }
}

} // verus!
