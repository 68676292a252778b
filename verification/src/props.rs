//! Reflected properties, row by row.

use crate::bits::F64;
use crate::guid::Guid;
use crate::scene::component::{Component, Vec3d};
use crate::text::same_text;
use vstd::prelude::*;

verus! {

/// The value of a property: a number, a vector, or a kind that no scalar path
/// reaches into.
#[derive(Debug, PartialEq, Eq)]
pub enum PropValue {
    Number(F64),
    Vec3(Vec3d),
    Other(Component),
}

/// What a property holds.
pub enum PropModel {
    Number(F64),
    Vec3(Vec3d),
    Other(Seq<u8>),
}

impl View for PropValue {
    type V = PropModel;

    open spec fn view(&self) -> PropModel {
        match self {
            PropValue::Number(n) => PropModel::Number(*n),
            PropValue::Vec3(v) => PropModel::Vec3(*v),
            PropValue::Other(c) => PropModel::Other(c@),
        }
    }
}

impl Clone for PropValue {
    fn clone(&self) -> (r: Self)
        ensures
            r@ == self@,
    {
        match self {
            PropValue::Number(n) => PropValue::Number(*n),
            PropValue::Vec3(v) => PropValue::Vec3(*v),
            PropValue::Other(c) => PropValue::Other(c.clone()),
        }
    }
}

impl PropValue {
    /// Whether two values are of one kind.
    pub fn same_variant(&self, other: &PropValue) -> (r: bool)
        ensures
            r == self@.like(other@),
    {
        match (self, other) {
            (PropValue::Number(_), PropValue::Number(_)) => true,
            (PropValue::Vec3(_), PropValue::Vec3(_)) => true,
            (PropValue::Other(_), PropValue::Other(_)) => true,
            _ => false,
        }
    }
}

/// A component of a vector.
pub open spec fn axis(v: Vec3d, i: int) -> F64 {
    if i == 0 {
        v.x
    } else if i == 1 {
        v.y
    } else {
        v.z
    }
}

/// A vector with one component replaced.
pub open spec fn with_axis(v: Vec3d, i: int, value: F64) -> Vec3d {
    if i == 0 {
        Vec3d { x: value, ..v }
    } else if i == 1 {
        Vec3d { y: value, ..v }
    } else {
        Vec3d { z: value, ..v }
    }
}

impl PropModel {
    /// The scalar that a swizzle selects: the number itself without one, one of
    /// the three components of a vector with one.
    pub open spec fn scalar(self, swizzle: Option<usize>) -> Option<F64> {
        match (self, swizzle) {
            (PropModel::Number(n), None) => Some(n),
            (PropModel::Vec3(v), Some(i)) => if i < 3 {
                Some(axis(v, i as int))
            } else {
                None
            },
            _ => None,
        }
    }

    /// The property with that scalar replaced, where it has it.
    pub open spec fn with_scalar(self, swizzle: Option<usize>, value: F64) -> Option<PropModel> {
        match (self, swizzle) {
            (PropModel::Number(_), None) => Some(PropModel::Number(value)),
            (PropModel::Vec3(v), Some(i)) => if i < 3 {
                Some(PropModel::Vec3(with_axis(v, i as int, value)))
            } else {
                None
            },
            _ => None,
        }
    }

    /// Whether two properties are of one kind.
    pub open spec fn like(self, other: PropModel) -> bool {
        match (self, other) {
            (PropModel::Number(_), PropModel::Number(_)) => true,
            (PropModel::Vec3(_), PropModel::Vec3(_)) => true,
            (PropModel::Other(_), PropModel::Other(_)) => true,
            _ => false,
        }
    }

    /// Whether two properties are of one kind; of the kinds that no scalar path
    /// reaches into, whether they are the same.
    pub open spec fn same_kind(self, other: PropModel) -> bool {
        match (self, other) {
            (PropModel::Number(_), PropModel::Number(_)) => true,
            (PropModel::Vec3(_), PropModel::Vec3(_)) => true,
            (PropModel::Other(a), PropModel::Other(b)) => a == b,
            _ => false,
        }
    }
}

/// The scalar of a value that a swizzle selects.
pub fn scalar_of(value: &PropValue, swizzle: Option<usize>) -> (r: Option<F64>)
    ensures
        r == value@.scalar(swizzle),
{
    match (value, swizzle) {
        (PropValue::Number(n), None) => Some(*n),
        (PropValue::Vec3(v), Some(i)) => if i == 0 {
            Some(v.x)
        } else if i == 1 {
            Some(v.y)
        } else if i == 2 {
            Some(v.z)
        } else {
            None
        },
        _ => None,
    }
}

/// One field of one component of one entity.
#[derive(Debug, PartialEq, Eq)]
pub struct PropRow {
    pub guid: Guid,
    pub type_path: String,
    pub field: String,
    pub value: PropValue,
}

/// What a row holds.
pub struct RowModel {
    pub guid: Guid,
    pub type_path: Seq<char>,
    pub field: Seq<char>,
    pub value: PropModel,
}

impl View for PropRow {
    type V = RowModel;

    open spec fn view(&self) -> RowModel {
        RowModel {
            guid: self.guid,
            type_path: self.type_path@,
            field: self.field@,
            value: self.value@,
        }
    }
}

/// The reflected properties of the components that a document does not spell
/// out: the type behind each display name, and a row for each field. An entity
/// has at most one component of a type.
#[derive(Debug, PartialEq, Eq)]
pub struct PropTable {
    /// Display names and the types they stand for.
    pub types: Vec<(String, String)>,
    pub rows: Vec<PropRow>,
}

/// What a table holds.
pub struct TableModel {
    pub types: Seq<(Seq<char>, Seq<char>)>,
    pub rows: Seq<RowModel>,
}

impl View for PropTable {
    type V = TableModel;

    open spec fn view(&self) -> TableModel {
        TableModel {
            types: self.types@.map_values(|t: (String, String)| (t.0@, t.1@)),
            rows: self.rows@.map_values(|r: PropRow| r@),
        }
    }
}

/// The type behind a display name: the first that is listed.
pub open spec fn type_of(types: Seq<(Seq<char>, Seq<char>)>, name: Seq<char>) -> Option<Seq<char>>
    decreases types.len(),
{
    if types.len() == 0 {
        None
    } else if types[0].0 == name {
        Some(types[0].1)
    } else {
        type_of(types.drop_first(), name)
    }
}

/// Whether a row is that of a field.
pub open spec fn is_row(r: RowModel, guid: Guid, type_path: Seq<char>, field: Seq<char>) -> bool {
    r.guid == guid && r.type_path == type_path && r.field == field
}

/// The place of the row of a field; the number of rows where there is none.
pub open spec fn row_at(
    rows: Seq<RowModel>,
    guid: Guid,
    type_path: Seq<char>,
    field: Seq<char>,
) -> nat
    decreases rows.len(),
{
    if rows.len() == 0 || is_row(rows[0], guid, type_path, field) {
        0
    } else {
        1 + row_at(rows.drop_first(), guid, type_path, field)
    }
}

impl PropTable {
    /// The type behind a display name.
    pub fn type_path_for(&self, name: &str) -> (r: Option<&String>)
        ensures
            match type_of(self@.types, name@) {
                Some(t) => r matches Some(s) && s@ == t,
                None => r is None,
            },
    {
        let ghost all = self@.types;
        let mut i: usize = 0;
        proof {
            assert(all.skip(0) =~= all);
        }
        while i < self.types.len()
            invariant
                all == self@.types,
                i <= self.types.len(),
                type_of(all, name@) == type_of(all.skip(i as int), name@),
            decreases self.types.len() - i,
        {
            proof {
                assert(all.skip(i as int).drop_first() =~= all.skip(i + 1));
                assert(all.skip(i as int)[0] == (self.types@[i as int].0@, self.types@[i as int].1@));
            }
            if same_text(self.types[i].0.as_str(), name) {
                return Some(&self.types[i].1);
            }
            i = i + 1;
        }
        None
    }

    /// The place of the row of a field.
    pub fn row_of(&self, guid: Guid, type_path: &str, field: &str) -> (i: usize)
        ensures
            i == row_at(self@.rows, guid, type_path@, field@),
            i <= self.rows.len(),
    {
        let ghost all = self@.rows;
        let mut i: usize = 0;
        proof {
            assert(all.skip(0) =~= all);
        }
        while i < self.rows.len()
            invariant
                all == self@.rows,
                i <= self.rows.len(),
                row_at(all, guid, type_path@, field@) == i + row_at(
                    all.skip(i as int),
                    guid,
                    type_path@,
                    field@,
                ),
            decreases self.rows.len() - i,
        {
            proof {
                assert(all.skip(i as int).drop_first() =~= all.skip(i + 1));
                assert(all.skip(i as int)[0] == self.rows@[i as int]@);
            }
            if self.rows[i].guid == guid && same_text(self.rows[i].type_path.as_str(), type_path)
                && same_text(self.rows[i].field.as_str(), field) {
                return i;
            }
            i = i + 1;
        }
        i
    }

    /// Replace the value of a row.
    pub fn put(&mut self, at: usize, value: PropValue)
        requires
            at < old(self).rows.len(),
        ensures
            final(self)@.types == old(self)@.types,
            final(self)@.rows == old(self)@.rows.update(
                at as int,
                RowModel { value: value@, ..old(self)@.rows[at as int] },
            ),
    {
        let ghost before = self@.rows;
        let mut value = value;
        let ghost new = value@;
        std::mem::swap(&mut self.rows[at].value, &mut value);
        proof {
            assert(self@.rows =~= before.update(
                at as int,
                RowModel { value: new, ..before[at as int] },
            ));
        }
    }
}

/// The row of a field is the first that is kept for that field of that component of
/// that entity; the place past the last row stands for none.
pub proof fn law_the_first_row_is_found(
    rows: Seq<RowModel>,
    guid: Guid,
    type_path: Seq<char>,
    field: Seq<char>,
)
    ensures
        ({
            let at = row_at(rows, guid, type_path, field) as int;
            &&& 0 <= at <= rows.len()
            &&& at < rows.len() ==> rows[at].guid == guid && rows[at].type_path == type_path
                && rows[at].field == field
            &&& forall|i: int|
                0 <= i < at ==> !((#[trigger] rows[i]).guid == guid && rows[i].type_path == type_path
                    && rows[i].field == field)
        }),
    decreases rows.len(),
{
    if rows.len() > 0 && !is_row(rows[0], guid, type_path, field) {
        let rest = rows.drop_first();
        law_the_first_row_is_found(rest, guid, type_path, field);
        let at = row_at(rows, guid, type_path, field) as int;
        if at < rows.len() {
            assert(rest[at - 1] == rows[at]);
        }
        assert forall|i: int| 0 <= i < at implies !((#[trigger] rows[i]).guid == guid
            && rows[i].type_path == type_path && rows[i].field == field) by {
            if i > 0 {
                assert(rest[i - 1] == rows[i]);
            }
        }
    }
}

/// The type behind a display name is that of the first entry with the name, and
/// there is none where no entry has it.
pub proof fn law_the_first_name_counts(types: Seq<(Seq<char>, Seq<char>)>, name: Seq<char>, i: int)
    requires
        0 <= i <= types.len(),
        forall|j: int| 0 <= j < i ==> (#[trigger] types[j]).0 != name,
        i < types.len() ==> types[i].0 == name,
    ensures
        type_of(types, name) == (if i < types.len() {
            Some(types[i].1)
        } else {
            None
        }),
    decreases types.len(),
{
    if i > 0 {
        let rest = types.drop_first();
        assert(types[0].0 != name);
        assert forall|j: int| 0 <= j < i - 1 implies (#[trigger] rest[j]).0 != name by {
            assert(rest[j] == types[j + 1]);
        }
        if i < types.len() {
            assert(rest[i - 1] == types[i]);
        }
        law_the_first_name_counts(rest, name, i - 1);
    }
}

/// The scalar of a number is the number itself, and a vector has three: its
/// components in order. Nothing else has a scalar. Writing one gives it back and
/// leaves the other two.
pub proof fn law_which_scalars_there_are(p: PropModel, swizzle: Option<usize>, value: F64)
    ensures
        match (p, swizzle) {
            (PropModel::Number(n), None) => p.scalar(swizzle) == Some(n) && p.with_scalar(swizzle, value)
                == Some(PropModel::Number(value)),
            (PropModel::Vec3(v), Some(0)) => p.scalar(swizzle) == Some(v.x) && p.with_scalar(
                swizzle,
                value,
            ) == Some(PropModel::Vec3(Vec3d { x: value, y: v.y, z: v.z })),
            (PropModel::Vec3(v), Some(1)) => p.scalar(swizzle) == Some(v.y) && p.with_scalar(
                swizzle,
                value,
            ) == Some(PropModel::Vec3(Vec3d { x: v.x, y: value, z: v.z })),
            (PropModel::Vec3(v), Some(2)) => p.scalar(swizzle) == Some(v.z) && p.with_scalar(
                swizzle,
                value,
            ) == Some(PropModel::Vec3(Vec3d { x: v.x, y: v.y, z: value })),
            _ => p.scalar(swizzle) is None && p.with_scalar(swizzle, value) is None,
        },
{
}

} // verus!
