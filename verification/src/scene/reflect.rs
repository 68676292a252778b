//! Properties of the components that the document spells out, by the names
//! under which they are reflected.

use crate::guid::Guid;
use crate::props::{PropModel, PropValue};
use crate::scene::component::{Transform, Vec3d};
use crate::scene::doc;
use crate::scene::doc::{changed, lemma_change_keeps_shape, models, DocModel, SceneDoc};
use crate::scene::entity::EntityModel;
use crate::text::same_text;
use vstd::prelude::*;

verus! {

/// Whether a type path is that of the transform.
pub open spec fn names_transform(type_path: Seq<char>) -> bool {
    type_path == "inf_ecs::components::Transform"@
}

pub fn is_transform(type_path: &str) -> (r: bool)
    ensures
        r == names_transform(type_path@),
{
    same_text(type_path, "inf_ecs::components::Transform")
}

/// A field of the transform.
#[derive(Clone, Copy, Debug, PartialEq, Eq, Structural)]
pub enum TransformField {
    Translation,
    Rotation,
    Scale,
}

/// The field of a name.
pub open spec fn field_named(name: Seq<char>) -> Option<TransformField> {
    if name == "translation"@ {
        Some(TransformField::Translation)
    } else if name == "rotation"@ {
        Some(TransformField::Rotation)
    } else if name == "scale"@ {
        Some(TransformField::Scale)
    } else {
        None
    }
}

pub fn transform_field(name: &str) -> (r: Option<TransformField>)
    ensures
        r == field_named(name@),
{
    if same_text(name, "translation") {
        Some(TransformField::Translation)
    } else if same_text(name, "rotation") {
        Some(TransformField::Rotation)
    } else if same_text(name, "scale") {
        Some(TransformField::Scale)
    } else {
        None
    }
}

/// What a field holds.
pub open spec fn field_of(t: Transform, f: TransformField) -> Vec3d {
    match f {
        TransformField::Translation => t.translation,
        TransformField::Rotation => t.rotation,
        TransformField::Scale => t.scale,
    }
}

/// The transform with one field replaced.
pub open spec fn with_field(t: Transform, f: TransformField, v: Vec3d) -> Transform {
    match f {
        TransformField::Translation => Transform { translation: v, ..t },
        TransformField::Rotation => Transform { rotation: v, ..t },
        TransformField::Scale => Transform { scale: v, ..t },
    }
}

pub fn read_field(t: &Transform, f: TransformField) -> (r: Vec3d)
    ensures
        r == field_of(*t, f),
{
    match f {
        TransformField::Translation => t.translation,
        TransformField::Rotation => t.rotation,
        TransformField::Scale => t.scale,
    }
}

fn write_field(t: Transform, f: TransformField, v: Vec3d) -> (r: Transform)
    ensures
        r == with_field(t, f, v),
{
    match f {
        TransformField::Translation => Transform { translation: v, ..t },
        TransformField::Rotation => Transform { rotation: v, ..t },
        TransformField::Scale => Transform { scale: v, ..t },
    }
}

/// The entities with one field of the transform of one replaced, where it has a
/// transform.
pub open spec fn with_transform_field(
    entities: Seq<EntityModel>,
    guid: Guid,
    f: TransformField,
    v: Vec3d,
) -> Seq<EntityModel> {
    changed(
        entities,
        guid,
        |e: EntityModel|
            EntityModel {
                transform: match e.transform {
                    Some(t) => Some(with_field(t, f, v)),
                    None => None,
                },
                ..e
            },
    )
}

/// The property of a transform that is there.
pub open spec fn own_prop(
    entities: Seq<EntityModel>,
    guid: Guid,
    type_path: Seq<char>,
    field: Seq<char>,
) -> Option<PropModel> {
    let i = doc::find(entities, guid) as int;
    if names_transform(type_path) && i < entities.len() {
        match (field_named(field), entities[i].transform) {
            (Some(f), Some(t)) => Some(PropModel::Vec3(field_of(t, f))),
            _ => None,
        }
    } else {
        None
    }
}

/// The entities with a property written that the document spells out: a field of
/// a transform that is there. Every other write leaves them as they are.
pub open spec fn with_prop(
    entities: Seq<EntityModel>,
    guid: Guid,
    type_path: Seq<char>,
    field: Seq<char>,
    value: PropModel,
) -> Seq<EntityModel> {
    if names_transform(type_path) {
        match (field_named(field), value) {
            (Some(f), PropModel::Vec3(v)) => with_transform_field(entities, guid, f, v),
            _ => entities,
        }
    } else {
        entities
    }
}

impl SceneDoc {
    /// Replace one field of the entity's transform, where it has one.
    pub fn raw_set_transform_field(&mut self, guid: Guid, f: TransformField, v: Vec3d)
        ensures
            final(self)@ == (DocModel {
                entities: with_transform_field(old(self)@.entities, guid, f, v),
                ..old(self)@
            }),
            old(self).wf() ==> final(self).wf(),
            final(self).history == old(self).history,
    {
        let ghost change = |e: EntityModel|
            EntityModel {
                transform: match e.transform {
                    Some(t) => Some(with_field(t, f, v)),
                    None => None,
                },
                ..e
            };
        let i = self.index_of(guid);
        if i < self.entities.len() {
            let ghost before = self.entities@;
            self.entities[i].transform = match self.entities[i].transform {
                Some(t) => Some(write_field(t, f, v)),
                None => None,
            };
            proof {
                assert(with_transform_field(models(before), guid, f, v) =~= changed(
                    models(before),
                    guid,
                    change,
                ));
                assert(models(self.entities@) =~= models(before).update(
                    i as int,
                    change(models(before)[i as int]),
                ));
                lemma_change_keeps_shape(models(before), guid, change);
            }
        }
    }

    /// Write a property of a component that the document spells out.
    pub fn raw_write_prop(&mut self, guid: Guid, type_path: &str, field: &str, value: &PropValue)
        ensures
            final(self)@ == (DocModel {
                entities: with_prop(old(self)@.entities, guid, type_path@, field@, value@),
                ..old(self)@
            }),
            old(self).wf() ==> final(self).wf(),
            final(self).history == old(self).history,
    {
        if !is_transform(type_path) {
            return;
        }
        match (transform_field(field), value) {
            (Some(f), PropValue::Vec3(v)) => {
                self.raw_set_transform_field(guid, f, *v);
            },
            _ => {},
        }
    }
}

// ---------------------------------------------------------------- laws

/// A property that was written is read back, and writing back what was there
/// leaves no trace.
pub proof fn law_written_prop_is_taken_back(
    entities: Seq<EntityModel>,
    guid: Guid,
    type_path: Seq<char>,
    field: Seq<char>,
    before: PropModel,
    after: PropModel,
)
    requires
        own_prop(entities, guid, type_path, field) matches Some(now) ==> now == before,
    ensures
        with_prop(
            with_prop(entities, guid, type_path, field, after),
            guid,
            type_path,
            field,
            before,
        ) == entities,
        own_prop(entities, guid, type_path, field) is Some && after is Vec3 ==> own_prop(
            with_prop(entities, guid, type_path, field, after),
            guid,
            type_path,
            field,
        ) == Some(after),
{
    let there = with_prop(entities, guid, type_path, field, after);
    doc::lemma_find(entities, guid);
    doc::lemma_find(there, guid);
    assert forall|i: int| 0 <= i < entities.len() implies (#[trigger] there[i]).guid
        == entities[i].guid by {}
    let i = doc::find(entities, guid) as int;
    if i < entities.len() {
        assert(there[i].guid == guid);
        let j = doc::find(there, guid) as int;
        assert(doc::has(there, guid));
        if j < i {
            assert(entities[j].guid != guid);
        } else if i < j {
            assert(there[i].guid != guid);
        }
    }
    let back = with_prop(there, guid, type_path, field, before);
    assert(back =~= entities);
}

} // verus!
