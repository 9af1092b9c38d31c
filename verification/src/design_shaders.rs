//! Shader paints: the bundled shaders, and how a paint keeps the values it was
//! given.

use std::sync::Arc;

use vstd::prelude::*;
use vstd::string::*;

use crate::paint::{
    Color, ShaderFill, ShaderPropertyAssignment, ShaderPropertyValue,
};
use crate::scalar::Scalar;
use crate::text::same_text;

verus! {

#[derive(Clone, Copy, Debug, PartialEq, Eq, Structural)]
pub enum ShaderPropertyKind {
    Number,
    Color,
}

#[derive(Debug, PartialEq)]
pub struct ShaderPropertyDefinition {
    pub id: &'static str,
    pub name: &'static str,
    pub kind: ShaderPropertyKind,
    pub default: ShaderPropertyValue,
}

#[derive(Debug, PartialEq)]
pub struct ShaderDefinition {
    pub id: &'static str,
    pub name: &'static str,
    pub properties: Vec<ShaderPropertyDefinition>,
}

/// One property of a bundled shader.
pub ghost struct PropertyModel {
    pub id: Seq<char>,
    pub name: Seq<char>,
    pub default: ShaderPropertyValue,
}

/// One bundled shader.
pub ghost struct ShaderModel {
    pub id: Seq<char>,
    pub name: Seq<char>,
    pub properties: Seq<PropertyModel>,
}

pub open spec fn opaque_color(r: u8, g: u8, b: u8) -> Color {
    Color { r: r, g: g, b: b, a: 255 }
}

pub open spec fn number_property(id: Seq<char>, name: Seq<char>, default: u64) -> PropertyModel {
    PropertyModel { id: id, name: name, default: ShaderPropertyValue::Number(Scalar::of(default)) }
}

pub open spec fn color_property(id: Seq<char>, name: Seq<char>, default: Color) -> PropertyModel {
    PropertyModel { id: id, name: name, default: ShaderPropertyValue::Color(default) }
}

/// The shaders that come with the editor.
pub open spec fn bundled_shaders() -> Seq<ShaderModel> {
    seq![
        ShaderModel {
            id: "fanta:shader:fractal-noise"@,
            name: "Fractal noise"@,
            properties: seq![
                number_property("frequency"@, "Frequency"@, crate::scalar::FOUR),
                number_property("octaves"@, "Octaves"@, crate::scalar::FOUR),
                color_property("color_a"@, "First color"@, opaque_color(0x25, 0x1f, 0x48)),
                color_property("color_b"@, "Second color"@, opaque_color(0x7d, 0xe3, 0xd6)),
            ],
        },
        ShaderModel {
            id: "fanta:shader:halftone"@,
            name: "Halftone"@,
            properties: seq![
                number_property("columns"@, "Columns"@, crate::scalar::EIGHTEEN),
                number_property("radius"@, "Dot radius"@, crate::scalar::ONE),
                color_property("ink_color"@, "Ink"@, opaque_color(0x1e, 0x29, 0x3b)),
                color_property("paper_color"@, "Paper"@, opaque_color(0xf8, 0xfa, 0xfc)),
            ],
        },
    ]
}

pub open spec fn property_model(definition: ShaderPropertyDefinition) -> PropertyModel {
    PropertyModel { id: definition.id@, name: definition.name@, default: definition.default }
}

/// The default is of the property's kind.
pub open spec fn well_typed(definition: ShaderPropertyDefinition) -> bool {
    match definition.kind {
        ShaderPropertyKind::Number => definition.default is Number,
        ShaderPropertyKind::Color => definition.default is Color,
    }
}

pub open spec fn shader_model(definition: ShaderDefinition) -> ShaderModel {
    ShaderModel {
        id: definition.id@,
        name: definition.name@,
        properties: definition.properties@.map_values(
            |property: ShaderPropertyDefinition| property_model(property),
        ),
    }
}

fn number(id: &'static str, name: &'static str, default: u64) -> (r: ShaderPropertyDefinition)
    ensures
        property_model(r) == number_property(id@, name@, default),
        well_typed(r),
{
    ShaderPropertyDefinition {
        id,
        name,
        kind: ShaderPropertyKind::Number,
        default: ShaderPropertyValue::Number(Scalar::of(default)),
    }
}

fn color(id: &'static str, name: &'static str, r: u8, g: u8, b: u8) -> (p: ShaderPropertyDefinition)
    ensures
        property_model(p) == color_property(id@, name@, opaque_color(r, g, b)),
        well_typed(p),
{
    ShaderPropertyDefinition {
        id,
        name,
        kind: ShaderPropertyKind::Color,
        default: ShaderPropertyValue::Color(Color { r, g, b, a: 255 }),
    }
}

/// The catalog of bundled shaders.
pub fn bundled_shader_catalog() -> (catalog: Vec<ShaderDefinition>)
    ensures
        catalog@.map_values(|definition: ShaderDefinition| shader_model(definition))
            == bundled_shaders(),
        forall|i: int, k: int|
            0 <= i < catalog@.len() && 0 <= k < catalog@[i].properties@.len() ==> well_typed(
                #[trigger] catalog@[i].properties@[k],
            ),
{
    let mut noise: Vec<ShaderPropertyDefinition> = Vec::new();
    noise.push(number("frequency", "Frequency", crate::scalar::FOUR));
    noise.push(number("octaves", "Octaves", crate::scalar::FOUR));
    noise.push(color("color_a", "First color", 0x25, 0x1f, 0x48));
    noise.push(color("color_b", "Second color", 0x7d, 0xe3, 0xd6));
    let mut halftone: Vec<ShaderPropertyDefinition> = Vec::new();
    halftone.push(number("columns", "Columns", crate::scalar::EIGHTEEN));
    halftone.push(number("radius", "Dot radius", crate::scalar::ONE));
    halftone.push(color("ink_color", "Ink", 0x1e, 0x29, 0x3b));
    halftone.push(color("paper_color", "Paper", 0xf8, 0xfa, 0xfc));
    let mut catalog: Vec<ShaderDefinition> = Vec::new();
    catalog.push(
        ShaderDefinition {
            id: "fanta:shader:fractal-noise",
            name: "Fractal noise",
            properties: noise,
        },
    );
    catalog.push(
        ShaderDefinition { id: "fanta:shader:halftone", name: "Halftone", properties: halftone },
    );
    proof {
        let models = catalog@.map_values(|definition: ShaderDefinition| shader_model(definition));
        let wanted = bundled_shaders();
        assert(models[0].properties =~= wanted[0].properties);
        assert(models[1].properties =~= wanted[1].properties);
        assert(models =~= wanted);
    }
    catalog
}

/// The bundled shader with an id.
pub open spec fn bundled(id: Seq<char>) -> Option<ShaderModel> {
    if id == bundled_shaders()[0].id {
        Some(bundled_shaders()[0])
    } else if id == bundled_shaders()[1].id {
        Some(bundled_shaders()[1])
    } else {
        None
    }
}

/// The shader has a property of that id.
pub open spec fn has_property(shader: ShaderModel, id: Seq<char>) -> bool {
    exists|i: int| 0 <= i < shader.properties.len() && (#[trigger] shader.properties[i]).id == id
}

/// A value for a shader's property as the panel gives it. `fits` says that the
/// value is of the kind that the property asks for.
#[derive(Debug, PartialEq)]
pub struct ShaderAssignment {
    pub definition_id: String,
    pub value: ShaderPropertyValue,
    pub fits: bool,
}

#[derive(Debug, PartialEq)]
pub struct ShaderPayload {
    pub shader_id: String,
    pub properties: Vec<ShaderAssignment>,
}

/// The value can be kept: a number must be finite.
pub open spec fn keepable(value: ShaderPropertyValue) -> bool {
    value matches ShaderPropertyValue::Number(number) ==> number.finite()
}

pub fn is_keepable(value: &ShaderPropertyValue) -> (r: bool)
    ensures
        r == keepable(*value),
{
    match value {
        ShaderPropertyValue::Number(number) => number.is_finite(),
        _ => true,
    }
}

/// The values of a shader that a panel can show: those that can be kept.
pub open spec fn shown_assignments(list: Seq<ShaderPropertyAssignment>) -> Seq<
    ShaderPropertyAssignment,
>
    decreases list.len(),
{
    if list.len() == 0 {
        Seq::empty()
    } else if keepable(list.last().value) {
        shown_assignments(list.drop_last()).push(list.last())
    } else {
        shown_assignments(list.drop_last())
    }
}

pub fn show_assignments(list: &Vec<ShaderPropertyAssignment>) -> (r: Vec<ShaderPropertyAssignment>)
    ensures
        r@ == shown_assignments(list@),
{
    let mut r: Vec<ShaderPropertyAssignment> = Vec::new();
    let mut i: usize = 0;
    assert(list@.take(0) =~= Seq::<ShaderPropertyAssignment>::empty());
    while i < list.len()
        invariant
            i <= list@.len(),
            r@ == shown_assignments(list@.take(i as int)),
        decreases list@.len() - i,
    {
        proof {
            assert(list@.take(i + 1).drop_last() =~= list@.take(i as int));
            assert(list@.take(i + 1).last() == list@[i as int]);
        }
        if is_keepable(&list[i].value) {
            r.push(list[i].copy());
        }
        i = i + 1;
    }
    assert(list@.take(list@.len() as int) =~= list@);
    r
}

/// An assignment as the document keeps it.
pub open spec fn stored(assignment: ShaderAssignment) -> ShaderPropertyAssignment {
    ShaderPropertyAssignment {
        definition_id: assignment.definition_id,
        value: assignment.value,
    }
}

/// The assignments that go into the paint: values that do not fit a known
/// property, or that cannot be kept, are left out.
pub open spec fn accepted(shader: ShaderModel, list: Seq<ShaderAssignment>) -> Seq<
    ShaderPropertyAssignment,
>
    decreases list.len(),
{
    if list.len() == 0 {
        Seq::empty()
    } else {
        let rest = accepted(shader, list.drop_last());
        let last = list.last();
        if (has_property(shader, last.definition_id@) && !last.fits) || !keepable(last.value) {
            rest
        } else {
            rest.push(stored(last))
        }
    }
}

/// An assignment for the id is in the list.
pub open spec fn assigns(list: Seq<ShaderPropertyAssignment>, id: Seq<char>) -> bool {
    exists|i: int| 0 <= i < list.len() && (#[trigger] list[i]).definition_id@ == id
}

/// What the panel does not know about is carried over from the paint before:
/// values of unknown properties and opaque values, unless the id is assigned.
pub open spec fn carried_over(
    shader: ShaderModel,
    list: Seq<ShaderPropertyAssignment>,
    previous: Seq<ShaderPropertyAssignment>,
) -> Seq<ShaderPropertyAssignment>
    decreases previous.len(),
{
    if previous.len() == 0 {
        list
    } else {
        let rest = carried_over(shader, list, previous.drop_last());
        let last = previous.last();
        if (!has_property(shader, last.definition_id@) || last.value is Opaque) && !assigns(
            rest,
            last.definition_id@,
        ) {
            rest.push(last)
        } else {
            rest
        }
    }
}

/// The shader paint that a panel asks for. Only bundled shaders can be chosen.
pub open spec fn shader_built(
    payload: ShaderPayload,
    previous: Option<ShaderFill>,
    fill: Option<ShaderFill>,
) -> bool {
    match bundled(payload.shader_id@) {
        None => fill is None,
        Some(shader) => fill matches Some(fill) && {
            let own = accepted(shader, payload.properties@);
            &&& fill.shader_id@ == shader.id
            &&& fill.name@ == shader.name
            &&& fill.properties@ == (match previous {
                Some(before) => if before.shader_id@ == payload.shader_id@ {
                    carried_over(shader, own, before.properties@)
                } else {
                    own
                },
                None => own,
            })
        },
    }
}

fn knows_property(definition: &ShaderDefinition, id: &str) -> (r: bool)
    ensures
        r == has_property(shader_model(*definition), id@),
{
    let ghost models = shader_model(*definition).properties;
    let mut i: usize = 0;
    while i < definition.properties.len()
        invariant
            i <= definition.properties@.len(),
            models == shader_model(*definition).properties,
            models.len() == definition.properties@.len(),
            forall|k: int| 0 <= k < i ==> (#[trigger] models[k]).id != id@,
        decreases definition.properties@.len() - i,
    {
        assert(models[i as int].id == definition.properties@[i as int].id@);
        if same_text(definition.properties[i].id, id) {
            return true;
        }
        i = i + 1;
    }
    false
}

fn is_assigned(list: &Vec<ShaderPropertyAssignment>, id: &str) -> (r: bool)
    ensures
        r == assigns(list@, id@),
{
    let mut i: usize = 0;
    while i < list.len()
        invariant
            i <= list@.len(),
            forall|k: int| 0 <= k < i ==> (#[trigger] list@[k]).definition_id@ != id@,
        decreases list@.len() - i,
    {
        if same_text(list[i].definition_id.as_str(), id) {
            return true;
        }
        i = i + 1;
    }
    false
}

fn accept(definition: &ShaderDefinition, list: &Vec<ShaderAssignment>) -> (r: Vec<
    ShaderPropertyAssignment,
>)
    ensures
        r@ == accepted(shader_model(*definition), list@),
{
    let mut r: Vec<ShaderPropertyAssignment> = Vec::new();
    let mut i: usize = 0;
    assert(list@.take(0) =~= Seq::<ShaderAssignment>::empty());
    while i < list.len()
        invariant
            i <= list@.len(),
            r@ == accepted(shader_model(*definition), list@.take(i as int)),
        decreases list@.len() - i,
    {
        proof {
            assert(list@.take(i + 1).drop_last() =~= list@.take(i as int));
            assert(list@.take(i + 1).last() == list@[i as int]);
        }
        let assignment = &list[i];
        let misfit = !assignment.fits && knows_property(
            definition,
            assignment.definition_id.as_str(),
        );
        if !misfit && is_keepable(&assignment.value) {
            r.push(
                ShaderPropertyAssignment {
                    definition_id: assignment.definition_id.clone(),
                    value: assignment.value.copy(),
                },
            );
        }
        i = i + 1;
    }
    assert(list@.take(list@.len() as int) =~= list@);
    r
}

fn carry_over(
    definition: &ShaderDefinition,
    own: Vec<ShaderPropertyAssignment>,
    previous: &Vec<ShaderPropertyAssignment>,
) -> (r: Vec<ShaderPropertyAssignment>)
    ensures
        r@ == carried_over(shader_model(*definition), own@, previous@),
{
    let ghost start = own@;
    let mut r = own;
    let mut i: usize = 0;
    assert(previous@.take(0) =~= Seq::<ShaderPropertyAssignment>::empty());
    while i < previous.len()
        invariant
            i <= previous@.len(),
            r@ == carried_over(shader_model(*definition), start, previous@.take(i as int)),
        decreases previous@.len() - i,
    {
        proof {
            assert(previous@.take(i + 1).drop_last() =~= previous@.take(i as int));
            assert(previous@.take(i + 1).last() == previous@[i as int]);
        }
        let assignment = &previous[i];
        let opaque = match &assignment.value {
            ShaderPropertyValue::Opaque { .. } => true,
            _ => false,
        };
        if (opaque || !knows_property(definition, assignment.definition_id.as_str()))
            && !is_assigned(&r, assignment.definition_id.as_str()) {
            r.push(assignment.copy());
        }
        i = i + 1;
    }
    assert(previous@.take(previous@.len() as int) =~= previous@);
    r
}

/// Builds the shader paint that a panel asks for.
pub fn shader_fill_from_design(payload: &ShaderPayload, previous: Option<&ShaderFill>) -> (fill:
    Option<ShaderFill>)
    ensures
        shader_built(
            *payload,
            (match previous {
                Some(before) => Some(*before),
                None => None,
            }),
            fill,
        ),
{
    let catalog = bundled_shader_catalog();
    let ghost models = catalog@.map_values(
        |definition: ShaderDefinition| shader_model(definition),
    );
    assert(catalog@.len() == models.len());
    assert(models[0] == shader_model(catalog@[0]));
    assert(models[1] == shader_model(catalog@[1]));
    let definition = if same_text(payload.shader_id.as_str(), catalog[0].id) {
        &catalog[0]
    } else if same_text(payload.shader_id.as_str(), catalog[1].id) {
        &catalog[1]
    } else {
        return None;
    };
    let own = accept(definition, &payload.properties);
    let properties = match previous {
        Some(before) => if same_text(before.shader_id.as_str(), payload.shader_id.as_str()) {
            carry_over(definition, own, &before.properties)
        } else {
            own
        },
        None => own,
    };
    Some(
        ShaderFill {
            shader_id: definition.id.to_owned(),
            name: definition.name.to_owned(),
            properties: Arc::new(properties),
        },
    )
}

// ---------------------------------------------------------------------------
// Laws
// ---------------------------------------------------------------------------

/// Nothing that cannot be kept enters a paint that held nothing of the kind.
pub proof fn lemma_accepted_keepable(shader: ShaderModel, list: Seq<ShaderAssignment>)
    ensures
        forall|i: int|
            0 <= i < accepted(shader, list).len() ==> keepable(
                (#[trigger] accepted(shader, list)[i]).value,
            ),
    decreases list.len(),
{
    if list.len() > 0 {
        let rest = accepted(shader, list.drop_last());
        let all = accepted(shader, list);
        lemma_accepted_keepable(shader, list.drop_last());
        assert forall|i: int| 0 <= i < all.len() implies keepable((#[trigger] all[i]).value) by {
            if i < rest.len() {
                assert(all[i] == rest[i]);
            }
        }
    }
}

/// Carrying over keeps the values that were asked for, in their places.
pub proof fn lemma_carried_over_keeps(
    shader: ShaderModel,
    list: Seq<ShaderPropertyAssignment>,
    previous: Seq<ShaderPropertyAssignment>,
)
    ensures
        list.len() <= carried_over(shader, list, previous).len(),
        carried_over(shader, list, previous).take(list.len() as int) == list,
    decreases previous.len(),
{
    if previous.len() > 0 {
        lemma_carried_over_keeps(shader, list, previous.drop_last());
        let rest = carried_over(shader, list, previous.drop_last());
        let all = carried_over(shader, list, previous);
        assert(all.take(list.len() as int) =~= rest.take(list.len() as int));
    } else {
        assert(list.take(list.len() as int) =~= list);
    }
}

/// A value of a property that the shader does not know survives an edit of the
/// same shader.
pub proof fn lemma_unknown_values_survive(
    shader: ShaderModel,
    list: Seq<ShaderPropertyAssignment>,
    previous: Seq<ShaderPropertyAssignment>,
    at: int,
)
    requires
        0 <= at < previous.len(),
        !has_property(shader, previous[at].definition_id@) || previous[at].value is Opaque,
    ensures
        assigns(carried_over(shader, list, previous), previous[at].definition_id@),
    decreases previous.len(),
{
    let id = previous[at].definition_id@;
    let rest = carried_over(shader, list, previous.drop_last());
    let all = carried_over(shader, list, previous);
    if at < previous.len() - 1 {
        lemma_unknown_values_survive(shader, list, previous.drop_last(), at);
        let i = choose|i: int| 0 <= i < rest.len() && (#[trigger] rest[i]).definition_id@ == id;
        assert(all[i] == rest[i]);
    } else if assigns(rest, id) {
        let i = choose|i: int| 0 <= i < rest.len() && (#[trigger] rest[i]).definition_id@ == id;
        assert(all[i] == rest[i]);
    } else {
        assert(all[rest.len() as int].definition_id@ == id);
    }
}

} // verus!
