//! Edits whose operations only the host can make, because they take arithmetic on
//! numbers or code of the document's own: the host hands in one function that makes
//! the operations of such an edit on a document.

use vstd::prelude::*;

use crate::design_paint_view::CropPlace;
use crate::design_properties::PropertyEdit;
use crate::design_targets::ArrangeStep;
use crate::document::{BoundProp, Doc, VarValue};
use crate::ids::{ComponentPropId, NodeId};
use crate::operations::{extend, Operation};
use crate::scalar::Scalar;

verus! {

/// An edit that is handed to the host.
#[derive(Debug, PartialEq)]
pub enum HostEdit {
    /// An edit of a property that asks for more than operations.
    Property { id: NodeId, edit: PropertyEdit },
    /// The opacity of a paint, written through its field.
    PaintOpacity { place: CropPlace, percent: Scalar },
    /// A step of arranging the selected layers.
    Arrange(ArrangeStep),
    AddFill { id: NodeId },
    RemoveFill { id: NodeId, index: usize },
    /// An instance becomes plain layers.
    Detach { id: NodeId },
    /// The property of an instance gets a value, or its component's own.
    SetProp { id: NodeId, prop: ComponentPropId, value: Option<VarValue> },
    /// A property is bound to no variable any more.
    Unbind { id: NodeId, prop: BoundProp },
}

/// The operations of an edit of a property: its own, or those that the host makes
/// of it.
pub open spec fn realized<H: Fn(&Doc, HostEdit) -> Vec<Operation>>(
    host: H,
    seen: Doc,
    id: NodeId,
    edit: PropertyEdit,
    operations: Vec<Operation>,
) -> bool {
    match edit {
        PropertyEdit::Operations(built) => operations == built,
        _ => host.ensures((&seen, HostEdit::Property { id: id, edit: edit }), operations),
    }
}

/// The operations of an edit of a property.
pub fn realize<H: Fn(&Doc, HostEdit) -> Vec<Operation>>(
    host: &H,
    doc: &Doc,
    id: NodeId,
    edit: PropertyEdit,
) -> (operations: Vec<Operation>)
    requires
        forall|edit: HostEdit| #[trigger] host.requires((doc, edit)),
    ensures
        realized(*host, *doc, id, edit, operations),
{
    match edit {
        PropertyEdit::Operations(operations) => operations,
        other => (*host)(doc, HostEdit::Property { id, edit: other }),
    }
}

/// The lists one behind the other.
pub open spec fn joined(parts: Seq<Vec<Operation>>) -> Seq<Operation>
    decreases parts.len(),
{
    if parts.len() == 0 {
        Seq::empty()
    } else {
        joined(parts.drop_last()) + parts.last()@
    }
}

/// Every part is made of one edit, all on the same document.
pub open spec fn parts_realized<H: Fn(&Doc, HostEdit) -> Vec<Operation>>(
    host: H,
    seen: Doc,
    steps: Seq<(NodeId, PropertyEdit)>,
    parts: Seq<Vec<Operation>>,
) -> bool {
    &&& parts.len() == steps.len()
    &&& forall|i: int|
        0 <= i < steps.len() ==> realized(
            host,
            seen,
            (#[trigger] steps[i]).0,
            steps[i].1,
            parts[i],
        )
}

/// The operations of several edits of properties, all built on the same document.
pub open spec fn all_realized<H: Fn(&Doc, HostEdit) -> Vec<Operation>>(
    host: H,
    seen: Doc,
    steps: Seq<(NodeId, PropertyEdit)>,
    operations: Seq<Operation>,
) -> bool {
    exists|parts: Seq<Vec<Operation>>| #[trigger]
        parts_realized(host, seen, steps, parts) && operations == joined(parts)
}

/// The operations of several edits of properties.
pub fn realize_all<H: Fn(&Doc, HostEdit) -> Vec<Operation>>(
    host: &H,
    doc: &Doc,
    steps: Vec<(NodeId, PropertyEdit)>,
) -> (operations: Vec<Operation>)
    requires
        forall|edit: HostEdit| #[trigger] host.requires((doc, edit)),
    ensures
        all_realized(*host, *doc, steps@, operations@),
{
    let ghost wanted = steps@;
    let mut steps = steps;
    let mut operations: Vec<Operation> = Vec::new();
    let ghost mut parts: Seq<Vec<Operation>> = Seq::empty();
    while steps.len() > 0
        invariant
            parts.len() + steps@.len() == wanted.len(),
            steps@ == wanted.skip(parts.len() as int),
            forall|i: int|
                0 <= i < parts.len() ==> realized(
                    *host,
                    *doc,
                    (#[trigger] wanted[i]).0,
                    wanted[i].1,
                    parts[i],
                ),
            operations@ == joined(parts),
            forall|edit: HostEdit| #[trigger] host.requires((doc, edit)),
        decreases steps@.len(),
    {
        let ghost at = parts.len() as int;
        let (id, edit) = steps.remove(0);
        let part = realize(host, doc, id, edit);
        extend(&mut operations, &part);
        proof {
            let more = parts.push(part);
            assert(more.drop_last() =~= parts);
            assert(wanted[at] == (id, edit));
            assert(steps@ =~= wanted.skip(at + 1));
            assert forall|i: int| 0 <= i < more.len() implies realized(
                *host,
                *doc,
                (#[trigger] wanted[i]).0,
                wanted[i].1,
                more[i],
            ) by {
                if i < at {
                    assert(more[i] == parts[i]);
                }
            }
            parts = more;
        }
    }
    assert(parts_realized(*host, *doc, wanted, parts));
    operations
}

} // verus!
