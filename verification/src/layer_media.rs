//! New media for picture and video layers.

use vstd::prelude::*;

use crate::document::{BitmapNode, CanvasNode, Doc, NodeData, PixelSize, VideoNode};
use crate::ids::{AssetId, DocId, NodeId};
use crate::layer_context_ops::{editable, replace_data};
use crate::layer_errors::LayerError;
use crate::operations::Operation;

verus! {

/// The kind of media that a layer takes.
#[derive(Clone, Copy, Debug, PartialEq, Eq, Structural)]
pub enum MediaSlot {
    Image,
    Video,
}

#[derive(Clone, Copy, Debug, PartialEq, Eq, Structural)]
pub struct Poster {
    pub asset: AssetId,
    pub time_us: u64,
}

/// Media that the host has stored.
#[allow(inconsistent_fields)]
#[derive(Clone, Copy, Debug, PartialEq, Eq, Structural)]
pub enum NewMedia {
    Image { asset: AssetId, natural_size: PixelSize },
    Video {
        asset: AssetId,
        natural_size: PixelSize,
        duration_us: u64,
        poster: Option<Poster>,
    },
}

impl NewMedia {
    /// The assets stored for the media, a poster before its video.
    pub open spec fn asset_list(self) -> Seq<AssetId> {
        match self {
            NewMedia::Image { asset, .. } => seq![asset],
            NewMedia::Video { asset, poster, .. } => match poster {
                Some(poster) => seq![poster.asset, asset],
                None => seq![asset],
            },
        }
    }

    pub fn assets(&self) -> (assets: Vec<AssetId>)
        ensures
            assets@ == self.asset_list(),
    {
        let mut assets: Vec<AssetId> = Vec::new();
        match self {
            NewMedia::Image { asset, .. } => {
                assets.push(*asset);
            },
            NewMedia::Video { asset, poster, .. } => {
                if let Some(poster) = poster {
                    assets.push(poster.asset);
                }
                assets.push(*asset);
            },
        }
        assert(assets@ =~= self.asset_list());
        assets
    }
}

pub fn media_slot(node: &CanvasNode) -> (slot: MediaSlot)
    ensures
        slot == (if *node.data is Video {
            MediaSlot::Video
        } else {
            MediaSlot::Image
        }),
{
    match &*node.data {
        NodeData::Video(_) => MediaSlot::Video,
        _ => MediaSlot::Image,
    }
}

/// The layer's data with the new media: a picture for a picture, a video for a
/// video. A picture loses its crop, a video plays whole.
pub open spec fn with_media(data: NodeData, media: NewMedia) -> Option<NodeData> {
    match (data, media) {
        (NodeData::Bitmap(bitmap), NewMedia::Image { asset, natural_size }) => Some(
            NodeData::Bitmap(
                BitmapNode { asset: asset, natural_size: natural_size, crop: None, ..bitmap },
            ),
        ),
        (
            NodeData::Video(video),
            NewMedia::Video { asset, natural_size, duration_us, poster },
        ) => Some(
            NodeData::Video(
                VideoNode {
                    asset: asset,
                    natural_size: natural_size,
                    start_us: 0,
                    end_us: duration_us,
                    poster: match poster {
                        Some(poster) => Some(poster.asset),
                        None => None,
                    },
                    poster_frame_us: match poster {
                        Some(poster) => Some(poster.time_us),
                        None => None,
                    },
                    ..video
                },
            ),
        ),
        _ => None,
    }
}

/// Why the media does not go into the layer.
pub open spec fn media_refusal(
    doc: Doc,
    expected: DocId,
    id: NodeId,
    media: NewMedia,
) -> Option<LayerError> {
    if doc.id != expected {
        Some(LayerError::DocumentChanged)
    } else if !crate::layer_context_ops::can_edit(doc, id) {
        Some(LayerError::Locked)
    } else if with_media(*crate::scene::find(doc.nodes@, id)->0.data, media) is None {
        Some(LayerError::MediaTypeChanged)
    } else {
        None
    }
}

/// The document holds the new media in the layer, and is otherwise as it was.
pub open spec fn media_replaced(before: Doc, after: Doc, id: NodeId, media: NewMedia) -> bool {
    let node = before.content().nodes[id];
    &&& after.keeps_rest(before)
    &&& after.content().components == before.content().components
    &&& after.content().sets == before.content().sets
    &&& after.content().tracks == before.content().tracks
    &&& after.content().nodes.dom() == before.content().nodes.dom()
    &&& forall|other: NodeId| #[trigger]
        before.content().nodes.dom().contains(other) && other != id ==> after.content().nodes[other]
            == before.content().nodes[other]
    &&& after.content().nodes[id] == (CanvasNode { data: after.content().nodes[id].data, ..node })
    &&& with_media(*node.data, media) == Some(*after.content().nodes[id].data)
}

fn put_media(data: &NodeData, media: &NewMedia) -> (r: Option<NodeData>)
    ensures
        r == with_media(*data, *media),
{
    match (data, media) {
        (NodeData::Bitmap(bitmap), NewMedia::Image { asset, natural_size }) => Some(
            NodeData::Bitmap(
                BitmapNode { asset: *asset, natural_size: *natural_size, crop: None, ..*bitmap },
            ),
        ),
        (
            NodeData::Video(video),
            NewMedia::Video { asset, natural_size, duration_us, poster },
        ) => Some(
            NodeData::Video(
                VideoNode {
                    asset: *asset,
                    natural_size: *natural_size,
                    start_us: 0,
                    end_us: *duration_us,
                    poster: match poster {
                        Some(poster) => Some(poster.asset),
                        None => None,
                    },
                    poster_frame_us: match poster {
                        Some(poster) => Some(poster.time_us),
                        None => None,
                    },
                    ..*video
                },
            ),
        ),
        _ => None,
    }
}

/// Puts media in the place of a layer's. The document must still be the one
/// that the media was chosen for, and the layer must still take its kind. Gives
/// back the operation that did it.
pub fn replace_media(doc: &mut Doc, expected: DocId, id: NodeId, media: &NewMedia) -> (r: Result<
    Operation,
    LayerError,
>)
    requires
        old(doc).well_formed(),
    ensures
        final(doc).well_formed(),
        match media_refusal(*old(doc), expected, id, *media) {
            Some(error) => r == Err::<Operation, LayerError>(error) && *final(doc) == *old(doc),
            None => r matches Ok(operation) && media_replaced(
                *old(doc),
                *final(doc),
                id,
                *media,
            ) && final(doc).content() == crate::operations::applied(
                old(doc).content(),
                operation,
            ),
        },
{
    if doc.id.raw != expected.raw {
        return Err(LayerError::DocumentChanged);
    }
    if !editable(doc, id) {
        return Err(LayerError::Locked);
    }
    proof {
        crate::operations::lemma_find_is_content(*doc, id);
    }
    let operation = match doc.get(id) {
        None => {
            return Err(LayerError::Locked);
        },
        Some(node) => match put_media(&node.data, media) {
            None => {
                return Err(LayerError::MediaTypeChanged);
            },
            Some(data) => replace_data(node, data),
        },
    };
    match doc.apply(&operation) {
        Ok(_) => {
            proof {
                assert(doc.content().nodes.dom() =~= old(doc).content().nodes.dom());
            }
            Ok(operation)
        },
        Err(_) => Err(LayerError::NotApplied),
    }
}

} // verus!
