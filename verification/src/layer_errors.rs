//! Why a layer command is refused.

use vstd::prelude::*;
use vstd::string::*;

verus! {

#[derive(Debug, PartialEq)]
pub enum LayerError {
    LockedOrPage,
    SelectedLocked,
    SelectedLockedOrPage,
    Locked,
    NoSelectionBounds,
    NoWorldTransform,
    SingularParent,
    ComponentToSection,
    NotGroup,
    NotInstance,
    NeedsPicker,
    NotLayoutFrame,
    PageGone,
    IntoDescendant,
    NoPageTransform,
    NoLayerTransform,
    SingularPage,
    NotImage,
    BadRatio,
    BadCrop,
    MissingLayer,
    NoMainComponent,
    NoStrokes,
    NothingToOutline,
    FrameWithoutBounds,
    InstanceLost,
    DocumentChanged,
    MediaTypeChanged,
    ReadOnly,
    NotAutoLayoutFrame,
    CopyPropertiesFirst,
    OtherDocument,
    NoVisibleBounds,
    CopyLayersFirst,
    AlreadyComponent,
    NoComponent,
    NotApplied,
    MediaTooLarge,
    DocumentClosed,
    NoGeometry,
    NoVectorGeometry,
    /// What the host reports about work of its own.
    Host(String),
}

/// The sentence that a notice shows for an error.
pub open spec fn error_text(error: LayerError) -> Seq<char> {
    match error {
        LayerError::LockedOrPage => "The layer is locked or is a page"@,
        LayerError::SelectedLocked => "A selected layer is locked"@,
        LayerError::SelectedLockedOrPage => "A selected layer is locked or is a page"@,
        LayerError::Locked => "The layer is locked"@,
        LayerError::NoSelectionBounds => "The selection has no bounds"@,
        LayerError::NoWorldTransform => "Missing world transform"@,
        LayerError::SingularParent => "The parent transform is singular"@,
        LayerError::ComponentToSection => "A component cannot be converted into a section"@,
        LayerError::NotGroup => "Choose a group or frame"@,
        LayerError::NotInstance => "Choose a component instance"@,
        LayerError::NeedsPicker => "This command requires a picker or an editor interaction"@,
        LayerError::NotLayoutFrame => "Only a layout frame can have its layout removed"@,
        LayerError::PageGone => "The destination page is gone"@,
        LayerError::IntoDescendant => "Cannot move into a descendant"@,
        LayerError::NoPageTransform => "Missing page transform"@,
        LayerError::NoLayerTransform => "Missing layer transform"@,
        LayerError::SingularPage => "The destination page transform is singular"@,
        LayerError::NotImage => "Choose an image layer"@,
        LayerError::BadRatio => "Crop ratio must be positive"@,
        LayerError::BadCrop =>
            "Crop coordinates must be percentages inside the image, with positive width and height"@,
        LayerError::MissingLayer => "Missing layer"@,
        LayerError::NoMainComponent => "The main component is unavailable"@,
        LayerError::NoStrokes => "The layer has no strokes"@,
        LayerError::NothingToOutline => "The layer has no strokes to outline"@,
        LayerError::FrameWithoutBounds => "The frame has no bounds"@,
        LayerError::InstanceLost => "Cannot preserve an instance of this component"@,
        LayerError::DocumentChanged => "The document changed while choosing media"@,
        LayerError::MediaTypeChanged => "The layer type changed while choosing media"@,
        LayerError::ReadOnly => "This document is read-only"@,
        LayerError::NotAutoLayoutFrame => "Choose an auto-layout frame"@,
        LayerError::CopyPropertiesFirst => "Copy layer properties first"@,
        LayerError::OtherDocument =>
            "Copy properties within this document so asset and variable references remain valid"@,
        LayerError::NoVisibleBounds => "The layer has no visible bounds"@,
        LayerError::CopyLayersFirst => "Copy layers first"@,
        LayerError::AlreadyComponent => "The layer is already a component"@,
        LayerError::NoComponent => "Could not create a component from this selection"@,
        LayerError::NotApplied => "The operation does not apply to this document"@,
        LayerError::MediaTooLarge => "Media must be smaller than 256 MB"@,
        LayerError::DocumentClosed => "The document is closed"@,
        LayerError::NoGeometry => "The layer has no geometry"@,
        LayerError::NoVectorGeometry => "This layer has no editable vector geometry"@,
        LayerError::Host(text) => text@,
    }
}

impl LayerError {
    pub fn copy(&self) -> (r: Self)
        ensures
            r == *self,
    {
        match self {
            LayerError::LockedOrPage => LayerError::LockedOrPage,
            LayerError::SelectedLocked => LayerError::SelectedLocked,
            LayerError::SelectedLockedOrPage => LayerError::SelectedLockedOrPage,
            LayerError::Locked => LayerError::Locked,
            LayerError::NoSelectionBounds => LayerError::NoSelectionBounds,
            LayerError::NoWorldTransform => LayerError::NoWorldTransform,
            LayerError::SingularParent => LayerError::SingularParent,
            LayerError::ComponentToSection => LayerError::ComponentToSection,
            LayerError::NotGroup => LayerError::NotGroup,
            LayerError::NotInstance => LayerError::NotInstance,
            LayerError::NeedsPicker => LayerError::NeedsPicker,
            LayerError::NotLayoutFrame => LayerError::NotLayoutFrame,
            LayerError::PageGone => LayerError::PageGone,
            LayerError::IntoDescendant => LayerError::IntoDescendant,
            LayerError::NoPageTransform => LayerError::NoPageTransform,
            LayerError::NoLayerTransform => LayerError::NoLayerTransform,
            LayerError::SingularPage => LayerError::SingularPage,
            LayerError::NotImage => LayerError::NotImage,
            LayerError::BadRatio => LayerError::BadRatio,
            LayerError::BadCrop => LayerError::BadCrop,
            LayerError::MissingLayer => LayerError::MissingLayer,
            LayerError::NoMainComponent => LayerError::NoMainComponent,
            LayerError::NoStrokes => LayerError::NoStrokes,
            LayerError::NothingToOutline => LayerError::NothingToOutline,
            LayerError::FrameWithoutBounds => LayerError::FrameWithoutBounds,
            LayerError::InstanceLost => LayerError::InstanceLost,
            LayerError::DocumentChanged => LayerError::DocumentChanged,
            LayerError::MediaTypeChanged => LayerError::MediaTypeChanged,
            LayerError::ReadOnly => LayerError::ReadOnly,
            LayerError::NotAutoLayoutFrame => LayerError::NotAutoLayoutFrame,
            LayerError::CopyPropertiesFirst => LayerError::CopyPropertiesFirst,
            LayerError::OtherDocument => LayerError::OtherDocument,
            LayerError::NoVisibleBounds => LayerError::NoVisibleBounds,
            LayerError::CopyLayersFirst => LayerError::CopyLayersFirst,
            LayerError::AlreadyComponent => LayerError::AlreadyComponent,
            LayerError::NoComponent => LayerError::NoComponent,
            LayerError::NotApplied => LayerError::NotApplied,
            LayerError::MediaTooLarge => LayerError::MediaTooLarge,
            LayerError::DocumentClosed => LayerError::DocumentClosed,
            LayerError::NoGeometry => LayerError::NoGeometry,
            LayerError::NoVectorGeometry => LayerError::NoVectorGeometry,
            LayerError::Host(text) => LayerError::Host(text.clone()),
        }
    }

    /// The sentence that a notice shows.
    pub fn message(&self) -> (text: String)
        ensures
            text@ == error_text(*self),
    {
        let text: &str = match self {
            LayerError::LockedOrPage => "The layer is locked or is a page",
            LayerError::SelectedLocked => "A selected layer is locked",
            LayerError::SelectedLockedOrPage => "A selected layer is locked or is a page",
            LayerError::Locked => "The layer is locked",
            LayerError::NoSelectionBounds => "The selection has no bounds",
            LayerError::NoWorldTransform => "Missing world transform",
            LayerError::SingularParent => "The parent transform is singular",
            LayerError::ComponentToSection => "A component cannot be converted into a section",
            LayerError::NotGroup => "Choose a group or frame",
            LayerError::NotInstance => "Choose a component instance",
            LayerError::NeedsPicker => "This command requires a picker or an editor interaction",
            LayerError::NotLayoutFrame => "Only a layout frame can have its layout removed",
            LayerError::PageGone => "The destination page is gone",
            LayerError::IntoDescendant => "Cannot move into a descendant",
            LayerError::NoPageTransform => "Missing page transform",
            LayerError::NoLayerTransform => "Missing layer transform",
            LayerError::SingularPage => "The destination page transform is singular",
            LayerError::NotImage => "Choose an image layer",
            LayerError::BadRatio => "Crop ratio must be positive",
            LayerError::BadCrop =>
                "Crop coordinates must be percentages inside the image, with positive width and height",
            LayerError::MissingLayer => "Missing layer",
            LayerError::NoMainComponent => "The main component is unavailable",
            LayerError::NoStrokes => "The layer has no strokes",
            LayerError::NothingToOutline => "The layer has no strokes to outline",
            LayerError::FrameWithoutBounds => "The frame has no bounds",
            LayerError::InstanceLost => "Cannot preserve an instance of this component",
            LayerError::DocumentChanged => "The document changed while choosing media",
            LayerError::MediaTypeChanged => "The layer type changed while choosing media",
            LayerError::ReadOnly => "This document is read-only",
            LayerError::NotAutoLayoutFrame => "Choose an auto-layout frame",
            LayerError::CopyPropertiesFirst => "Copy layer properties first",
            LayerError::OtherDocument =>
                "Copy properties within this document so asset and variable references remain valid",
            LayerError::NoVisibleBounds => "The layer has no visible bounds",
            LayerError::CopyLayersFirst => "Copy layers first",
            LayerError::AlreadyComponent => "The layer is already a component",
            LayerError::NoComponent => "Could not create a component from this selection",
            LayerError::NotApplied => "The operation does not apply to this document",
            LayerError::MediaTooLarge => "Media must be smaller than 256 MB",
            LayerError::DocumentClosed => "The document is closed",
            LayerError::NoGeometry => "The layer has no geometry",
            LayerError::NoVectorGeometry => "This layer has no editable vector geometry",
            LayerError::Host(text) => text.as_str(),
        };
        text.to_owned()
    }
}

} // verus!
