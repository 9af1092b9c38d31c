//! Switches that turn surfaces off, and what a surface supports.

use vstd::prelude::*;

use crate::design_values::DesignBlendMode;
use crate::text::same_text;

verus! {

/// A surface is on unless its switch says `0`, `false` or `off`.
pub open spec fn switched_on(value: Option<&str>) -> bool {
    match value {
        Some(value) => value@ != "0"@ && value@ != "false"@ && value@ != "off"@,
        None => true,
    }
}

/// What the switch of a surface says; without one the surface is on.
pub fn env_enabled(value: Option<&str>) -> (on: bool)
    ensures
        on == switched_on(value),
{
    match value {
        Some(value) => !same_text(value, "0") && !same_text(value, "false") && !same_text(
            value,
            "off",
        ),
        None => true,
    }
}

/// A surface is mounted where it is switched on and its theme is there.
pub fn runtime_enabled(value: Option<&str>, themed: bool) -> (on: bool)
    ensures
        on == (switched_on(value) && themed),
{
    env_enabled(value) && themed
}

#[derive(Clone, Copy, Debug, PartialEq, Eq, Structural)]
pub enum PaintType {
    Solid,
    Gradient,
    Pattern,
    Image,
    Video,
    Shader,
}

/// A text takes plain colors only, and videos play where the system plays them.
pub open spec fn paint_types(text: bool, plays_video: bool) -> Seq<PaintType> {
    if text {
        seq![PaintType::Solid]
    } else if plays_video {
        seq![
            PaintType::Solid,
            PaintType::Gradient,
            PaintType::Pattern,
            PaintType::Image,
            PaintType::Video,
            PaintType::Shader,
        ]
    } else {
        seq![
            PaintType::Solid,
            PaintType::Gradient,
            PaintType::Pattern,
            PaintType::Image,
            PaintType::Shader,
        ]
    }
}

pub fn supported_paint_types(text: bool, plays_video: bool) -> (types: Vec<PaintType>)
    ensures
        types@ == paint_types(text, plays_video),
{
    let mut types: Vec<PaintType> = Vec::new();
    types.push(PaintType::Solid);
    if !text {
        types.push(PaintType::Gradient);
        types.push(PaintType::Pattern);
        types.push(PaintType::Image);
        if plays_video {
            types.push(PaintType::Video);
        }
        types.push(PaintType::Shader);
    }
    assert(types@ =~= paint_types(text, plays_video));
    types
}

/// Documents keep no linear burn and no linear dodge.
pub fn blend_mode_offered(mode: DesignBlendMode) -> (offered: bool)
    ensures
        offered == (mode != DesignBlendMode::LinearBurn && mode != DesignBlendMode::LinearDodge),
{
    match mode {
        DesignBlendMode::LinearBurn => false,
        DesignBlendMode::LinearDodge => false,
        _ => true,
    }
}

/// Every blend mode that is offered can be set.
pub proof fn lemma_offered_blend_is_kept(mode: DesignBlendMode)
    requires
        mode != DesignBlendMode::LinearBurn,
        mode != DesignBlendMode::LinearDodge,
        mode != DesignBlendMode::PassThrough,
    ensures
        crate::design_values::stored_blend(mode) is Some,
{
    let engine = match mode {
        DesignBlendMode::Normal => crate::paint::BlendMode::Normal,
        DesignBlendMode::Multiply => crate::paint::BlendMode::Multiply,
        DesignBlendMode::Screen => crate::paint::BlendMode::Screen,
        DesignBlendMode::Overlay => crate::paint::BlendMode::Overlay,
        DesignBlendMode::Darken => crate::paint::BlendMode::Darken,
        DesignBlendMode::Lighten => crate::paint::BlendMode::Lighten,
        DesignBlendMode::ColorDodge => crate::paint::BlendMode::ColorDodge,
        DesignBlendMode::ColorBurn => crate::paint::BlendMode::ColorBurn,
        DesignBlendMode::HardLight => crate::paint::BlendMode::HardLight,
        DesignBlendMode::SoftLight => crate::paint::BlendMode::SoftLight,
        DesignBlendMode::Difference => crate::paint::BlendMode::Difference,
        DesignBlendMode::Exclusion => crate::paint::BlendMode::Exclusion,
        DesignBlendMode::Hue => crate::paint::BlendMode::Hue,
        DesignBlendMode::Saturation => crate::paint::BlendMode::Saturation,
        DesignBlendMode::Color => crate::paint::BlendMode::Color,
        _ => crate::paint::BlendMode::Luminosity,
    };
    assert(crate::design_values::blend_shown(engine) == mode);
    crate::design_values::lemma_blend_round_trip(engine);
}

} // verus!
