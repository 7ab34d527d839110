//! Rendering configuration: numeric parameters in fixed-point milli units,
//! plus the two output-mode switches. Constructed once by the caller and
//! passed read-only through the pipeline.

use vstd::prelude::*;
use crate::fixed::{FX_ONE, COORD_LIMIT};

verus! {

/// Upper bound on the overall scale parameter (milli): a thousandfold
/// enlargement at most, so every derived factor stays within `COORD_LIMIT`.
pub const SCALE_LIMIT: i64 = 1_000_000;

/// The fixed offset factor applied to an ink drawing's own offset (milli):
/// 1270 whole units, an empirically fitted constant of the consumer format.
pub const INK_OFFSET_FACTOR: i64 = 1_270_000;

/// Base ink stroke width before the configurable factor (milli): 1.41 units.
pub const INK_BASE_WIDTH: i64 = 1410;

pub struct RenderConfig {
    /// Aggregate all pages of one source into a single output, instead of
    /// one output per page.
    pub aggregate_pages: bool,
    /// Overall output scaling (milli; `FX_ONE` is 1.0).
    pub scale: i64,
    /// Also keep the plain markup beside the compressed container.
    pub output_xml: bool,
    /// Padding added to both reported canvas dimensions (milli).
    pub page_padding: i64,
    /// Multiplier on the base ink stroke width (milli).
    pub ink_width_factor: i64,
    /// Minimum reported canvas width (milli).
    pub min_page_width: i64,
    /// Minimum reported canvas height (milli).
    pub min_page_height: i64,
}

pub open spec fn wf_config(c: RenderConfig) -> bool {
    &&& 0 <= c.scale <= SCALE_LIMIT
    &&& 0 <= c.page_padding <= COORD_LIMIT
    &&& 0 <= c.ink_width_factor <= COORD_LIMIT
    &&& 0 <= c.min_page_width <= COORD_LIMIT
    &&& 0 <= c.min_page_height <= COORD_LIMIT
}

/// Factor applied to an enclosing outline's offset (milli): `scale * 20`.
pub open spec fn spec_outline_offset_factor(c: RenderConfig) -> int {
    c.scale * 20
}

/// Factor applied to an image's width and height (milli): `scale * 20`.
pub open spec fn spec_image_scaling_factor(c: RenderConfig) -> int {
    c.scale * 20
}

/// Factor applied to an image's own offset (milli): `scale * 20`.
pub open spec fn spec_image_offset_factor(c: RenderConfig) -> int {
    c.scale * 20
}

/// Factor applied to every decoded ink coordinate (milli):
/// `scale * 16 / 1000`, i.e. 0.016 at the default scale.
pub open spec fn spec_ink_scaling_factor(c: RenderConfig) -> int {
    c.scale * 16 / 1000
}

impl RenderConfig {
    pub open spec fn wf(self) -> bool {
        wf_config(self)
    }

    pub fn outline_offset_factor(&self) -> (r: i64)
        requires
            self.wf(),
        ensures
            r == spec_outline_offset_factor(*self),
            0 <= r <= COORD_LIMIT,
    {
        self.scale * 20
    }

    pub fn image_scaling_factor(&self) -> (r: i64)
        requires
            self.wf(),
        ensures
            r == spec_image_scaling_factor(*self),
            0 <= r <= COORD_LIMIT,
    {
        self.scale * 20
    }

    pub fn image_offset_factor(&self) -> (r: i64)
        requires
            self.wf(),
        ensures
            r == spec_image_offset_factor(*self),
            0 <= r <= COORD_LIMIT,
    {
        self.scale * 20
    }

    pub fn ink_scaling_factor(&self) -> (r: i64)
        requires
            self.wf(),
        ensures
            r == spec_ink_scaling_factor(*self),
            0 <= r <= COORD_LIMIT,
    {
        self.scale * 16 / 1000
    }

    pub fn ink_offset_factor(&self) -> (r: i64)
        ensures
            r == INK_OFFSET_FACTOR,
    {
        INK_OFFSET_FACTOR
    }
}

impl Default for RenderConfig {
    /// The documented defaults: scale 1.0, padding 30 units, ink width
    /// factor 1.0, minimum canvas 595.276 by 841.890 units, split pages,
    /// no plain-markup copy.
    fn default() -> (r: RenderConfig)
        ensures
            r.aggregate_pages == false,
            r.scale == FX_ONE,
            r.output_xml == false,
            r.page_padding == 30 * FX_ONE,
            r.ink_width_factor == FX_ONE,
            r.min_page_width == 595_276,
            r.min_page_height == 841_890,
            r.wf(),
    {
        RenderConfig {
            aggregate_pages: false,
            scale: FX_ONE,
            output_xml: false,
            page_padding: 30 * FX_ONE,
            ink_width_factor: FX_ONE,
            min_page_width: 595_276,
            min_page_height: 841_890,
        }
    }
}

} // verus!
