//! The view's pixel dimensions, the events that change the view, and the
//! requests to render it.

use vstd::prelude::*;

verus! {

/// The height of the unscaled view in the complex plane. Half of it, times
/// the scale, is the distance from the centre to the upper and lower edge.
pub const BASE_SPAN: u32 = 3;

/// The pixel dimensions of the view as last allocated.
#[derive(Clone, Copy, Debug, PartialEq, Eq, Structural)]
pub struct ViewSize {
    pub height: i32,
    pub width: i32,
}

/// Why a render request was turned down.
#[derive(Clone, Copy, Debug, PartialEq, Eq, Structural)]
pub enum RenderError {
    /// The height is zero, so the view has no width ratio.
    ZeroHeight,
    /// The height is negative, so the view has no rows.
    NegativeHeight,
}

/// The whole-number part of a render request that passed the checks.
#[derive(Clone, Copy, Debug, PartialEq, Eq, Structural)]
pub struct RenderRequest {
    /// The number of pixel rows, positive.
    pub resolution_y: usize,
    /// The numerator of the width ratio.
    pub width: i32,
    /// The denominator of the width ratio, positive.
    pub height: i32,
}

/// The direction of a zoom.
#[derive(Clone, Copy, Debug, PartialEq, Eq, Structural)]
pub enum Zoom {
    In,
    Out,
}

/// The state after a resize event, and whether the event asks for a render:
/// it does unless both dimensions are what they were.
pub open spec fn spec_resize(size: ViewSize, new_height: i32, new_width: i32) -> (ViewSize, bool) {
    if size.height == new_height && size.width == new_width {
        (size, false)
    } else {
        (ViewSize { height: new_height, width: new_width }, true)
    }
}

/// Which heights and widths can be rendered.
pub open spec fn spec_request(height: i32, width: i32) -> Result<RenderRequest, RenderError> {
    if height == 0 {
        Err(RenderError::ZeroHeight)
    } else if height < 0 {
        Err(RenderError::NegativeHeight)
    } else {
        Ok(RenderRequest { resolution_y: height as usize, width, height })
    }
}

impl ViewSize {
    /// The size before the first allocation.
    pub fn new() -> (size: ViewSize)
        ensures
            size == (ViewSize { height: 0, width: 0 }),
    {
        ViewSize { height: 0, width: 0 }
    }

    /// Takes a resize event. Returns whether a render is due.
    pub fn resize(&mut self, new_height: i32, new_width: i32) -> (render: bool)
        ensures
            (*final(self), render) == spec_resize(*old(self), new_height, new_width),
            final(self).height == new_height,
            final(self).width == new_width,
    {
        if self.height == new_height && self.width == new_width {
            return false;
        }
        self.width = new_width;
        self.height = new_height;
        true
    }

    /// The render request for the view at its present size.
    pub fn request(&self) -> (request: Result<RenderRequest, RenderError>)
        ensures
            request == spec_request(self.height, self.width),
    {
        render_request(self.height, self.width)
    }
}

/// Checks the dimensions of a render before it is dispatched.
pub fn render_request(height: i32, width: i32) -> (request: Result<RenderRequest, RenderError>)
    ensures
        request == spec_request(height, width),
        request.is_ok() <==> height > 0,
{
    if height == 0 {
        Err(RenderError::ZeroHeight)
    } else if height < 0 {
        Err(RenderError::NegativeHeight)
    } else {
        Ok(RenderRequest { resolution_y: height as usize, width, height })
    }
}

/// The zoom that a pointer button stands for: the first button zooms in,
/// every other button zooms out.
pub fn zoom_for_button(button: u32) -> (zoom: Zoom)
    ensures
        zoom == if button == 1 { Zoom::In } else { Zoom::Out },
{
    if button == 1 {
        Zoom::In
    } else {
        Zoom::Out
    }
}

impl Zoom {
    /// The factor that the zoom puts on the scale, in tenths.
    pub open spec fn spec_tenths(self) -> u32 {
        match self {
            Zoom::In => 8u32,
            Zoom::Out => 12u32,
        }
    }

    pub fn tenths(self) -> (t: u32)
        ensures
            t == self.spec_tenths(),
    {
        match self {
            Zoom::In => 8,
            Zoom::Out => 12,
        }
    }
}

/// A resize to the size that the view was just given asks for nothing: of
/// two equal resize events in a row the second never renders and leaves the
/// state alone, and the first renders exactly when it changes the size.
pub proof fn lemma_resize_idempotent(size: ViewSize, height: i32, width: i32)
    ensures
        ({
            let (first, first_renders) = spec_resize(size, height, width);
            let (second, second_renders) = spec_resize(first, height, width);
            &&& !second_renders
            &&& second == first
            &&& first == (ViewSize { height, width })
            &&& first_renders <==> size != first
        }),
{
}

} // verus!
