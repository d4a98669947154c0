//! Responsive device classes: window-width breakpoints and their preset sizes.

use vstd::prelude::*;

use crate::geometry::Size;

verus! {

/// A responsive breakpoint, classified by window width in device pixels:
/// Mobile is `width < 768`, Tablet is `768..=1024`, Desktop is `width >= 1025`.
#[derive(Debug, Clone, Copy, PartialEq, Eq, Structural)]
pub enum DeviceClass {
    /// Narrow window: `width < 768`.
    Mobile,
    /// Medium window: `768 <= width <= 1024`.
    Tablet,
    /// Wide window: `width >= 1025`. The default.
    Desktop,
}

impl Default for DeviceClass {
    fn default() -> (d: Self)
        ensures
            d == DeviceClass::Desktop,
    {
        DeviceClass::Desktop
    }
}

/// First width (device px) of the Tablet band; anything narrower is Mobile.
pub const TABLET_MIN_PX: u32 = 768;

/// First width (device px) of the Desktop band.
pub const DESKTOP_MIN_PX: u32 = 1025;

impl DeviceClass {
    /// The class of a window `width` device pixels wide.
    pub open spec fn of_width(width: u32) -> DeviceClass {
        if width >= DESKTOP_MIN_PX {
            DeviceClass::Desktop
        } else if width >= TABLET_MIN_PX {
            DeviceClass::Tablet
        } else {
            DeviceClass::Mobile
        }
    }

    /// The representative window size of a class.
    pub open spec fn preset(self) -> Size {
        match self {
            DeviceClass::Mobile => Size { w: 360, h: 640 },
            DeviceClass::Tablet => Size { w: 768, h: 1024 },
            DeviceClass::Desktop => Size { w: 1280, h: 720 },
        }
    }

    /// Classify a window width (device px) into its device class.
    pub fn for_width(width: u32) -> (d: Self)
        ensures
            d == Self::of_width(width),
    {
        if width >= DESKTOP_MIN_PX {
            DeviceClass::Desktop
        } else if width >= TABLET_MIN_PX {
            DeviceClass::Tablet
        } else {
            DeviceClass::Mobile
        }
    }

    /// A representative initial window size (device px) for the class.
    pub fn preset_size(self) -> (s: Size)
        ensures
            s == self.preset(),
    {
        match self {
            DeviceClass::Mobile => Size::new(360, 640),
            DeviceClass::Tablet => Size::new(768, 1024),
            DeviceClass::Desktop => Size::new(1280, 720),
        }
    }
}

/// Opening at a class's preset and reclassifying by width agree: each preset's
/// width falls in its own band.
pub proof fn law_preset_classifies_back(d: DeviceClass)
    ensures
        DeviceClass::of_width(d.preset().w) == d,
{
}

/// The bands are ordered: a wider window never lands in a narrower class.
pub proof fn law_bands_are_monotone(a: u32, b: u32)
    requires
        a <= b,
    ensures
        DeviceClass::of_width(a) is Desktop ==> DeviceClass::of_width(b) is Desktop,
        DeviceClass::of_width(b) is Mobile ==> DeviceClass::of_width(a) is Mobile,
{
}

} // verus!
