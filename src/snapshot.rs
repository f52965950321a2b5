//! How the pixels of an image snapshot are laid out, and what converting
//! them to another layout takes.
use vstd::prelude::*;

verus! {

/// The order of the colour channels of a pixel.
#[derive(Clone, Copy, Debug, PartialEq, Eq, Structural)]
pub enum PixelFormat {
    RGBA,
    BGRA,
}

impl Default for PixelFormat {
    fn default() -> (r: Self)
        ensures
            r == PixelFormat::RGBA,
    {
        PixelFormat::RGBA
    }
}

/// A type that tells the pixel format of a snapshot.
pub trait PixelFormatTrait {
    spec fn spec_format(&self) -> PixelFormat;

    fn format(&self) -> (r: PixelFormat)
        ensures
            r == self.spec_format(),
    ;
}

impl PixelFormatTrait for PixelFormat {
    open spec fn spec_format(&self) -> PixelFormat {
        *self
    }

    fn format(&self) -> (r: PixelFormat) {
        *self
    }
}

/// A pixel format fixed by the type.
pub trait ConstPixelFormat {
    const PIXEL_FORMAT: PixelFormat;
}

/// Channels in red, green, blue, alpha order, fixed by the type.
#[derive(Debug, Default)]
pub struct RGBA;

/// Channels in blue, green, red, alpha order, fixed by the type.
#[derive(Debug, Default)]
pub struct BGRA;

impl ConstPixelFormat for RGBA {
    const PIXEL_FORMAT: PixelFormat = PixelFormat::RGBA;
}

impl ConstPixelFormat for BGRA {
    const PIXEL_FORMAT: PixelFormat = PixelFormat::BGRA;
}

impl PixelFormatTrait for RGBA {
    open spec fn spec_format(&self) -> PixelFormat {
        PixelFormat::RGBA
    }

    fn format(&self) -> (r: PixelFormat) {
        RGBA::PIXEL_FORMAT
    }
}

impl PixelFormatTrait for BGRA {
    open spec fn spec_format(&self) -> PixelFormat {
        PixelFormat::BGRA
    }

    fn format(&self) -> (r: PixelFormat) {
        BGRA::PIXEL_FORMAT
    }
}

/// How the alpha channel of a snapshot is to be read.
#[derive(Clone, Copy, Debug, PartialEq, Eq, Structural)]
pub enum AlphaMode {
    /// The data is opaque: alpha is cleared to its maximum.
    Opaque,
    /// The data is to be treated as opaque, whatever its alpha holds.
    AsOpaque { premultiplied: bool },
    /// The data is not opaque.
    Transparent { premultiplied: bool },
}

impl Default for AlphaMode {
    fn default() -> (r: Self)
        ensures
            r == (AlphaMode::Transparent { premultiplied: true }),
    {
        AlphaMode::Transparent { premultiplied: true }
    }
}

impl AlphaMode {
    /// Whether the colour channels are multiplied by alpha. Opaque data
    /// counts as premultiplied.
    pub open spec fn spec_is_premultiplied(&self) -> bool {
        match *self {
            AlphaMode::Opaque => true,
            AlphaMode::AsOpaque { premultiplied } => premultiplied,
            AlphaMode::Transparent { premultiplied } => premultiplied,
        }
    }

    /// Whether the data is, or is to be treated as, opaque.
    pub open spec fn spec_is_opaque(&self) -> bool {
        !(*self is Transparent)
    }

    #[verifier::when_used_as_spec(spec_is_premultiplied)]
    pub fn is_premultiplied(&self) -> (r: bool)
        ensures
            r == self.spec_is_premultiplied(),
    {
        match self {
            AlphaMode::Opaque => true,
            AlphaMode::AsOpaque { premultiplied } => *premultiplied,
            AlphaMode::Transparent { premultiplied } => *premultiplied,
        }
    }

    #[verifier::when_used_as_spec(spec_is_opaque)]
    pub fn is_opaque(&self) -> (r: bool)
        ensures
            r == self.spec_is_opaque(),
    {
        match self {
            AlphaMode::Opaque | AlphaMode::AsOpaque { .. } => true,
            AlphaMode::Transparent { .. } => false,
        }
    }
}

/// A type that tells the alpha mode of a snapshot.
pub trait AlphaModeTrait {
    spec fn spec_alpha_mode(&self) -> AlphaMode;

    fn alpha_mode(&self) -> (r: AlphaMode)
        ensures
            r == self.spec_alpha_mode(),
    ;
}

impl AlphaModeTrait for AlphaMode {
    open spec fn spec_alpha_mode(&self) -> AlphaMode {
        *self
    }

    fn alpha_mode(&self) -> (r: AlphaMode) {
        *self
    }
}

/// An alpha mode fixed by the type.
pub trait ConstAlphaMode {
    spec fn spec_alpha_mode_of_type() -> AlphaMode;

    fn alpha_mode_of_type() -> (r: AlphaMode)
        ensures
            r == Self::spec_alpha_mode_of_type(),
    ;
}

/// Opaque data, fixed by the type.
#[derive(Debug, Default)]
pub struct Opaque;

/// Data treated as opaque, fixed by the type.
#[derive(Debug, Default)]
pub struct AsOpaque<const PREMULTIPLIED: bool>;

/// Data that is not opaque, fixed by the type.
#[derive(Debug, Default)]
pub struct Transparent<const PREMULTIPLIED: bool>;

impl ConstAlphaMode for Opaque {
    open spec fn spec_alpha_mode_of_type() -> AlphaMode {
        AlphaMode::Opaque
    }

    fn alpha_mode_of_type() -> (r: AlphaMode) {
        AlphaMode::Opaque
    }
}

impl<const PREMULTIPLIED: bool> ConstAlphaMode for AsOpaque<PREMULTIPLIED> {
    open spec fn spec_alpha_mode_of_type() -> AlphaMode {
        AlphaMode::AsOpaque { premultiplied: PREMULTIPLIED }
    }

    fn alpha_mode_of_type() -> (r: AlphaMode) {
        AlphaMode::AsOpaque { premultiplied: PREMULTIPLIED }
    }
}

impl<const PREMULTIPLIED: bool> ConstAlphaMode for Transparent<PREMULTIPLIED> {
    open spec fn spec_alpha_mode_of_type() -> AlphaMode {
        AlphaMode::Transparent { premultiplied: PREMULTIPLIED }
    }

    fn alpha_mode_of_type() -> (r: AlphaMode) {
        AlphaMode::Transparent { premultiplied: PREMULTIPLIED }
    }
}

impl AlphaModeTrait for Opaque {
    open spec fn spec_alpha_mode(&self) -> AlphaMode {
        AlphaMode::Opaque
    }

    fn alpha_mode(&self) -> (r: AlphaMode) {
        Opaque::alpha_mode_of_type()
    }
}

impl<const PREMULTIPLIED: bool> AlphaModeTrait for AsOpaque<PREMULTIPLIED> {
    open spec fn spec_alpha_mode(&self) -> AlphaMode {
        AlphaMode::AsOpaque { premultiplied: PREMULTIPLIED }
    }

    fn alpha_mode(&self) -> (r: AlphaMode) {
        AsOpaque::<PREMULTIPLIED>::alpha_mode_of_type()
    }
}

impl<const PREMULTIPLIED: bool> AlphaModeTrait for Transparent<PREMULTIPLIED> {
    open spec fn spec_alpha_mode(&self) -> AlphaMode {
        AlphaMode::Transparent { premultiplied: PREMULTIPLIED }
    }

    fn alpha_mode(&self) -> (r: AlphaMode) {
        Transparent::<PREMULTIPLIED>::alpha_mode_of_type()
    }
}

/// What to do to the colour channels when alpha premultiplication changes.
#[derive(Clone, Copy, Debug, PartialEq, Eq, Structural)]
pub enum Multiply {
    NoChange,
    PreMultiply,
    UnMultiply,
}

/// The premultiplication step that takes data in `alpha_mode` to
/// `target_alpha_mode`.
pub open spec fn spec_multiply(alpha_mode: AlphaMode, target_alpha_mode: AlphaMode) -> Multiply {
    if alpha_mode is Opaque {
        Multiply::NoChange
    } else if target_alpha_mode is Opaque {
        if alpha_mode.spec_is_premultiplied() {
            Multiply::UnMultiply
        } else {
            Multiply::NoChange
        }
    } else if alpha_mode.spec_is_premultiplied() == target_alpha_mode.spec_is_premultiplied() {
        Multiply::NoChange
    } else if target_alpha_mode.spec_is_premultiplied() {
        Multiply::PreMultiply
    } else {
        Multiply::UnMultiply
    }
}

/// What converting pixels from (`format`, `alpha_mode`) to
/// (`target_format`, `target_alpha_mode`) takes: whether to swap the red and
/// blue channels, how to change premultiplication, and whether to clear
/// alpha to its maximum.
pub fn to_target_parameters(
    format: PixelFormat,
    target_format: PixelFormat,
    alpha_mode: AlphaMode,
    target_alpha_mode: AlphaMode,
) -> (r: (bool, Multiply, bool))
    ensures
        r.0 == (format != target_format),
        r.1 == spec_multiply(alpha_mode, target_alpha_mode),
        r.2 == (!(alpha_mode is Opaque) && target_alpha_mode is Opaque),
{
    let swap_rb = match (format, target_format) {
        (PixelFormat::RGBA, PixelFormat::RGBA) | (PixelFormat::BGRA, PixelFormat::BGRA) => false,
        _ => true,
    };
    let multiply = match (alpha_mode, target_alpha_mode) {
        (AlphaMode::Opaque, _) => Multiply::NoChange,
        (alpha_mode, AlphaMode::Opaque) => {
            if alpha_mode.is_premultiplied() {
                Multiply::UnMultiply
            } else {
                Multiply::NoChange
            }
        },
        (
            AlphaMode::Transparent { premultiplied } | AlphaMode::AsOpaque { premultiplied },
            AlphaMode::Transparent { premultiplied: target_premultiplied }
            | AlphaMode::AsOpaque { premultiplied: target_premultiplied },
        ) => {
            if premultiplied == target_premultiplied {
                Multiply::NoChange
            } else if target_premultiplied {
                Multiply::PreMultiply
            } else {
                Multiply::UnMultiply
            }
        },
    };
    let clear_alpha = match (alpha_mode, target_alpha_mode) {
        (AlphaMode::Opaque, _) => false,
        (_, AlphaMode::Opaque) => true,
        _ => false,
    };
    (swap_rb, multiply, clear_alpha)
}

/// The bytes of a snapshot.
#[derive(Debug)]
pub enum Data {
    Owned(Vec<u8>),
}

impl View for Data {
    type V = Seq<u8>;

    open spec fn view(&self) -> Seq<u8> {
        match self {
            Data::Owned(items) => items@,
        }
    }
}

impl Data {
    /// The bytes, to read.
    pub fn as_slice(&self) -> (r: &[u8])
        ensures
            r@ == self@,
    {
        match self {
            Data::Owned(items) => items.as_slice(),
        }
    }

    /// The bytes, to read or write in place.
    pub fn as_mut_slice(&mut self) -> (r: &mut [u8])
        ensures
            r@ == old(self)@,
            final(self)@ == final(r)@,
    {
        match self {
            Data::Owned(items) => items.as_mut_slice(),
        }
    }
}

} // verus!
