use js_trace::snapshot::{
    to_target_parameters, AlphaMode, AlphaModeTrait, AsOpaque, ConstAlphaMode, ConstPixelFormat, Data,
    Multiply, Opaque, PixelFormat, PixelFormatTrait, Transparent, BGRA, RGBA,
};

#[test]
fn alpha_mode_premultiplication() {
    assert!(AlphaMode::Opaque.is_premultiplied());
    assert!(AlphaMode::AsOpaque { premultiplied: true }.is_premultiplied());
    assert!(!AlphaMode::AsOpaque { premultiplied: false }.is_premultiplied());
    assert!(AlphaMode::Transparent { premultiplied: true }.is_premultiplied());
    assert!(!AlphaMode::Transparent { premultiplied: false }.is_premultiplied());
}

#[test]
fn alpha_mode_opacity() {
    assert!(AlphaMode::Opaque.is_opaque());
    assert!(AlphaMode::AsOpaque { premultiplied: false }.is_opaque());
    assert!(!AlphaMode::Transparent { premultiplied: true }.is_opaque());
}

#[test]
fn defaults() {
    assert_eq!(AlphaMode::default(), AlphaMode::Transparent { premultiplied: true });
    assert_eq!(PixelFormat::default(), PixelFormat::RGBA);
}

#[test]
fn formats_and_modes_fixed_by_type() {
    assert_eq!(RGBA.format(), PixelFormat::RGBA);
    assert_eq!(BGRA.format(), PixelFormat::BGRA);
    assert_eq!(RGBA::PIXEL_FORMAT, PixelFormat::RGBA);
    assert_eq!(PixelFormat::BGRA.format(), PixelFormat::BGRA);
    assert_eq!(Opaque.alpha_mode(), AlphaMode::Opaque);
    assert_eq!(AsOpaque::<true>.alpha_mode(), AlphaMode::AsOpaque { premultiplied: true });
    assert_eq!(
        Transparent::<false>::alpha_mode_of_type(),
        AlphaMode::Transparent { premultiplied: false }
    );
    assert_eq!(AlphaMode::Opaque.alpha_mode(), AlphaMode::Opaque);
}

#[test]
fn same_layout_needs_nothing() {
    let m = AlphaMode::Transparent { premultiplied: true };
    assert_eq!(
        to_target_parameters(PixelFormat::RGBA, PixelFormat::RGBA, m, m),
        (false, Multiply::NoChange, false)
    );
}

#[test]
fn format_change_swaps_red_and_blue() {
    let m = AlphaMode::Opaque;
    assert_eq!(
        to_target_parameters(PixelFormat::RGBA, PixelFormat::BGRA, m, m),
        (true, Multiply::NoChange, false)
    );
}

#[test]
fn to_opaque_unmultiplies_and_clears_alpha() {
    assert_eq!(
        to_target_parameters(
            PixelFormat::BGRA,
            PixelFormat::BGRA,
            AlphaMode::Transparent { premultiplied: true },
            AlphaMode::Opaque
        ),
        (false, Multiply::UnMultiply, true)
    );
    assert_eq!(
        to_target_parameters(
            PixelFormat::BGRA,
            PixelFormat::BGRA,
            AlphaMode::AsOpaque { premultiplied: false },
            AlphaMode::Opaque
        ),
        (false, Multiply::NoChange, true)
    );
}

#[test]
fn premultiplication_changes() {
    assert_eq!(
        to_target_parameters(
            PixelFormat::RGBA,
            PixelFormat::RGBA,
            AlphaMode::Transparent { premultiplied: false },
            AlphaMode::AsOpaque { premultiplied: true }
        ),
        (false, Multiply::PreMultiply, false)
    );
    assert_eq!(
        to_target_parameters(
            PixelFormat::RGBA,
            PixelFormat::BGRA,
            AlphaMode::AsOpaque { premultiplied: true },
            AlphaMode::Transparent { premultiplied: false }
        ),
        (true, Multiply::UnMultiply, false)
    );
    assert_eq!(
        to_target_parameters(
            PixelFormat::RGBA,
            PixelFormat::RGBA,
            AlphaMode::Opaque,
            AlphaMode::Transparent { premultiplied: false }
        ),
        (false, Multiply::NoChange, false)
    );
}

#[test]
fn data_gives_its_bytes() {
    let mut d = Data::Owned(vec![1, 2, 3]);
    assert_eq!(d.as_slice(), &[1, 2, 3]);
    d.as_mut_slice()[1] = 9;
    assert_eq!(d.as_slice(), &[1, 9, 3]);
}
