use glycin_image_rs::loader::{ends_animation, str_eq};
use glycin_image_rs::{DecoderKind, FormatSettings, ImageRsFormat};

fn settings(
    name: &str,
    bit_depth: Option<u8>,
    two_alpha: bool,
    two_grayscale: bool,
) -> FormatSettings {
    FormatSettings {
        format_name: Some(name.to_string()),
        default_bit_depth: bit_depth,
        supports_two_alpha_modes: two_alpha,
        supports_two_grayscale_modes: two_grayscale,
    }
}

#[test]
fn every_mime_type() {
    let table = [
        ("image/apng", DecoderKind::Png, settings("Animated PNG", Some(8), true, true)),
        ("image/bmp", DecoderKind::Bmp, settings("BMP", Some(8), false, false)),
        ("image/x-dds", DecoderKind::Dds, settings("DDS", None, false, true)),
        ("image/x-ff", DecoderKind::Farbfeld, settings("Farbfeld", Some(16), false, false)),
        ("image/gif", DecoderKind::Gif, settings("GIF", Some(8), false, false)),
        ("image/x-win-bitmap", DecoderKind::Ico, settings("ICO", None, false, false)),
        ("image/vnd.microsoft.icon", DecoderKind::Ico, settings("ICO", None, false, false)),
        ("image/jpeg", DecoderKind::Jpeg, settings("JPEG", Some(8), false, true)),
        ("image/jp2", DecoderKind::Jpeg2000, settings("ICO", None, false, false)),
        ("image/x-jp2-codestream", DecoderKind::Jpeg2000, settings("ICO", None, false, false)),
        ("image/x-exr", DecoderKind::OpenExr, settings("OpenEXR", Some(32), false, true)),
        ("image/png", DecoderKind::Png, settings("PNG", Some(8), true, true)),
        ("image/x-portable-bitmap", DecoderKind::Pnm, settings("PBM", Some(1), false, false)),
        ("image/x-portable-graymap", DecoderKind::Pnm, settings("PGM", None, false, false)),
        ("image/x-portable-pixmap", DecoderKind::Pnm, settings("PPM", None, false, false)),
        ("image/x-portable-anymap", DecoderKind::Pnm, settings("PAM", None, false, false)),
        ("image/x-qoi", DecoderKind::Qoi, settings("QOI", Some(8), true, false)),
        ("image/qoi", DecoderKind::Qoi, settings("QOI", Some(8), true, false)),
        ("image/x-targa", DecoderKind::Tga, settings("TGA", None, false, true)),
        ("image/x-tga", DecoderKind::Tga, settings("TGA", None, false, true)),
        ("image/tiff", DecoderKind::Tiff, settings("TIFF", None, true, true)),
        ("image/webp", DecoderKind::WebP, settings("WebP", Some(8), true, false)),
        ("image/x-xbitmap", DecoderKind::Xbm, settings("XBM", Some(8), false, false)),
        ("image/x-xpixmap", DecoderKind::Xpm, settings("XPM", Some(8), false, false)),
    ];
    for (mime, kind, expected) in table {
        let f = ImageRsFormat::create(mime).unwrap();
        assert_eq!(f.decoder, kind, "{mime}");
        assert_eq!(f.settings, expected, "{mime}");
    }
}

#[test]
fn unknown_mime_types() {
    for mime in ["", "image/svg+xml", "image/PNG", "image/png ", "image/pn", "text/plain"] {
        assert!(ImageRsFormat::create(mime).is_none(), "{mime}");
    }
}

#[test]
fn new_has_empty_settings() {
    let f = ImageRsFormat::new(7u8);
    assert_eq!(f.decoder, 7);
    assert_eq!(
        f.settings,
        FormatSettings {
            format_name: None,
            default_bit_depth: None,
            supports_two_alpha_modes: false,
            supports_two_grayscale_modes: false,
        }
    );
}

#[test]
fn builders_change_one_setting_each() {
    let f = ImageRsFormat::new(())
        .format_name("first")
        .default_bit_depth(4)
        .supports_two_alpha_modes(true)
        .supports_two_grayscale_modes(true)
        .format_name("second")
        .supports_two_alpha_modes(false);
    assert_eq!(f.settings, settings("second", Some(4), false, true));
    let g = ImageRsFormat::new(())
        .supports_two_alpha_modes(false)
        .format_name("second")
        .supports_two_grayscale_modes(true)
        .default_bit_depth(4);
    assert_eq!(f.settings, g.settings);
}

#[test]
fn string_equality() {
    assert!(str_eq("image/png", "image/png"));
    assert!(str_eq("", ""));
    assert!(!str_eq("image/png", "image/apng"));
    assert!(!str_eq("image/png", "image/pnG"));
    assert!(str_eq("grün", "grün"));
    assert!(!str_eq("grün", "grun"));
}

#[test]
fn animation_end() {
    assert!(ends_animation(false, Some(0), true));
    assert!(!ends_animation(true, Some(0), true));
    assert!(!ends_animation(false, Some(1), true));
    assert!(!ends_animation(false, None, true));
    assert!(!ends_animation(false, Some(0), false));
}
