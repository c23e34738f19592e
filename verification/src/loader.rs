//! Which image decoder handles a MIME type, and the settings the loader
//! reports for it (format name, default bit depth, and whether the format
//! distinguishes images with and without alpha or colour).

use vstd::prelude::*;
use vstd::utf8::{encode_utf8, encode_utf8_decode_utf8};

verus! {

/// The image decoders the loader can use.
#[derive(Debug, Clone, Copy, PartialEq, Eq, Structural)]
pub enum DecoderKind {
    Bmp,
    Dds,
    Farbfeld,
    Gif,
    Ico,
    Jpeg,
    Jpeg2000,
    OpenExr,
    Png,
    Pnm,
    Qoi,
    Tga,
    Tiff,
    WebP,
    Xbm,
    Xpm,
}

/// What the loader reports about a format besides the decoded pixels.
#[derive(Debug, PartialEq, Eq)]
pub struct FormatSettings {
    pub format_name: Option<String>,
    pub default_bit_depth: Option<u8>,
    pub supports_two_alpha_modes: bool,
    pub supports_two_grayscale_modes: bool,
}

/// The contents of [`FormatSettings`].
pub struct FormatSettingsView {
    pub format_name: Option<Seq<char>>,
    pub default_bit_depth: Option<u8>,
    pub supports_two_alpha_modes: bool,
    pub supports_two_grayscale_modes: bool,
}

impl View for FormatSettings {
    type V = FormatSettingsView;

    open spec fn view(&self) -> FormatSettingsView {
        FormatSettingsView {
            format_name: match self.format_name {
                Some(name) => Some(name@),
                None => None,
            },
            default_bit_depth: self.default_bit_depth,
            supports_two_alpha_modes: self.supports_two_alpha_modes,
            supports_two_grayscale_modes: self.supports_two_grayscale_modes,
        }
    }
}

/// Settings with every field given.
pub open spec fn settings(
    format_name: Seq<char>,
    default_bit_depth: Option<u8>,
    supports_two_alpha_modes: bool,
    supports_two_grayscale_modes: bool,
) -> FormatSettingsView {
    FormatSettingsView {
        format_name: Some(format_name),
        default_bit_depth,
        supports_two_alpha_modes,
        supports_two_grayscale_modes,
    }
}

/// A decoder together with the settings reported for its format.
pub struct ImageRsFormat<D> {
    pub decoder: D,
    pub settings: FormatSettings,
}

impl<D> ImageRsFormat<D> {
    /// A decoder with no format name, no default bit depth, and neither two
    /// alpha modes nor two grayscale modes.
    pub fn new(decoder: D) -> (res: Self)
        ensures
            res.decoder == decoder,
            res.settings@ == (FormatSettingsView {
                format_name: None,
                default_bit_depth: None,
                supports_two_alpha_modes: false,
                supports_two_grayscale_modes: false,
            }),
    {
        ImageRsFormat {
            decoder,
            settings: FormatSettings {
                format_name: None,
                default_bit_depth: None,
                supports_two_alpha_modes: false,
                supports_two_grayscale_modes: false,
            },
        }
    }

    /// Sets the format name; the other settings are kept.
    pub fn format_name(self, format_name: &str) -> (res: Self)
        ensures
            res.decoder == self.decoder,
            res.settings@ == (FormatSettingsView {
                format_name: Some(format_name@),
                ..self.settings@
            }),
    {
        let ImageRsFormat { decoder, settings } = self;
        let FormatSettings {
            format_name: _,
            default_bit_depth,
            supports_two_alpha_modes,
            supports_two_grayscale_modes,
        } = settings;
        ImageRsFormat {
            decoder,
            settings: FormatSettings {
                format_name: Some(format_name.to_owned()),
                default_bit_depth,
                supports_two_alpha_modes,
                supports_two_grayscale_modes,
            },
        }
    }

    /// Sets whether the format distinguishes images with and without an
    /// alpha channel; the other settings are kept.
    pub fn supports_two_alpha_modes(self, supports_two_alpha_modes: bool) -> (res: Self)
        ensures
            res.decoder == self.decoder,
            res.settings@ == (FormatSettingsView { supports_two_alpha_modes, ..self.settings@ }),
    {
        let mut res = self;
        res.settings.supports_two_alpha_modes = supports_two_alpha_modes;
        res
    }

    /// Sets whether the format distinguishes grayscale from colour images;
    /// the other settings are kept.
    pub fn supports_two_grayscale_modes(self, supports_two_grayscale_modes: bool) -> (res: Self)
        ensures
            res.decoder == self.decoder,
            res.settings@ == (FormatSettingsView {
                supports_two_grayscale_modes,
                ..self.settings@
            }),
    {
        let mut res = self;
        res.settings.supports_two_grayscale_modes = supports_two_grayscale_modes;
        res
    }

    /// Sets the bit depth that is not worth reporting; the other settings
    /// are kept.
    pub fn default_bit_depth(self, default_bit_depth: u8) -> (res: Self)
        ensures
            res.decoder == self.decoder,
            res.settings@ == (FormatSettingsView {
                default_bit_depth: Some(default_bit_depth),
                ..self.settings@
            }),
    {
        let mut res = self;
        res.settings.default_bit_depth = Some(default_bit_depth);
        res
    }
}

/// Whether two strings hold the same characters.
pub fn str_eq(a: &str, b: &str) -> (eq: bool)
    ensures
        eq == (a@ == b@),
{
    let x = a.as_bytes();
    let y = b.as_bytes();
    proof {
        encode_utf8_decode_utf8(a@);
        encode_utf8_decode_utf8(b@);
    }
    let n = x.len();
    if n != y.len() {
        return false;
    }
    let mut i: usize = 0;
    while i < n
        invariant
            n == x@.len(),
            n == y@.len(),
            x@ == encode_utf8(a@),
            y@ == encode_utf8(b@),
            i <= n,
            forall|j: int| 0 <= j < i ==> x@[j] == y@[j],
        decreases n - i,
    {
        if x[i] != y[i] {
            assert(x@[i as int] != y@[i as int]);
            assert(x@ != y@);
            return false;
        }
        i = i + 1;
    }
    assert(x@ =~= y@);
    true
}

/// The decoder and settings for a MIME type, if the loader handles it.
pub open spec fn mime_format(mime: Seq<char>) -> Option<(DecoderKind, FormatSettingsView)> {
    if mime == "image/apng"@ {
        Some((DecoderKind::Png, settings("Animated PNG"@, Some(8), true, true)))
    } else if mime == "image/bmp"@ {
        Some((DecoderKind::Bmp, settings("BMP"@, Some(8), false, false)))
    } else if mime == "image/x-dds"@ {
        Some((DecoderKind::Dds, settings("DDS"@, None, false, true)))
    } else if mime == "image/x-ff"@ {
        Some((DecoderKind::Farbfeld, settings("Farbfeld"@, Some(16), false, false)))
    } else if mime == "image/gif"@ {
        Some((DecoderKind::Gif, settings("GIF"@, Some(8), false, false)))
    } else if mime == "image/x-win-bitmap"@ || mime == "image/vnd.microsoft.icon"@ {
        Some((DecoderKind::Ico, settings("ICO"@, None, false, false)))
    } else if mime == "image/jpeg"@ {
        Some((DecoderKind::Jpeg, settings("JPEG"@, Some(8), false, true)))
    } else if mime == "image/jp2"@ || mime == "image/x-jp2-codestream"@ {
        Some((DecoderKind::Jpeg2000, settings("ICO"@, None, false, false)))
    } else if mime == "image/x-exr"@ {
        Some((DecoderKind::OpenExr, settings("OpenEXR"@, Some(32), false, true)))
    } else if mime == "image/png"@ {
        Some((DecoderKind::Png, settings("PNG"@, Some(8), true, true)))
    } else if mime == "image/x-portable-bitmap"@ {
        Some((DecoderKind::Pnm, settings("PBM"@, Some(1), false, false)))
    } else if mime == "image/x-portable-graymap"@ {
        Some((DecoderKind::Pnm, settings("PGM"@, None, false, false)))
    } else if mime == "image/x-portable-pixmap"@ {
        Some((DecoderKind::Pnm, settings("PPM"@, None, false, false)))
    } else if mime == "image/x-portable-anymap"@ {
        Some((DecoderKind::Pnm, settings("PAM"@, None, false, false)))
    } else if mime == "image/x-qoi"@ || mime == "image/qoi"@ {
        Some((DecoderKind::Qoi, settings("QOI"@, Some(8), true, false)))
    } else if mime == "image/x-targa"@ || mime == "image/x-tga"@ {
        Some((DecoderKind::Tga, settings("TGA"@, None, false, true)))
    } else if mime == "image/tiff"@ {
        Some((DecoderKind::Tiff, settings("TIFF"@, None, true, true)))
    } else if mime == "image/webp"@ {
        Some((DecoderKind::WebP, settings("WebP"@, Some(8), true, false)))
    } else if mime == "image/x-xbitmap"@ {
        Some((DecoderKind::Xbm, settings("XBM"@, Some(8), false, false)))
    } else if mime == "image/x-xpixmap"@ {
        Some((DecoderKind::Xpm, settings("XPM"@, Some(8), false, false)))
    } else {
        None
    }
}

impl ImageRsFormat<DecoderKind> {
    /// The decoder and its settings for a MIME type; `None` for a type the
    /// loader does not handle.
    pub fn create(mime_type: &str) -> (res: Option<Self>)
        ensures
            match res {
                Some(f) => mime_format(mime_type@) == Some((f.decoder, f.settings@)),
                None => mime_format(mime_type@) is None,
            },
    {
        if str_eq(mime_type, "image/apng") {
            Some(
                Self::new(DecoderKind::Png).format_name("Animated PNG").supports_two_alpha_modes(
                    true,
                ).supports_two_grayscale_modes(true).default_bit_depth(8),
            )
        } else if str_eq(mime_type, "image/bmp") {
            Some(Self::new(DecoderKind::Bmp).format_name("BMP").default_bit_depth(8))
        } else if str_eq(mime_type, "image/x-dds") {
            Some(
                Self::new(DecoderKind::Dds).format_name("DDS").supports_two_grayscale_modes(true),
            )
        } else if str_eq(mime_type, "image/x-ff") {
            Some(Self::new(DecoderKind::Farbfeld).format_name("Farbfeld").default_bit_depth(16))
        } else if str_eq(mime_type, "image/gif") {
            Some(Self::new(DecoderKind::Gif).format_name("GIF").default_bit_depth(8))
        } else if str_eq(mime_type, "image/x-win-bitmap") || str_eq(
            mime_type,
            "image/vnd.microsoft.icon",
        ) {
            Some(Self::new(DecoderKind::Ico).format_name("ICO"))
        } else if str_eq(mime_type, "image/jpeg") {
            Some(
                Self::new(DecoderKind::Jpeg).format_name("JPEG").default_bit_depth(
                    8,
                ).supports_two_grayscale_modes(true),
            )
        } else if str_eq(mime_type, "image/jp2") || str_eq(mime_type, "image/x-jp2-codestream") {
            Some(Self::new(DecoderKind::Jpeg2000).format_name("ICO"))
        } else if str_eq(mime_type, "image/x-exr") {
            Some(
                Self::new(DecoderKind::OpenExr).format_name("OpenEXR").default_bit_depth(
                    32,
                ).supports_two_grayscale_modes(true),
            )
        } else if str_eq(mime_type, "image/png") {
            Some(
                Self::new(DecoderKind::Png).format_name("PNG").supports_two_alpha_modes(
                    true,
                ).supports_two_grayscale_modes(true).default_bit_depth(8),
            )
        } else if str_eq(mime_type, "image/x-portable-bitmap") {
            Some(Self::new(DecoderKind::Pnm).format_name("PBM").default_bit_depth(1))
        } else if str_eq(mime_type, "image/x-portable-graymap") {
            Some(Self::new(DecoderKind::Pnm).format_name("PGM"))
        } else if str_eq(mime_type, "image/x-portable-pixmap") {
            Some(Self::new(DecoderKind::Pnm).format_name("PPM"))
        } else if str_eq(mime_type, "image/x-portable-anymap") {
            Some(Self::new(DecoderKind::Pnm).format_name("PAM"))
        } else if str_eq(mime_type, "image/x-qoi") || str_eq(mime_type, "image/qoi") {
            Some(
                Self::new(DecoderKind::Qoi).format_name("QOI").default_bit_depth(
                    8,
                ).supports_two_alpha_modes(true),
            )
        } else if str_eq(mime_type, "image/x-targa") || str_eq(mime_type, "image/x-tga") {
            Some(
                Self::new(DecoderKind::Tga).format_name("TGA").supports_two_grayscale_modes(true),
            )
        } else if str_eq(mime_type, "image/tiff") {
            Some(
                Self::new(DecoderKind::Tiff).format_name("TIFF").supports_two_alpha_modes(
                    true,
                ).supports_two_grayscale_modes(true),
            )
        } else if str_eq(mime_type, "image/webp") {
            Some(
                Self::new(DecoderKind::WebP).format_name("WebP").default_bit_depth(
                    8,
                ).supports_two_alpha_modes(true),
            )
        } else if str_eq(mime_type, "image/x-xbitmap") {
            Some(
                Self::new(DecoderKind::Xbm).format_name("XBM").default_bit_depth(
                    8,
                ).supports_two_alpha_modes(false),
            )
        } else if str_eq(mime_type, "image/x-xpixmap") {
            Some(
                Self::new(DecoderKind::Xpm).format_name("XPM").default_bit_depth(
                    8,
                ).supports_two_alpha_modes(false),
            )
        } else {
            None
        }
    }
}

/// Whether a frame request ends an animation: the caller asked not to loop,
/// and the animation has wrapped around to its first frame again.
pub fn ends_animation(loop_animation: bool, n_frame: Option<u64>, looped: bool) -> (ends: bool)
    ensures
        ends == (!loop_animation && n_frame == Some(0u64) && looped),
{
    !loop_animation && n_frame == Some(0u64) && looped
}

} // verus!
