//! Application icons and the Linux desktop entry.
use vstd::prelude::*;

use crate::text::{chars_of, replace_all, replace_chars, string_of};

verus! {

/// `image::ImageError`, the error of a failed decode; carried, never inspected.
#[verifier::external_type_specification]
#[verifier::external_body]
pub struct ExImageError(image::ImageError);

/// The RGBA8 pixels, width and height that the `image` crate decodes from a
/// PNG file, or `None` when it rejects the bytes.
pub uninterp spec fn png_rgba(bytes: Seq<u8>) -> Option<(Seq<u8>, u32, u32)>;

/// Decodes PNG bytes with `image::load_from_memory_with_format` and converts
/// the picture to RGBA8 (`into_rgba8`, `dimensions`, `into_raw`). The
/// contract only names the outcome: decoding is a function of the bytes.
#[verifier::external_body]
fn load_png_rgba(bytes: &[u8]) -> (r: Result<(Vec<u8>, u32, u32), image::ImageError>)
    ensures
        match r {
            Ok((pixels, width, height)) => png_rgba(bytes@) == Some((pixels@, width, height)),
            Err(_) => png_rgba(bytes@) is None,
        },
{
    match image::load_from_memory_with_format(bytes, image::ImageFormat::Png) {
        Ok(picture) => {
            let rgba = picture.into_rgba8();
            let (width, height) = rgba.dimensions();
            Ok((rgba.into_raw(), width, height))
        },
        Err(error) => Err(error),
    }
}

/// A decoded icon: RGBA8 pixels, row by row.
#[derive(Debug)]
pub struct RgbaIcon {
    pub rgba: Vec<u8>,
    pub width: u32,
    pub height: u32,
}

impl RgbaIcon {
    /// An icon from decoded pixels and their size.
    pub fn from_pixels(rgba: Vec<u8>, width: u32, height: u32) -> (r: RgbaIcon)
        ensures
            r.rgba@ == rgba@,
            r.width == width,
            r.height == height,
    {
        RgbaIcon { rgba, width, height }
    }
}

/// Why an icon could not be decoded.
#[derive(Clone, Copy, Debug, PartialEq, Eq, Structural)]
pub enum IconError {
    /// The bytes are not a PNG picture the decoder accepts.
    Decode,
}

/// Decode an embedded PNG icon to RGBA8.
pub fn decode_png(bytes: &[u8]) -> (r: Result<RgbaIcon, IconError>)
    ensures
        match r {
            Ok(icon) => png_rgba(bytes@) == Some((icon.rgba@, icon.width, icon.height)),
            Err(_) => png_rgba(bytes@) is None,
        },
{
    match load_png_rgba(bytes) {
        Ok((rgba, width, height)) => Ok(RgbaIcon::from_pixels(rgba, width, height)),
        Err(_) => Err(IconError::Decode),
    }
}

/// A path as the `Exec=` key of a desktop entry takes it: in double quotes,
/// with backslashes and double quotes escaped by a backslash.
pub open spec fn spec_desktop_exec_path(path: Seq<char>) -> Seq<char> {
    "\""@ + replace_all(replace_all(path, "\\"@, "\\\\"@), "\""@, "\\\""@) + "\""@
}

/// The `Exec=` value for a program path.
pub fn desktop_exec_path(path: &str) -> (r: String)
    ensures
        r@ == spec_desktop_exec_path(path@),
{
    proof {
        reveal_strlit("\\");
        reveal_strlit("\"");
    }
    let p = chars_of(path);
    let backslash = chars_of("\\");
    let doubled = chars_of("\\\\");
    let quote = chars_of("\"");
    let escaped_quote = chars_of("\\\"");
    let step = replace_chars(p.as_slice(), backslash.as_slice(), doubled.as_slice());
    let escaped = replace_chars(step.as_slice(), quote.as_slice(), escaped_quote.as_slice());
    let mut r = String::from_str("\"");
    let body = string_of(escaped.as_slice());
    r.append(body.as_str());
    r.append("\"");
    r
}

/// The desktop entry installed for the program at `exec_path`.
pub open spec fn spec_desktop_entry(exec_path: Seq<char>) -> Seq<char> {
    "[Desktop Entry]\nType=Application\nName=Realistic Mouse Jiggler\nComment=Cross-platform desktop mouse jiggler\nExec="@
        + spec_desktop_exec_path(exec_path)
        + "\nIcon=com.visorcraft.realistic-mouse-jiggler\nTerminal=false\nCategories=Utility;\nStartupWMClass=com.visorcraft.realistic-mouse-jiggler\n"@
}

/// The desktop entry installed for the program at `exec_path`.
pub fn desktop_entry(exec_path: &str) -> (r: String)
    ensures
        r@ == spec_desktop_entry(exec_path@),
{
    let mut r = String::from_str(
        "[Desktop Entry]\nType=Application\nName=Realistic Mouse Jiggler\nComment=Cross-platform desktop mouse jiggler\nExec=",
    );
    let exec = desktop_exec_path(exec_path);
    r.append(exec.as_str());
    r.append(
        "\nIcon=com.visorcraft.realistic-mouse-jiggler\nTerminal=false\nCategories=Utility;\nStartupWMClass=com.visorcraft.realistic-mouse-jiggler\n",
    );
    r
}

} // verus!
