//! The operating system the program runs on, for the few rules that differ by platform.
use vstd::prelude::*;

verus! {

/// The operating system family a decision is made for.
#[derive(Clone, Copy, Debug, PartialEq, Eq, Structural)]
pub enum Platform {
    Linux,
    MacOs,
    Windows,
    Other,
}

impl Platform {
    /// The short label shown in the About page.
    pub open spec fn label_text(self) -> Seq<char> {
        match self {
            Platform::Linux => "Linux · egui"@,
            Platform::MacOs => "macOS · egui"@,
            Platform::Windows => "Windows · egui"@,
            Platform::Other => "egui"@,
        }
    }
}

/// The platform pill shown on the About page.
pub fn platform_label(platform: Platform) -> (r: &'static str)
    ensures
        r@ == platform.label_text(),
{
    match platform {
        Platform::Linux => "Linux · egui",
        Platform::MacOs => "macOS · egui",
        Platform::Windows => "Windows · egui",
        Platform::Other => "egui",
    }
}

} // verus!
