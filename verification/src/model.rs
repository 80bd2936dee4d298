use vstd::prelude::*;

verus! {

/// The interaction mode of the page canvas.
#[derive(Clone, Copy, Debug, PartialEq, Eq, Structural)]
pub enum Tool {
    Select,
    Hand,
    Highlight,
    AddText,
    Redact,
}

/// The name a tool is shown under.
pub open spec fn tool_label(tool: Tool) -> Seq<char> {
    match tool {
        Tool::Select => "Select"@,
        Tool::Hand => "Hand"@,
        Tool::Highlight => "Highlight"@,
        Tool::AddText => "Add text"@,
        Tool::Redact => "Redact"@,
    }
}

impl Default for Tool {
    /// Select is the tool that is active before the user picks one.
    fn default() -> (tool: Tool)
        ensures
            tool == Tool::Select,
    {
        Tool::Select
    }
}

impl Tool {
    pub fn label(self) -> (label: &'static str)
        ensures
            label@ == tool_label(self),
    {
        match self {
            Tool::Select => "Select",
            Tool::Hand => "Hand",
            Tool::Highlight => "Highlight",
            Tool::AddText => "Add text",
            Tool::Redact => "Redact",
        }
    }
}

/// What a queued page job should produce.
#[derive(Clone, Copy, Debug, PartialEq, Eq, Structural)]
pub enum PageKind {
    /// A cheap low-resolution raster, shown until the sharp one arrives.
    Preview,
    /// A raster matching the on-screen size.
    Sharp,
    /// Page text and its geometry, used by search and selection.
    Text,
}

/// The text markup annotations a selection can receive.
#[derive(Clone, Copy, Debug, PartialEq, Eq, Structural)]
pub enum Markup {
    Highlight,
    Underline,
    Strikeout,
}

/// The name a markup is shown under.
pub open spec fn markup_label(markup: Markup) -> Seq<char> {
    match markup {
        Markup::Highlight => "Highlight"@,
        Markup::Underline => "Underline"@,
        Markup::Strikeout => "Strike out"@,
    }
}

impl Markup {
    pub fn label(self) -> (label: &'static str)
        ensures
            label@ == markup_label(self),
    {
        match self {
            Markup::Highlight => "Highlight",
            Markup::Underline => "Underline",
            Markup::Strikeout => "Strike out",
        }
    }
}

/// A decoded page raster as the page worker hands it over: `width` by
/// `height` pixels, four bytes each.
#[derive(Debug)]
pub struct PagePreview {
    pub width: u32,
    pub height: u32,
    pub rgba: Vec<u8>,
}

/// What the probe worker reports about the document it opened.
#[derive(Debug)]
pub enum ProbeUpdate {
    Ready { summary: String, text: String, preview: PagePreview },
    Failed(String),
}

/// `pixels` with the first and third byte of each whole four-byte pixel
/// swapped; a trailing partial pixel is left as it is.
pub open spec fn swapped_channels(pixels: Seq<u8>) -> Seq<u8> {
    Seq::new(
        pixels.len(),
        |i: int|
            if i < pixels.len() - pixels.len() % 4 && i % 4 == 0 {
                pixels[i + 2]
            } else if i < pixels.len() - pixels.len() % 4 && i % 4 == 2 {
                pixels[i - 2]
            } else {
                pixels[i]
            },
    )
}

/// Turns the worker's BGRA pixels into the RGBA order the image decoder
/// expects, in place, by swapping the blue and red byte of each pixel.
pub fn swap_red_blue(pixels: &mut Vec<u8>)
    ensures
        final(pixels)@ == swapped_channels(old(pixels)@),
{
    let ghost original = pixels@;
    let n = pixels.len();
    let whole = n - n % 4;
    let mut i: usize = 0;
    while i < whole
        invariant
            n == original.len(),
            pixels@.len() == n,
            whole == n - n % 4,
            i % 4 == 0,
            i <= whole,
            forall|k: int| 0 <= k < i ==> #[trigger] pixels@[k] == swapped_channels(original)[k],
            forall|k: int| i <= k < n ==> #[trigger] pixels@[k] == original[k],
        decreases whole - i,
    {
        let blue = pixels[i];
        let red = pixels[i + 2];
        pixels.set(i, red);
        pixels.set(i + 2, blue);
        i = i + 4;
    }
    assert(pixels@ =~= swapped_channels(original));
}

} // verus!
