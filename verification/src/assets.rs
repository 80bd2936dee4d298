use vstd::prelude::*;

use crate::text::string_views;

verus! {

/// The icons the editor's chrome draws, each an SVG asset bundled with the
/// application.
#[derive(Clone, Copy, Debug, PartialEq, Eq, Structural)]
pub enum HugeIcon {
    Select,
    Hand,
    Annotate,
    Edit,
    Text,
    Image,
    Link,
    Highlight,
    Underline,
    Strike,
    Redact,
    Shapes,
    Sign,
    More,
    Search,
    Open,
    Share,
    Previous,
    Next,
    ZoomIn,
    ZoomOut,
    Fit,
}

/// The asset path of an icon.
pub open spec fn icon_path(icon: HugeIcon) -> Seq<char> {
    match icon {
        HugeIcon::Select => "hugeicons/select.svg"@,
        HugeIcon::Hand => "hugeicons/hand.svg"@,
        HugeIcon::Annotate => "hugeicons/annotate.svg"@,
        HugeIcon::Edit => "hugeicons/edit.svg"@,
        HugeIcon::Text => "hugeicons/text.svg"@,
        HugeIcon::Image => "hugeicons/image.svg"@,
        HugeIcon::Link => "hugeicons/link.svg"@,
        HugeIcon::Highlight => "hugeicons/highlight.svg"@,
        HugeIcon::Underline => "hugeicons/underline.svg"@,
        HugeIcon::Strike => "hugeicons/strike.svg"@,
        HugeIcon::Redact => "hugeicons/redact.svg"@,
        HugeIcon::Shapes => "hugeicons/shapes.svg"@,
        HugeIcon::Sign => "hugeicons/sign.svg"@,
        HugeIcon::More => "hugeicons/more.svg"@,
        HugeIcon::Search => "hugeicons/search.svg"@,
        HugeIcon::Open => "hugeicons/open.svg"@,
        HugeIcon::Share => "hugeicons/share.svg"@,
        HugeIcon::Previous => "hugeicons/previous.svg"@,
        HugeIcon::Next => "hugeicons/next.svg"@,
        HugeIcon::ZoomIn => "hugeicons/zoom-in.svg"@,
        HugeIcon::ZoomOut => "hugeicons/zoom-out.svg"@,
        HugeIcon::Fit => "hugeicons/fit.svg"@,
    }
}

/// The bundled assets, in the order the asset table lists them: one per
/// icon, in the order of the icons.
pub open spec fn bundled_icons() -> Seq<HugeIcon> {
    seq![HugeIcon::Select, HugeIcon::Hand, HugeIcon::Annotate, HugeIcon::Edit, HugeIcon::Text, HugeIcon::Image, HugeIcon::Link, HugeIcon::Highlight, HugeIcon::Underline, HugeIcon::Strike, HugeIcon::Redact, HugeIcon::Shapes, HugeIcon::Sign, HugeIcon::More, HugeIcon::Search, HugeIcon::Open, HugeIcon::Share, HugeIcon::Previous, HugeIcon::Next, HugeIcon::ZoomIn, HugeIcon::ZoomOut, HugeIcon::Fit]
}

pub open spec fn asset_paths() -> Seq<Seq<char>> {
    bundled_icons().map_values(|icon: HugeIcon| icon_path(icon))
}

impl HugeIcon {
    pub fn path(self) -> (path: &'static str)
        ensures
            path@ == icon_path(self),
    {
        match self {
            HugeIcon::Select => "hugeicons/select.svg",
            HugeIcon::Hand => "hugeicons/hand.svg",
            HugeIcon::Annotate => "hugeicons/annotate.svg",
            HugeIcon::Edit => "hugeicons/edit.svg",
            HugeIcon::Text => "hugeicons/text.svg",
            HugeIcon::Image => "hugeicons/image.svg",
            HugeIcon::Link => "hugeicons/link.svg",
            HugeIcon::Highlight => "hugeicons/highlight.svg",
            HugeIcon::Underline => "hugeicons/underline.svg",
            HugeIcon::Strike => "hugeicons/strike.svg",
            HugeIcon::Redact => "hugeicons/redact.svg",
            HugeIcon::Shapes => "hugeicons/shapes.svg",
            HugeIcon::Sign => "hugeicons/sign.svg",
            HugeIcon::More => "hugeicons/more.svg",
            HugeIcon::Search => "hugeicons/search.svg",
            HugeIcon::Open => "hugeicons/open.svg",
            HugeIcon::Share => "hugeicons/share.svg",
            HugeIcon::Previous => "hugeicons/previous.svg",
            HugeIcon::Next => "hugeicons/next.svg",
            HugeIcon::ZoomIn => "hugeicons/zoom-in.svg",
            HugeIcon::ZoomOut => "hugeicons/zoom-out.svg",
            HugeIcon::Fit => "hugeicons/fit.svg",
        }
    }
}

/// The bundled icons, in the order of the asset table.
pub fn bundled_icon_list() -> (icons: Vec<HugeIcon>)
    ensures
        icons@ == bundled_icons(),
{
    let mut icons: Vec<HugeIcon> = Vec::new();
    icons.push(HugeIcon::Select);
    icons.push(HugeIcon::Hand);
    icons.push(HugeIcon::Annotate);
    icons.push(HugeIcon::Edit);
    icons.push(HugeIcon::Text);
    icons.push(HugeIcon::Image);
    icons.push(HugeIcon::Link);
    icons.push(HugeIcon::Highlight);
    icons.push(HugeIcon::Underline);
    icons.push(HugeIcon::Strike);
    icons.push(HugeIcon::Redact);
    icons.push(HugeIcon::Shapes);
    icons.push(HugeIcon::Sign);
    icons.push(HugeIcon::More);
    icons.push(HugeIcon::Search);
    icons.push(HugeIcon::Open);
    icons.push(HugeIcon::Share);
    icons.push(HugeIcon::Previous);
    icons.push(HugeIcon::Next);
    icons.push(HugeIcon::ZoomIn);
    icons.push(HugeIcon::ZoomOut);
    icons.push(HugeIcon::Fit);
    assert(icons@ =~= bundled_icons());
    icons
}

/// Whether `text` begins with `prefix`.
pub fn has_prefix(text: &str, prefix: &str) -> (found: bool)
    ensures
        found == (prefix@.len() <= text@.len() && text@.take(prefix@.len() as int) == prefix@),
{
    let n = prefix.unicode_len();
    if n > text.unicode_len() {
        return false;
    }
    let mut i: usize = 0;
    while i < n
        invariant
            n == prefix@.len(),
            n <= text@.len(),
            i <= n,
            forall|k: int| 0 <= k < i ==> text@[k] == prefix@[k],
        decreases n - i,
    {
        if text.get_char(i) != prefix.get_char(i) {
            assert(text@.take(n as int)[i as int] != prefix@[i as int]);
            return false;
        }
        i = i + 1;
    }
    assert(text@.take(n as int) =~= prefix@);
    true
}

/// The paths of `paths` that begin with `prefix`, in order.
pub open spec fn paths_with_prefix(paths: Seq<Seq<char>>, prefix: Seq<char>) -> Seq<Seq<char>>
    decreases paths.len(),
{
    if paths.len() == 0 {
        Seq::empty()
    } else {
        let rest = paths_with_prefix(paths.drop_last(), prefix);
        let p = paths.last();
        if prefix.len() <= p.len() && p.take(prefix.len() as int) == prefix {
            rest.push(p)
        } else {
            rest
        }
    }
}

/// The application's bundled assets.
pub struct Assets;

impl Assets {
    /// The position in the asset table of the asset stored under `path`;
    /// `None` when no asset is.
    pub fn asset_index(&self, path: &str) -> (index: Option<usize>)
        ensures
            match index {
                Some(i) => {
                    &&& i < asset_paths().len()
                    &&& asset_paths()[i as int] == path@
                    &&& forall|j: int| 0 <= j < i ==> asset_paths()[j] != path@
                },
                None => !asset_paths().contains(path@),
            },
    {
        let icons = bundled_icon_list();
        let wanted = path.to_owned();
        let mut i: usize = 0;
        while i < icons.len()
            invariant
                icons@ == bundled_icons(),
                wanted@ == path@,
                i <= icons@.len(),
                forall|j: int| 0 <= j < i ==> asset_paths()[j] != path@,
            decreases icons@.len() - i,
        {
            let candidate = icons[i].path().to_owned();
            if candidate == wanted {
                return Some(i);
            }
            i = i + 1;
        }
        assert(!asset_paths().contains(path@)) by {
            if asset_paths().contains(path@) {
                let k = choose|k: int| 0 <= k < asset_paths().len() && asset_paths()[k] == path@;
            }
        }
        None
    }

    /// The paths of the bundled assets that begin with `prefix`, in table
    /// order.
    pub fn list(&self, prefix: &str) -> (paths: Vec<String>)
        ensures
            string_views(paths@) == paths_with_prefix(asset_paths(), prefix@),
    {
        let icons = bundled_icon_list();
        let mut paths: Vec<String> = Vec::new();
        let mut i: usize = 0;
        while i < icons.len()
            invariant
                icons@ == bundled_icons(),
                i <= icons@.len(),
                string_views(paths@) == paths_with_prefix(asset_paths().take(i as int), prefix@),
            decreases icons@.len() - i,
        {
            let path = icons[i].path();
            assert(asset_paths().take(i + 1).drop_last() =~= asset_paths().take(i as int));
            assert(asset_paths().take(i + 1).last() == path@);
            let ghost before = string_views(paths@);
            if has_prefix(path, prefix) {
                paths.push(path.to_owned());
                assert(string_views(paths@) =~= before.push(path@));
            }
            i = i + 1;
        }
        assert(asset_paths().take(icons@.len() as int) =~= asset_paths());
        paths
    }
}

} // verus!
