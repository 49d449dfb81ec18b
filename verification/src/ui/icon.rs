//! Glyphs of the Phosphor icon font that the interface shows.

use crate::game::sprite::Atlas;
use crate::raster::{crop, decode, decoded_rgba, is_crop, lemma_crop_wf, RgbaPixels};
use vstd::prelude::*;

verus! {

/// Trusted: gives `egui_phosphor::regular::BUG`, which the crate's source
/// defines as the one character U+E5F4.
#[verifier::external_body]
pub(crate) fn bug() -> (s: &'static str)
    ensures
        s@ == seq!['\u{E5F4}'],
{
    egui_phosphor::regular::BUG
}

/// Trusted: gives `egui_phosphor::regular::GEAR`, which the crate's source
/// defines as the one character U+E270.
#[verifier::external_body]
pub(crate) fn gear() -> (s: &'static str)
    ensures
        s@ == seq!['\u{E270}'],
{
    egui_phosphor::regular::GEAR
}

/// Trusted: gives `egui_phosphor::regular::PLANT`, which the crate's
/// source defines as the one character U+EBAE.
#[verifier::external_body]
pub(crate) fn plant() -> (s: &'static str)
    ensures
        s@ == seq!['\u{EBAE}'],
{
    egui_phosphor::regular::PLANT
}

/// Trusted: gives `egui_phosphor::regular::TREASURE_CHEST`, which the
/// crate's source defines as the one character U+EDE2.
#[verifier::external_body]
pub(crate) fn treasure_chest() -> (s: &'static str)
    ensures
        s@ == seq!['\u{EDE2}'],
{
    egui_phosphor::regular::TREASURE_CHEST
}


/// An icon of the game's items and objects.
#[derive(Debug, Clone, Copy, PartialEq, Eq, Hash, Structural)]
pub enum Icon {
    BlueberryBush,
    RaspberryBush,
    GolberryBush,
    Blueberries,
    Raspberries,
    Golberries,
}

/// The pixel rectangle of an atlas that holds an icon's image.
#[derive(Debug, Clone, Copy, PartialEq, Eq, Structural)]
pub struct IconSource {
    pub atlas: Atlas,
    pub x: u32,
    pub y: u32,
    pub w: u32,
    pub h: u32,
}

/// Where an icon's image lies: the bushes side by side in the overworld
/// atlas, 48 pixels apart from x = 51 at y = 654, 10 pixels square; the
/// berries side by side in the item atlas, 16 pixels apart from x = 16 at
/// y = 208, 8 pixels square.
pub open spec fn icon_source(icon: Icon) -> IconSource {
    match icon {
        Icon::BlueberryBush => IconSource { atlas: Atlas::BaseOverworld, x: 51, y: 654, w: 10, h: 10 },
        Icon::RaspberryBush => IconSource { atlas: Atlas::BaseOverworld, x: (51 + 48) as u32, y: 654, w: 10, h: 10 },
        Icon::GolberryBush => IconSource { atlas: Atlas::BaseOverworld, x: (51 + 2 * 48) as u32, y: 654, w: 10, h: 10 },
        Icon::Blueberries => IconSource { atlas: Atlas::BaseItems, x: 16, y: 208, w: 8, h: 8 },
        Icon::Raspberries => IconSource { atlas: Atlas::BaseItems, x: (2 * 16) as u32, y: 208, w: 8, h: 8 },
        Icon::Golberries => IconSource { atlas: Atlas::BaseItems, x: (3 * 16) as u32, y: 208, w: 8, h: 8 },
    }
}

impl Icon {
    /// The rectangle of the atlas that holds this icon's image.
    pub fn sprite_source(&self) -> (r: IconSource)
        ensures
            r == icon_source(*self),
    {
        match self {
            Icon::BlueberryBush => IconSource { atlas: Atlas::BaseOverworld, x: 51, y: 654, w: 10, h: 10 },
            Icon::RaspberryBush => IconSource { atlas: Atlas::BaseOverworld, x: 99, y: 654, w: 10, h: 10 },
            Icon::GolberryBush => IconSource { atlas: Atlas::BaseOverworld, x: 147, y: 654, w: 10, h: 10 },
            Icon::Blueberries => IconSource { atlas: Atlas::BaseItems, x: 16, y: 208, w: 8, h: 8 },
            Icon::Raspberries => IconSource { atlas: Atlas::BaseItems, x: 32, y: 208, w: 8, h: 8 },
            Icon::Golberries => IconSource { atlas: Atlas::BaseItems, x: 48, y: 208, w: 8, h: 8 },
        }
    }
}

/// The icons in the order in which the game declares them.
pub open spec fn all_icons() -> Seq<Icon> {
    seq![
        Icon::BlueberryBush,
        Icon::RaspberryBush,
        Icon::GolberryBush,
        Icon::Blueberries,
        Icon::Raspberries,
        Icon::Golberries,
    ]
}

/// The encoded file of an atlas, out of the files of the two atlases.
pub open spec fn atlas_file(a: Atlas, overworld: Seq<u8>, items: Seq<u8>) -> Seq<u8> {
    match a {
        Atlas::BaseOverworld => overworld,
        Atlas::BaseItems => items,
    }
}

/// Whether `image` can decode an encoded image file.
pub open spec fn decodes(file: Seq<u8>) -> bool {
    decoded_rgba(file) is Some
}

/// Whether `r` is the image of `icon` cut out of the decoded atlas file
/// `file`.
pub open spec fn is_icon_image(r: RgbaPixels, file: Seq<u8>, icon: Icon) -> bool {
    let s = icon_source(icon);
    decoded_rgba(file) matches Some((w, h, data)) && is_crop(r, w, h, data, s.x, s.y, s.w, s.h)
}

impl Icon {
    /// This icon's image, cut out of the image `atlas` of its atlas.
    pub fn image(&self, atlas: &RgbaPixels) -> (r: RgbaPixels)
        requires
            atlas.wf(),
        ensures
            is_crop(r, atlas.width, atlas.height, atlas.data@, icon_source(*self).x,
                icon_source(*self).y, icon_source(*self).w, icon_source(*self).h),
            r.wf(),
    {
        let s = self.sprite_source();
        let r = crop(atlas, s.x, s.y, s.w, s.h);
        proof {
            lemma_crop_wf(r, atlas.width, atlas.height, atlas.data@, s.x, s.y, s.w, s.h);
        }
        r
    }
}

/// The images of all icons, in the order of `all_icons`, cut out of the
/// two atlas files; `None` where either file does not decode.
pub fn icon_images(overworld: &[u8], items: &[u8]) -> (r: Option<Vec<(Icon, RgbaPixels)>>)
    ensures
        r is Some <==> decodes(overworld@) && decodes(items@),
        r matches Some(v) ==> {
            &&& v@.len() == all_icons().len()
            &&& forall|k: int|
                0 <= k < v@.len() ==> {
                    let icon = all_icons()[k];
                    &&& #[trigger] v@[k].0 == icon
                    &&& v@[k].1.wf()
                    &&& is_icon_image(v@[k].1, atlas_file(icon_source(icon).atlas, overworld@, items@), icon)
                }
        },
{
    let overworld_img = match decode(overworld) {
        Some(img) => img,
        None => return None,
    };
    let items_img = match decode(items) {
        Some(img) => img,
        None => return None,
    };
    let icons = [
        Icon::BlueberryBush,
        Icon::RaspberryBush,
        Icon::GolberryBush,
        Icon::Blueberries,
        Icon::Raspberries,
        Icon::Golberries,
    ];
    let mut out: Vec<(Icon, RgbaPixels)> = Vec::new();
    let mut i: usize = 0;
    while i < 6
        invariant
            0 <= i <= 6,
            icons@ == all_icons(),
            overworld_img.wf(),
            items_img.wf(),
            decoded_rgba(overworld@) == Some(
                (overworld_img.width, overworld_img.height, overworld_img.data@),
            ),
            decoded_rgba(items@) == Some((items_img.width, items_img.height, items_img.data@)),
            out@.len() == i,
            forall|k: int|
                0 <= k < i ==> {
                    let icon = all_icons()[k];
                    &&& #[trigger] out@[k].0 == icon
                    &&& out@[k].1.wf()
                    &&& is_icon_image(out@[k].1, atlas_file(icon_source(icon).atlas, overworld@, items@), icon)
                },
        decreases 6 - i,
    {
        let icon = icons[i];
        let atlas = match icon.sprite_source().atlas {
            Atlas::BaseOverworld => &overworld_img,
            Atlas::BaseItems => &items_img,
        };
        let img = icon.image(atlas);
        out.push((icon, img));
        i = i + 1;
    }
    Some(out)
}

} // verus!
