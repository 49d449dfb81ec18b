use lemon_colonies_client::raster::{decode, RgbaPixels};
use lemon_colonies_client::ui::icon::{icon_images, Icon};

/// An encoded PNG whose pixel at (x, y) is [x mod 256, y mod 256, y / 256, 255].
fn png(width: u32, height: u32) -> Vec<u8> {
    let img = image::RgbaImage::from_fn(width, height, |x, y| {
        image::Rgba([(x % 256) as u8, (y % 256) as u8, (y / 256) as u8, 255])
    });
    let mut out = std::io::Cursor::new(Vec::new());
    img.write_to(&mut out, image::ImageFormat::Png).unwrap();
    out.into_inner()
}

fn pixel(img: &RgbaPixels, x: u32, y: u32) -> [u8; 4] {
    let i = 4 * (y * img.width + x) as usize;
    [img.data[i], img.data[i + 1], img.data[i + 2], img.data[i + 3]]
}

#[test]
fn decoding_a_png() {
    let img = decode(&png(3, 2)).unwrap();
    assert_eq!((img.width, img.height), (3, 2));
    assert_eq!(img.data.len(), 24);
    assert_eq!(pixel(&img, 2, 1), [2, 1, 0, 255]);
}

#[test]
fn bytes_that_are_no_image() {
    assert!(decode(b"not an image").is_none());
    assert!(decode(&[]).is_none());
}

#[test]
fn pixel_buffers_of_the_wrong_length() {
    assert!(RgbaPixels::new(2, 2, vec![0; 15]).is_none());
    assert!(RgbaPixels::new(2, 2, vec![0; 17]).is_none());
    assert!(RgbaPixels::new(2, 2, vec![0; 16]).is_some());
    assert!(RgbaPixels::new(0, 5, vec![]).is_some());
}

#[test]
fn icons_cut_out_of_the_atlases() {
    let overworld = png(160, 670);
    let items = png(64, 220);
    let images = icon_images(&overworld, &items).unwrap();
    let icons: Vec<Icon> = images.iter().map(|(i, _)| *i).collect();
    assert_eq!(
        icons,
        vec![
            Icon::BlueberryBush,
            Icon::RaspberryBush,
            Icon::GolberryBush,
            Icon::Blueberries,
            Icon::Raspberries,
            Icon::Golberries,
        ]
    );
    let corners = [(51, 654, 10), (99, 654, 10), (147, 654, 10), (16, 208, 8), (32, 208, 8), (48, 208, 8)];
    for ((_, img), (x, y, size)) in images.iter().zip(corners) {
        assert_eq!((img.width, img.height), (size, size));
        assert_eq!(img.data.len(), (4 * size * size) as usize);
        assert_eq!(pixel(img, 0, 0), [x as u8, (y % 256) as u8, (y / 256) as u8, 255]);
        let last = size - 1;
        let (lx, ly) = (x + last, y + last);
        assert_eq!(pixel(img, last, last), [lx as u8, (ly % 256) as u8, (ly / 256) as u8, 255]);
    }
}

#[test]
fn an_atlas_that_does_not_decode() {
    let good = png(160, 670);
    assert!(icon_images(b"junk", &good).is_none());
    assert!(icon_images(&good, b"junk").is_none());
}

#[test]
fn icons_near_the_edge_are_cut_short() {
    let atlas = decode(&png(55, 660)).unwrap();
    let img = Icon::BlueberryBush.image(&atlas);
    assert_eq!((img.width, img.height), (4, 6));
    assert_eq!(pixel(&img, 3, 5), [54, (659 % 256) as u8, 2, 255]);

    let far = Icon::GolberryBush.image(&atlas);
    assert_eq!((far.width, far.height), (0, 6));
    assert!(far.data.is_empty());
}
