use azalea_chat::FormattedText;
use base64::Engine;
use image::ImageEncoder;
use pomme_client::components::{template_reading, Reading};
use pomme_client::decode::decode_image;
use pomme_client::font::{detect_glyph_bounds, GlyphInfo, GlyphMap};
use pomme_client::menu::pictures::{collect_faces, collect_favicons, favicon_count};
use pomme_client::overlay::{
    build_font_atlas, ceil_sqrt, draw_from, update_favicon_atlas, Clip, DrawOp, Favicon,
    OverlayItem, RasterGlyph,
};
use pomme_client::pixels::{blit_image, crop, extract_face_8x8, Image};
use pomme_client::server_list::{decode_favicon, Compat, PingResults, PingState};
use pomme_client::shelf::Shelf;
use pomme_client::sprites::{
    build_sprite_atlas, creative_tab_key, load_sprite_assets, load_sprite_atlas, pack_sprites,
    sprite_images, SpriteAssets, SpriteFiles, SpriteId, SpriteImage, SPRITES,
};
use pomme_client::text::{
    char_widths, checked_text_spans, event_spans, format_text_spans, is_white_space, plain_spans,
    push_mc_text, split_words, style_to_rgba, trimmed_text, GlyphLayer, Style, TextColor,
    TextEvent, TextOp, TextSpan, Wrapping,
};

fn png(width: u32, height: u32, rgba: &[u8]) -> Vec<u8> {
    let mut file = Vec::new();
    image::codecs::png::PngEncoder::new(&mut file)
        .write_image(rgba, width, height, image::ExtendedColorType::Rgba8)
        .unwrap();
    file
}

#[test]
fn image_files_are_decoded_to_four_channels() {
    let image = decode_image(&png(1, 2, &[1, 2, 3, 4, 5, 6, 7, 8])).unwrap();
    assert_eq!((image.width, image.height), (1, 2));
    assert_eq!(image.rgba, vec![1, 2, 3, 4, 5, 6, 7, 8]);
    let mut grey = Vec::new();
    image::codecs::png::PngEncoder::new(&mut grey)
        .write_image(&[7, 9], 2, 1, image::ExtendedColorType::L8)
        .unwrap();
    assert_eq!(decode_image(&grey).unwrap().rgba, vec![7, 7, 7, 255, 9, 9, 9, 255]);
    assert!(decode_image(&vec![]).is_none());
}

#[test]
fn favicons_are_pictures_in_text() {
    let file = png(1, 1, &[10, 20, 30, 40]);
    let encoded = base64::engine::general_purpose::STANDARD.encode(&file);
    let rgba = Some(vec![10, 20, 30, 40]);
    assert_eq!(decode_favicon(&format!("data:image/png;base64,{encoded}")), rgba);
    assert_eq!(decode_favicon(&encoded), rgba);
    assert_eq!(decode_favicon(&"data:image/png;base64,%%%".to_string()), None);
    let no_image = base64::engine::general_purpose::STANDARD.encode(b"text");
    assert_eq!(decode_favicon(&no_image), None);
}

#[test]
fn rectangles_are_placed_on_shelves() {
    let mut shelf = Shelf::new(10, 0);
    assert_eq!(shelf.place(6, 3), Some((0, 0)));
    assert_eq!(shelf.place(4, 5), Some((6, 0)));
    assert_eq!(shelf.place(1, 1), Some((0, 5)));
    assert_eq!(shelf.place(9, 5), Some((1, 5)));
    assert_eq!(shelf.place(1, 1), None);
    let mut spaced = Shelf::new(10, 1);
    assert_eq!(spaced.place(4, 4), Some((0, 0)));
    assert_eq!(spaced.place(4, 2), Some((5, 0)));
    assert_eq!(spaced.place(4, 4), Some((0, 5)));
    assert_eq!(spaced.place(4, 5), None);
}

#[test]
fn blocks_of_pixels_are_copied_and_the_rest_is_kept() {
    let mut dst = vec![0; 3 * 3 * 4];
    let src: Vec<u8> = (1..=16).collect();
    blit_image(&mut dst, 3, &src, 2, 1, 1, 2, 2);
    assert_eq!(dst[..16], [0; 16]);
    assert_eq!(dst[16..24], [1, 2, 3, 4, 5, 6, 7, 8]);
    assert_eq!(dst[24..28], [0; 4]);
    assert_eq!(dst[28..36], [9, 10, 11, 12, 13, 14, 15, 16]);
}

#[test]
fn cropping_keeps_the_upper_left() {
    let image = Image { width: 2, height: 2, rgba: (0..16).collect() };
    let cut = crop(&image, 1, 9);
    assert_eq!((cut.width, cut.height), (1, 2));
    assert_eq!(cut.rgba, vec![0, 1, 2, 3, 8, 9, 10, 11]);
}

fn skin() -> Vec<u8> {
    let mut rgba = vec![0; 64 * 64 * 4];
    for y in 8..16 {
        for x in 8..16 {
            let at = (y * 64 + x) * 4;
            rgba[at..at + 4].copy_from_slice(&[100, 50, 25, 255]);
        }
    }
    let hat = (8 * 64 + 40) * 4;
    rgba[hat..hat + 4].copy_from_slice(&[200, 200, 200, 128]);
    rgba
}

#[test]
fn a_hat_lies_over_the_face() {
    let mix = |hat: u8, under: u8, alpha: u8| {
        ((hat as u32 * alpha as u32 + under as u32 * (255 - alpha as u32)) / 255) as u8
    };
    let face = extract_face_8x8(&skin(), 64, 64, mix).unwrap();
    assert_eq!(face.len(), 256);
    assert_eq!(face[..4], [mix(200, 100, 128), mix(200, 50, 128), mix(200, 25, 128), 255]);
    assert_eq!(face[4..8], [100, 50, 25, 255]);
    assert!(extract_face_8x8(&skin(), 32, 64, mix).is_none());
    assert!(extract_face_8x8(&skin(), 64, 15, mix).is_none());
    // Whatever is missing below the face's rows, or of a skin that is too small.
    let top = skin()[..64 * 16 * 4].to_vec();
    assert_eq!(extract_face_8x8(&top, 64, 64, mix).unwrap(), face);
    assert!(extract_face_8x8(&vec![], 47, 64, mix).is_none());
}

fn square(id: SpriteId, side: u32, value: u8) -> SpriteImage {
    let image = Image { width: side, height: side, rgba: vec![value; (side * side * 4) as usize] };
    SpriteImage { id, image, border: 3 }
}

#[test]
fn sprites_are_packed_without_overlap() {
    let images = vec![
        square(SpriteId::Hotbar, 600, 1),
        square(SpriteId::HeartFull, 500, 2),
        square(SpriteId::HeartHalf, 2000, 3),
        square(SpriteId::FoodFull, 10, 4),
    ];
    let atlas = pack_sprites(&images);
    assert_eq!(atlas.pixels.len(), 1024 * 1024 * 4);
    let a = atlas.region(SpriteId::Hotbar).unwrap();
    assert_eq!((a.x, a.y, a.w, a.h, a.border), (0, 0, 600, 600, 3));
    assert!(atlas.region(SpriteId::HeartHalf).is_none());
    let c = atlas.region(SpriteId::FoodFull).unwrap();
    let pixel = |x: u32, y: u32| atlas.pixels[((y * 1024 + x) * 4) as usize];
    assert_eq!(pixel(599, 599), 1);
    assert_eq!(pixel(600, 599), 0);
    assert_eq!(pixel(c.x, c.y), 4);
    for p in &atlas.placed {
        for q in &atlas.placed {
            if p.id != q.id {
                assert!(
                    p.x + p.w <= q.x || q.x + q.w <= p.x || p.y + p.h <= q.y || q.y + q.h <= p.y
                );
            }
        }
    }
}

fn no_assets() -> SpriteAssets {
    SpriteAssets {
        sprites: (0..71).map(|_| None).collect(),
        steve: None,
        containers: (0..5).map(|_| None).collect(),
        tabs: (0..28).map(|_| None).collect(),
    }
}

#[test]
fn missing_sprites_are_a_bright_pixel() {
    let images = sprite_images(&no_assets(), |hat, _under, _alpha| hat);
    assert_eq!(images.len(), 105);
    assert!(images.iter().all(|i| i.image.rgba == vec![255, 0, 255, 255]));
    let atlas = build_sprite_atlas(&no_assets(), |hat, _under, _alpha| hat);
    assert_eq!(atlas.placed.len(), 105);
    assert_eq!(atlas.placed[104].x, 104);
}

#[test]
fn loaded_sprites_keep_their_pixels_and_borders() {
    let mut assets = no_assets();
    assets.sprites[0] = Some(Image { width: 1, height: 1, rgba: vec![1, 2, 3, 4] });
    assets.steve = Some(Image { width: 64, height: 64, rgba: skin() });
    assets.containers[0] =
        Some(Image { width: 256, height: 256, rgba: vec![5; 256 * 256 * 4] });
    let images = sprite_images(&assets, |hat, _under, _alpha| hat);
    assert_eq!(images[0].image.rgba, vec![1, 2, 3, 4]);
    assert_eq!((images[0].id, images[0].border), (SPRITES[0].0, SPRITES[0].2));
    assert_eq!((images[71].image.width, images[71].image.height), (8, 8));
    assert!(images[72].image.width < 256);
}

#[test]
fn sprites_are_read_from_files() {
    let mut files = SpriteFiles {
        sprites: (0..71).map(|_| None).collect(),
        steve: Some(png(64, 64, &skin())),
        containers: (0..5).map(|_| None).collect(),
        tabs: (0..28).map(|_| None).collect(),
    };
    files.sprites[0] = Some(png(2, 1, &[1, 2, 3, 4, 5, 6, 7, 8]));
    files.sprites[1] = Some(vec![1, 2, 3]);
    let assets = load_sprite_assets(&files);
    assert_eq!(assets.sprites[0].as_ref().unwrap().rgba, vec![1, 2, 3, 4, 5, 6, 7, 8]);
    assert!(assets.sprites[1].is_none() && assets.sprites[2].is_none());
    let atlas = load_sprite_atlas(&files, |hat, _under, _alpha| hat);
    assert_eq!(&atlas.pixels[0..12], &[1, 2, 3, 4, 5, 6, 7, 8, 255, 0, 255, 255]);
    assert_eq!((atlas.placed[1].x, atlas.placed[71].w), (2, 8));
}

#[test]
fn creative_tabs_have_files() {
    assert_eq!(
        creative_tab_key(1, 0, 6),
        "minecraft/textures/gui/sprites/container/creative_inventory/tab_bottom_unselected_7.png"
    );
}

fn sheet() -> Image {
    let mut rgba = vec![0; 128 * 128 * 4];
    let mut ink = |x: usize, y: usize| rgba[(y * 128 + x) * 4 + 3] = 255;
    // 'A' is in the second column of the fifth row.
    ink(8, 32 + 1);
    ink(8 + 4, 32 + 6);
    ink(16, 32);
    Image { width: 128, height: 128, rgba }
}

#[test]
fn glyph_bounds_hold_the_ink() {
    let img = sheet();
    assert_eq!(detect_glyph_bounds(&img, 8, 32, 8, 8), Some((5, 1, 6)));
    assert_eq!(detect_glyph_bounds(&img, 0, 0, 8, 8), None);
}

#[test]
fn fonts_find_their_glyphs() {
    let font = GlyphMap::from_sheets(sheet(), None);
    let a = GlyphInfo { col: 1, row: 4, width: 5, y_offset: 1, height: 6 };
    assert_eq!(font.glyph('A', false), Some(a));
    assert_eq!(font.glyph('A', true), Some(a));
    let space = GlyphInfo { col: 0, row: 2, width: 4, y_offset: 0, height: 8 };
    assert_eq!(font.glyph(' ', false), Some(space));
    assert_eq!(font.glyph('z', false), None);
    assert_eq!(font.dimensions(), (128, 128));
    let alternate = GlyphMap::from_sheets(sheet(), Some(sheet()));
    assert_eq!(alternate.glyph('A', true).unwrap().row, 20);
    assert_eq!(alternate.dimensions(), (128, 256));
    assert_eq!(alternate.raw_pixels().len(), 128 * 256 * 4);
}

#[test]
fn fonts_are_read_from_files() {
    let file = png(128, 128, &sheet().rgba);
    let font = GlyphMap::load(Some(&file), None).unwrap();
    assert_eq!(font.glyph('A', false).unwrap().width, 5);
    assert!(GlyphMap::load(None, Some(&file)).is_none());
    assert!(GlyphMap::load(Some(&vec![1]), None).is_none());
    let both = GlyphMap::load(Some(&file), Some(&file)).unwrap();
    assert_eq!(both.dimensions(), (128, 256));
}

#[test]
fn sheets_without_columns_read_no_pixel_of_the_letters() {
    let plain = png(8, 16, &[255; 8 * 16 * 4]);
    let letters = png(8, 1, &[255; 8 * 4]);
    let font = GlyphMap::load(Some(&plain), Some(&letters)).unwrap();
    assert_eq!((font.cell_w, font.cell_h), (0, 1));
    assert_eq!(font.dimensions(), (8, 17));
    assert_eq!(font.glyph('A', true), None);
    assert_eq!(font.glyph(' ', false).unwrap().width, 0);
    // With columns the rows of the letters are owed.
    let wide = png(16, 16, &[255; 16 * 16 * 4]);
    let low = png(16, 7, &[255; 16 * 7 * 4]);
    assert!(GlyphMap::load(Some(&wide), Some(&low)).is_none());
}

fn style(color: Option<u32>, bold: Option<bool>) -> Style {
    Style { color, bold, italic: None, strikethrough: None, underlined: None }
}

#[test]
fn text_is_flattened_into_runs() {
    let events = vec![
        TextEvent::Text("plain".to_string()),
        TextEvent::Style(style(Some(0xFF8001), Some(true))),
        TextEvent::Text(String::new()),
        TextEvent::Text("bold".to_string()),
    ];
    let spans = event_spans(&events);
    assert_eq!(spans.len(), 2);
    assert_eq!(spans[0].text, "plain");
    assert_eq!(spans[0].color, TextColor::Base);
    assert_eq!(spans[1].text, "bold");
    assert!(spans[1].bold && !spans[1].italic);
    assert_eq!(spans[1].color, TextColor::Rgb { r: 0xFF, g: 0x80, b: 1 });
    assert!(event_spans(&vec![]).is_empty());
    let spans = plain_spans("fallback".to_string());
    assert_eq!(spans.len(), 1);
    assert_eq!((spans[0].text.as_str(), spans[0].color), ("fallback", TextColor::Base));
    assert!(plain_spans(String::new()).is_empty());
    assert_eq!(style_to_rgba(&style(None, None)), TextColor::Base);
}

#[test]
fn text_is_drawn_over_two_lines() {
    let font = GlyphMap::from_sheets(sheet(), None);
    let mut span = TextSpan::new("Az\nA\nA".to_string(), TextColor::Base);
    let face = font.glyph('A', false).unwrap();
    let quad = |layer| TextOp::Quad { span: 0, glyph: face, layer };
    assert_eq!(
        push_mc_text(&font, &vec![span], true),
        vec![
            quad(GlyphLayer::Shadow),
            quad(GlyphLayer::Face),
            TextOp::Advance { pixels: 6 },
            TextOp::SecondLine,
            quad(GlyphLayer::Shadow),
            quad(GlyphLayer::Face),
            TextOp::Advance { pixels: 6 },
        ]
    );
    span = TextSpan::new("A".to_string(), TextColor::Base);
    span.bold = true;
    span.underline = true;
    assert_eq!(
        push_mc_text(&font, &vec![span], false),
        vec![
            quad(GlyphLayer::Face),
            quad(GlyphLayer::BoldFace),
            quad(GlyphLayer::Underline),
            TextOp::Advance { pixels: 7 },
        ]
    );
    assert_eq!(char_widths(&font, &"A z".to_string(), false), vec![6, 5, 5]);
}

#[test]
fn alternate_letters_are_drawn_with_their_own_glyphs() {
    let mut other = sheet();
    other.rgba[(32 * 128 + 14) * 4 + 3] = 255;
    let font = GlyphMap::from_sheets(sheet(), Some(other));
    let mut span = TextSpan::new("A".to_string(), TextColor::Base);
    span.sga = true;
    let glyph = font.glyph('A', true).unwrap();
    assert_eq!((glyph.row, glyph.width), (20, 7));
    assert_eq!(
        push_mc_text(&font, &vec![span], false),
        vec![
            TextOp::Quad { span: 0, glyph, layer: GlyphLayer::Face },
            TextOp::Advance { pixels: 8 }
        ]
    );
    assert_eq!(char_widths(&font, &"A".to_string(), true), vec![8]);
    assert_eq!(char_widths(&font, &"A".to_string(), false), vec![6]);
}

#[test]
fn white_space_is_what_the_standard_library_says() {
    for code in 0..=0x3100u32 {
        if let Some(ch) = char::from_u32(code) {
            assert_eq!(is_white_space(ch), ch.is_whitespace(), "{code:x}");
        }
    }
    assert!(!is_white_space('\u{10FFFF}'));
}

#[test]
fn words_are_set_apart_by_white_space_of_any_kind() {
    let words = split_words(&"  a\u{2003}bc\t\nd ".to_string());
    assert_eq!(words, vec!["a", "bc", "d"]);
    assert_eq!(trimmed_text(&"\u{3000} x y \n".to_string()), "x y");
    assert_eq!(trimmed_text(&" \t ".to_string()), "");
}

#[test]
fn wrapping_loses_no_word() {
    let mut wrapping = Wrapping::new();
    wrapping.add_word(&"one".to_string(), true);
    wrapping.add_word(&"two".to_string(), false);
    wrapping.add_word(&"three".to_string(), true);
    assert_eq!(wrapping.finish(), vec!["one two", "three"]);
    assert!(Wrapping::new().finish().is_empty());
}

#[test]
fn draw_calls_are_cut_at_clippings_and_tooltips_come_last() {
    let items = vec![
        OverlayItem::Shape { vertices: 6 },
        OverlayItem::Tooltip { vertices: 12 },
        OverlayItem::ScissorPush,
        OverlayItem::Shape { vertices: 6 },
        OverlayItem::ScissorPush,
        OverlayItem::Shape { vertices: 18 },
        OverlayItem::ScissorPop,
        OverlayItem::ScissorPop,
        OverlayItem::Shape { vertices: 6 },
    ];
    let plan = draw_from(&items, 0);
    assert_eq!(
        plan.ops,
        vec![
            DrawOp { start: 0, count: 6, scissor: None },
            DrawOp { start: 6, count: 6, scissor: Some(2) },
            DrawOp { start: 12, count: 18, scissor: Some(4) },
            DrawOp { start: 30, count: 18, scissor: None },
        ]
    );
    assert_eq!(
        plan.clips,
        vec![Clip { item: 2, within: None }, Clip { item: 4, within: Some(2) }]
    );
    assert_eq!(plan.order, vec![0, 3, 5, 8, 1]);
    assert_eq!((plan.written, plan.next_base), (48, 48));
    let full = draw_from(&items, 16380);
    assert_eq!((full.written, full.next_base), (4, 16384));
}

#[test]
fn icons_are_scaled_into_cells() {
    assert_eq!(ceil_sqrt(4), 2);
    assert_eq!(ceil_sqrt(5), 3);
    let icon = |key: &str, value: u8| Favicon {
        key: key.to_string(),
        rgba: vec![value, 0, 0, 255, 0, value, 0, 255, 0, 0, value, 255, 9, 9, 9, 255],
        size: 2,
    };
    assert!(update_favicon_atlas(&vec![]).is_none());
    let atlas = update_favicon_atlas(&vec![icon("a", 1), icon("b", 2), icon("c", 3)]).unwrap();
    assert_eq!((atlas.width, atlas.height), (128, 128));
    assert_eq!((atlas.cells[2].x, atlas.cells[2].y), (0, 64));
    let pixel = |x: usize, y: usize| &atlas.pixels[(y * 128 + x) * 4..(y * 128 + x) * 4 + 4];
    assert_eq!(pixel(31, 31), [1, 0, 0, 255]);
    assert_eq!(pixel(32, 31), [0, 1, 0, 255]);
    assert_eq!(pixel(64, 32), [0, 0, 2, 255]);
    assert_eq!(pixel(64, 64), [0, 0, 0, 0]);
}

#[test]
fn rasterised_glyphs_share_an_atlas() {
    let glyph = |ch, width: u32, height: u32| RasterGlyph {
        ch,
        width,
        height,
        coverage: vec![200; (width * height) as usize],
    };
    let atlas = build_font_atlas(&vec![glyph('a', 4, 6), glyph('b', 3, 2), glyph('c', 0, 0)]);
    assert_eq!(atlas.pixels.len(), 512 * 512 * 4);
    let a = atlas.glyphs.iter().find(|g| g.ch == 'a').unwrap();
    let b = atlas.glyphs.iter().find(|g| g.ch == 'b').unwrap();
    assert_eq!((a.x, a.y, a.width, a.height), (0, 0, 4, 6));
    assert_eq!((b.x, b.y), (5, 0));
    assert_eq!(atlas.pixels[3], 200);
    assert_eq!(atlas.pixels[4 * 4 + 3], 0);
}

#[test]
fn pictures_of_servers_and_friends_are_gathered() {
    let mut results = PingResults::new();
    let success = |favicon_rgba| PingState::Success {
        motd: vec![],
        online: 0,
        max: 0,
        latency_ms: 0,
        version: String::new(),
        protocol: 0,
        compat: Compat::Native,
        favicon_rgba,
        player_names: vec![],
    };
    results.insert("a".to_string(), success(Some(vec![7; 64 * 64 * 4])));
    results.insert("b".to_string(), PingState::Pinging);
    results.insert("c".to_string(), success(None));
    results.insert("d".to_string(), success(Some(vec![7; 11])));
    assert_eq!(favicon_count(&results), 2);
    let icons = collect_favicons(&results);
    assert_eq!((icons[0].key.as_str(), icons[0].size), ("a", 64));
    assert_eq!((icons[1].key.as_str(), icons[1].size), ("d", 1));
    let faces = collect_faces(&vec![("id".to_string(), vec![1; 256])]);
    assert_eq!((faces[0].key.as_str(), faces[0].size), ("id", 8));
    assert_eq!(faces[0].rgba, vec![1; 256]);
}

fn component(json: &str) -> FormattedText {
    serde_json::from_str(json).unwrap()
}

#[test]
fn components_are_flattened_into_runs() {
    let spans = format_text_spans(&component(
        r#"{"text":"Hi ","color":"red","bold":true,
            "extra":[{"text":"you","bold":false,"italic":true,"underlined":true},"!"]}"#,
    ));
    let red = TextColor::Rgb { r: 0xFF, g: 0x55, b: 0x55 };
    let shown: Vec<(&str, TextColor, bool, bool, bool)> = spans
        .iter()
        .map(|s| (s.text.as_str(), s.color, s.bold, s.italic, s.underline))
        .collect();
    assert_eq!(
        shown,
        vec![
            ("Hi ", red, true, false, false),
            ("you", red, false, true, true),
            ("!", red, true, false, false)
        ]
    );
}

#[test]
fn translations_are_flattened_into_runs() {
    let spans = format_text_spans(&component(
        r#"{"translate":"no.such.key","fallback":"%s has %s","with":["A","B"]}"#,
    ));
    let texts: Vec<&str> = spans.iter().map(|s| s.text.as_str()).collect();
    assert_eq!(texts, vec!["A", " has ", "B"]);
    assert!(spans.iter().all(|s| s.color == TextColor::Base && !s.bold && !s.sga));
    assert!(format_text_spans(&component(r#"{"text":""}"#)).is_empty());
}

fn reading_of(template: &str, shown: &[bool]) -> Reading {
    template_reading(&template.chars().collect(), &shown.to_vec())
}

#[test]
fn templates_are_told_apart() {
    assert_eq!(reading_of("a %s b %% %1$s %9$s %x %", &[true]), Reading::Whole);
    assert_eq!(reading_of("", &[]), Reading::Whole);
    assert_eq!(reading_of("%1", &[]), Reading::Malformed);
    assert_eq!(reading_of("%1$d", &[]), Reading::Malformed);
    assert_eq!(reading_of("%0", &[]), Reading::Malformed);
    assert_eq!(reading_of("%0$s", &[]), Reading::Fatal);
    assert_eq!(reading_of("%s", &[false]), Reading::Fatal);
    assert_eq!(reading_of("%s%s", &[true, false]), Reading::Fatal);
    assert_eq!(reading_of("%2$s", &[true, false]), Reading::Fatal);
    assert_eq!(reading_of("%1$s", &[true, false]), Reading::Whole);
    assert_eq!(reading_of("%%s", &[false]), Reading::Whole);
    assert_eq!(reading_of("%1 %s", &[false]), Reading::Malformed);
}

fn checked(json: &str) -> Option<Vec<String>> {
    let spans = checked_text_spans(&component(json))?;
    Some(spans.into_iter().map(|s| s.text).collect())
}

#[test]
fn malformed_translations_are_shown_by_their_key() {
    let runs = Some(vec!["a".to_string(), "%1".to_string()]);
    assert_eq!(checked(r#"{"text":"a","extra":[{"translate":"%1"}]}"#), runs);
    assert_eq!(format_text_spans(&component(r#"{"translate":"%1"}"#))[0].text, "%1");
}

#[test]
fn known_keys_are_translated_before_they_are_checked() {
    assert_eq!(
        checked(r#"{"translate":"gui.done","fallback":"%0$s"}"#),
        Some(vec!["Done".to_string()])
    );
}

#[test]
fn components_that_cannot_be_shown_give_nothing() {
    // Argument zero, on its own, behind a text and inside an argument.
    assert_eq!(checked(r#"{"translate":"%0$s"}"#), None);
    assert_eq!(checked(r#"{"text":"a","extra":[{"text":"b"},{"translate":"%0$s"}]}"#), None);
    assert_eq!(checked(r#"{"translate":"%s","with":[{"translate":"%0$s"}]}"#), None);
    // An argument whose display hands on that it is malformed.
    let with = r#"[{"text":"a","extra":[{"translate":"%1"}]}]"#;
    assert_eq!(checked(&format!(r#"{{"translate":"%1$s","with":{with}}}"#)), None);
    assert_eq!(checked(&format!(r#"{{"translate":"%s","with":{with}}}"#)), None);
    assert_eq!(
        checked(&format!(r#"{{"translate":"no","with":{with}}}"#)),
        Some(vec!["no".to_string()])
    );
    // An argument that shows its key instead.
    assert_eq!(
        checked(r#"{"translate":"%1$s","with":[{"translate":"%1"}]}"#),
        Some(vec!["%1".to_string()])
    );
    // No run, and a display that hands on that it is malformed.
    assert_eq!(
        checked(r#"{"text":"","extra":[{"translate":"","fallback":"%1"}]}"#),
        None
    );
    assert_eq!(checked(r#"{"text":""}"#), Some(vec![]));
}
