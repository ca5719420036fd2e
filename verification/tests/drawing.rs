use std::collections::HashSet;

use image::ImageEncoder;
use pomme_client::block_overlay::{
    build_overlay_vertices, destroy_stage_key, face_source, load_destroy_atlas, nearest_direction,
    project_crack_uv, push_face, wanted_overlay_vertices, Direction, FaceSource, OverlayVertex,
    Point, Quad, MAX_OVERLAY_VERTS,
};
use pomme_client::blur::{execute, BlurAxis, BlurImage, BlurSize, BlurStep, ImageLayout};
use pomme_client::book_model::{book_texture, build_parts, cube, BookPoint, PartBox};
use pomme_client::chunk_borders::{update_lines, BorderColor};
use pomme_client::clouds::{
    build_extruded_cell, build_flat_cell, build_mesh, cloud_grid, load_cloud_grid, scroll_ticks,
    CloudCell, CloudDraw, CloudGrid, CloudMesh, CloudMode, CloudView, RelativePos,
};
use pomme_client::pipelines::{
    entity_pipelines, entity_state, first_content, pool_sizes, raster_state, vertex_layout,
    BlendFactor, BlendMode, DepthCompare, FirstContent, MenuTexture, PipelineKind, PoolUser,
    VertexFormat,
};
use pomme_client::pixels::Image;
use pomme_client::skin_model::{
    add_box, advance_swing, build_body_mesh, build_head_mesh, build_right_arm_mesh, Corner, SkinBox,
};
use pomme_client::swapchain::{
    choose_extent, choose_format, choose_image_count, choose_present_mode, render_pass,
    sharing_families, ColorLayout, Extent, PassKind, PresentMode, SurfaceCaps, SurfaceFormat,
    B8G8R8A8_SRGB, SRGB_NONLINEAR,
};

fn png(width: u32, height: u32, rgba: &[u8]) -> Vec<u8> {
    let mut file = Vec::new();
    image::codecs::png::PngEncoder::new(&mut file)
        .write_image(rgba, width, height, image::ExtendedColorType::Rgba8)
        .unwrap();
    file
}

const SIDES: [Direction; 6] = [
    Direction::Down,
    Direction::Up,
    Direction::North,
    Direction::South,
    Direction::West,
    Direction::East,
];

fn side_corners(dir: Direction) -> [Point; 4] {
    let p = |x, y, z| Point { x, y, z };
    match dir {
        Direction::Down => [p(0, 0, 0), p(1, 0, 0), p(1, 0, 1), p(0, 0, 1)],
        Direction::Up => [p(0, 1, 0), p(0, 1, 1), p(1, 1, 1), p(1, 1, 0)],
        Direction::North => [p(1, 0, 0), p(0, 0, 0), p(0, 1, 0), p(1, 1, 0)],
        Direction::South => [p(0, 0, 1), p(1, 0, 1), p(1, 1, 1), p(0, 1, 1)],
        Direction::West => [p(0, 0, 0), p(0, 0, 1), p(0, 1, 1), p(0, 1, 0)],
        Direction::East => [p(1, 0, 1), p(1, 0, 0), p(1, 1, 0), p(1, 1, 1)],
    }
}

#[test]
fn projection_maps_each_face_to_a_unit_tile() {
    let span = |xs: [f32; 4]| {
        let min = xs.iter().copied().fold(f32::INFINITY, f32::min);
        let max = xs.iter().copied().fold(f32::NEG_INFINITY, f32::max);
        max - min
    };
    for dir in SIDES {
        let positions = side_corners(dir);
        let uv: [[f32; 2]; 4] = std::array::from_fn(|i| {
            let (u, v) = project_crack_uv(positions[i], dir);
            [u as f32, v as f32]
        });
        let us = std::array::from_fn(|i| uv[i][0]);
        let vs = std::array::from_fn(|i| uv[i][1]);
        assert!((span(us) - 1.0).abs() < 1e-4, "{dir:?} u span {}", span(us));
        assert!((span(vs) - 1.0).abs() < 1e-4, "{dir:?} v span {}", span(vs));
    }
}

#[test]
fn faces_look_to_their_side() {
    for dir in SIDES {
        assert_eq!(nearest_direction(&side_corners(dir)), dir);
    }
    let flat = [Point { x: 0, y: 0, z: 0 }; 4];
    assert_eq!(nearest_direction(&flat), Direction::East);
}

#[test]
fn cracks_start_at_the_corner_of_the_face() {
    let mut verts = Vec::new();
    let p = |x, y, z| Point { x, y, z };
    let positions = [p(4, 16, 4), p(4, 16, 12), p(12, 16, 12), p(12, 16, 4)];
    push_face(&mut verts, &positions, Direction::Up, 7);
    let uv: Vec<(i64, i64)> = verts.iter().map(|v| (v.u, v.v)).collect();
    assert_eq!(uv, vec![(0, 0), (0, 8), (8, 8), (0, 0), (8, 8), (8, 0)]);
    assert!(verts.iter().all(|v| v.stage == 7));
    let moved = positions.map(|q| p(q.x - 100, q.y + 7, q.z + 31));
    let mut elsewhere: Vec<OverlayVertex> = Vec::new();
    push_face(&mut elsewhere, &moved, Direction::Up, 7);
    for (a, b) in verts.iter().zip(&elsewhere) {
        assert_eq!((a.u, a.v), (b.u, b.v));
    }
}

#[test]
fn cracks_end_with_a_whole_face() {
    let quads: Vec<Quad> = (0..300)
        .map(|_| Quad { positions: side_corners(Direction::Up), cullface: None })
        .collect();
    assert_eq!(build_overlay_vertices(&quads, 0).len(), MAX_OVERLAY_VERTS);
    assert_eq!(wanted_overlay_vertices(&quads), 1800);
    assert_eq!(wanted_overlay_vertices(&vec![]), 0);
    assert_eq!(build_overlay_vertices(&quads[..2].iter().map(|q| Quad {
        positions: q.positions,
        cullface: Some(Direction::Down),
    }).collect(), 0).len(), 12);
}

#[test]
fn blocks_without_a_model_crack_like_a_cube() {
    assert_eq!(face_source(true, true, true), FaceSource::Model);
    assert_eq!(face_source(false, true, true), FaceSource::Parts);
    assert_eq!(face_source(false, false, true), FaceSource::Cube);
    assert_eq!(face_source(false, false, false), FaceSource::Nothing);
}

#[test]
fn stages_are_stacked_in_the_crack_atlas() {
    assert_eq!(destroy_stage_key(9), "minecraft/textures/block/destroy_stage_9.png");
    let red = png(2, 2, &[9; 16]);
    let files = vec![None, Some(red), Some(vec![1, 2, 3]), None];
    let atlas = load_destroy_atlas(&files);
    assert_eq!(atlas.tile_size, 2);
    assert_eq!(atlas.pixels.len(), 16 * 16 * 4 + 16 + 16 + 16);
    assert!(atlas.pixels[..1024].iter().all(|b| *b == 0));
    assert!(atlas.pixels[1024..1040].iter().all(|b| *b == 9));
    assert!(atlas.pixels[1040..].iter().all(|b| *b == 0));
}

fn cloud_picture() -> Image {
    let mut rgba = vec![0; 3 * 2 * 4];
    rgba[3] = 10;
    rgba[4 + 3] = 255;
    rgba[(3 + 2) * 4 + 3] = 9;
    Image { width: 3, height: 2, rgba }
}

#[test]
fn clouds_are_texels_that_are_not_clear() {
    let grid = cloud_grid(&cloud_picture());
    let present: Vec<bool> = grid.cells.iter().map(|c| c.present).collect();
    assert_eq!(present, vec![true, true, false, false, false, false]);
    assert_eq!(
        *grid.cell(0, 0),
        CloudCell {
            present: true,
            north_empty: true,
            east_empty: false,
            south_empty: true,
            west_empty: true,
        }
    );
    assert!(grid.cell(1, 0).east_empty);
    assert!(!grid.cell(1, 0).west_empty);
}

#[test]
fn clouds_are_read_from_a_picture_file() {
    let picture = cloud_picture();
    let file = png(3, 2, &picture.rgba);
    let grid = load_cloud_grid(&file).unwrap();
    assert_eq!((grid.width, grid.height), (3, 2));
    assert!(grid.cell(1, 0).present);
    assert!(load_cloud_grid(&vec![0, 1, 2]).is_none());
}

fn solid() -> CloudGrid {
    let cell = CloudCell {
        present: true,
        north_empty: false,
        east_empty: false,
        south_empty: false,
        west_empty: false,
    };
    CloudGrid { width: 1, height: 1, cells: vec![cell] }
}

#[test]
fn flat_clouds_show_one_face_of_each_cell_of_the_disc() {
    let faces = build_mesh(&solid(), 5, -7, CloudMode::Fast, RelativePos::Below);
    let mut seen = HashSet::new();
    let mut last = 0;
    for f in &faces {
        let (x, z) = (f.cell_x as i32, f.cell_z as i32);
        assert!(x * x + z * z <= 6400);
        assert!(x.abs() + z.abs() >= last);
        last = x.abs() + z.abs();
        assert!(seen.insert((x, z)));
        assert_eq!((f.dir, f.flags), (0, 1));
    }
    let mut cells = 0;
    for x in -80i32..=80 {
        for z in -80i32..=80 {
            if x * x + z * z <= 6400 {
                cells += 1;
            }
        }
    }
    assert_eq!(seen.len(), cells);
}

#[test]
fn boxes_show_the_sides_that_can_be_seen() {
    let cell = CloudCell {
        present: true,
        north_empty: true,
        east_empty: true,
        south_empty: true,
        west_empty: true,
    };
    let mut faces = Vec::new();
    build_extruded_cell(&mut faces, 0, 1, &cell, RelativePos::Above);
    assert_eq!(faces.iter().map(|f| f.dir).collect::<Vec<u8>>(), vec![1, 0, 2, 3, 4, 5]);
    let mut faces = Vec::new();
    build_extruded_cell(&mut faces, 3, -2, &cell, RelativePos::Above);
    assert_eq!(faces.iter().map(|f| f.dir).collect::<Vec<u8>>(), vec![1, 3, 4]);
    let mut faces = Vec::new();
    build_extruded_cell(&mut faces, -3, 2, &cell, RelativePos::Below);
    assert_eq!(faces.iter().map(|f| f.dir).collect::<Vec<u8>>(), vec![0, 2, 5]);
    let mut faces = Vec::new();
    build_flat_cell(&mut faces, -3, 2);
    assert_eq!((faces[0].cell_x, faces[0].cell_z, faces[0].flags), (-3, 2, 1));
}

#[test]
fn too_many_faces_are_cut_off() {
    let faces = build_mesh(&solid(), 0, 0, CloudMode::Fancy, RelativePos::Inside);
    assert!(faces.len() <= 52542);
    let cell = CloudCell {
        present: true,
        north_empty: true,
        east_empty: true,
        south_empty: true,
        west_empty: true,
    };
    let open = CloudGrid { width: 1, height: 1, cells: vec![cell] };
    let faces = build_mesh(&open, 0, 0, CloudMode::Fancy, RelativePos::Inside);
    assert_eq!(faces.len(), 52542);
}

#[test]
fn no_face_of_a_picture_is_cut_off() {
    let rgba = (0..4).flat_map(|i| [0, 0, 0, if i == 0 || i == 3 { 255 } else { 0 }]).collect();
    let chequered = cloud_grid(&Image { width: 2, height: 2, rgba });
    let faces = build_mesh(&chequered, 0, 0, CloudMode::Fancy, RelativePos::Inside);
    // Of every second cell of the disc: top, bottom and the sides towards the axes,
    // and all sides round the centre.
    let mut count = 0;
    for x in -80i32..=80 {
        for z in -80i32..=80 {
            if x * x + z * z <= 6400 && (x + z) % 2 == 0 {
                let near = x.abs() <= 1 && z.abs() <= 1;
                count += if near { 6 } else { 2 + (x != 0) as usize + (z != 0) as usize };
            }
        }
    }
    assert_eq!(faces.len(), count);
    assert!(count < 52542);
}

#[test]
fn the_cloud_mesh_is_built_when_the_view_changes() {
    let grid = Some(solid());
    let mut mesh = CloudMesh::new(2);
    let view = CloudView { cell_x: 0, cell_z: 0, mode: CloudMode::Fast, rel: RelativePos::Below };
    let off = CloudView { mode: CloudMode::Off, ..view };
    assert_eq!(mesh.update(&grid, 0, off), None);
    assert_eq!(mesh.update(&None, 0, view), None);
    let first = mesh.update(&grid, 0, view).unwrap();
    assert!(first.upload);
    assert_eq!(first.instances, mesh.faces.len());
    let again = CloudDraw { upload: false, instances: first.instances };
    assert_eq!(mesh.update(&grid, 0, view), Some(again));
    assert!(mesh.update(&grid, 1, view).unwrap().upload);
    let moved = CloudView { cell_x: 1, ..view };
    assert!(mesh.update(&grid, 0, moved).unwrap().upload);
}

#[test]
fn clouds_come_round_again() {
    assert_eq!(scroll_ticks(256 * 400 + 7, 256), 7);
    assert_eq!(scroll_ticks(-1, 256), 256 * 400 - 1);
}

#[test]
fn chunk_borders_outline_the_chunk() {
    let lines = update_lines(-1, 17, -64, 320);
    assert_eq!(lines.len(), 4 + 15 * 4 + 25 * 4);
    let first = lines[0];
    assert_eq!((first.from.x, first.from.y, first.from.z), (-16, -64, 16));
    assert_eq!((first.to.x, first.to.y, first.to.z), (-16, 320, 16));
    assert_eq!(first.color, BorderColor::Red);
    assert_eq!(lines[1].from.z, 32);
    assert_eq!(lines[4].color, BorderColor::Blue);
    assert_eq!((lines[4].from.x, lines[4].from.z), (-15, 16));
    let last = lines[lines.len() - 1];
    assert_eq!(last.color, BorderColor::Yellow);
    assert_eq!((last.from.x, last.from.y, last.to.z), (0, 320, 32));
}

#[test]
fn tall_worlds_lose_their_upper_lines() {
    assert_eq!(update_lines(0, 0, 0, 1_000_000).len(), 2048);
    assert_eq!(update_lines(0, 0, 5, 0).len(), 4 + 60 + 4);
    assert_eq!(update_lines(0, 0, 16, 0).len(), 4 + 60);
}

#[test]
fn a_blur_goes_to_and_fro_and_gives_the_source_back() {
    let steps = execute(2);
    assert_eq!(steps.len(), 6 + 4);
    assert_eq!(
        steps[3],
        BlurStep::Blit { from: BlurImage::Source, to: BlurImage::First }
    );
    assert_eq!(
        steps[5],
        BlurStep::Barrier {
            image: BlurImage::Source,
            from: ImageLayout::TransferSrc,
            to: ImageLayout::ColorAttachment,
        }
    );
    assert_eq!(
        steps[6],
        BlurStep::Draw {
            read: BlurImage::First,
            write: BlurImage::Second,
            axis: BlurAxis::Horizontal,
        }
    );
    assert_eq!(
        steps[9],
        BlurStep::Draw {
            read: BlurImage::Second,
            write: BlurImage::First,
            axis: BlurAxis::Vertical,
        }
    );
}

#[test]
fn blurred_images_have_half_the_size() {
    let mut size = BlurSize::new(1921, 1);
    assert_eq!((size.width, size.height), (960, 1));
    assert!(!size.resize(1920, 3));
    assert!(size.resize(1922, 3));
    assert_eq!((size.width, size.height), (961, 1));
}

#[test]
fn the_head_of_the_skin_model_unfolds_from_the_corner() {
    let head = build_head_mesh();
    assert_eq!(head.len(), 72);
    assert_eq!(head[0].at, Corner { x: -80, y: 160, z: 80 });
    assert_eq!((head[0].u, head[0].v), (8, 8));
    assert_eq!((head[2].u, head[2].v), (16, 16));
    assert_eq!(head[36].at, Corner { x: -90, y: 170, z: 90 });
    assert_eq!((head[36].u, head[36].v), (40, 8));
}

#[test]
fn slim_arms_are_narrower() {
    let wide = build_right_arm_mesh(false);
    let slim = build_right_arm_mesh(true);
    assert_eq!(wide[0].at, Corner { x: -160, y: 0, z: 40 });
    assert_eq!(slim[0].at, Corner { x: -140, y: 0, z: 40 });
    assert_eq!(wide[1].at.x - wide[0].at.x, 80);
    assert_eq!(slim[1].at.x - slim[0].at.x, 60);
    assert_eq!(build_body_mesh(true).len(), 8 * 36);
    let body = build_body_mesh(false);
    assert_eq!(body[4 * 36].at, Corner { x: -78, y: -240, z: 40 });
}

#[test]
fn an_arm_swings_for_a_moment() {
    let mut start = Some(1000);
    assert_eq!(advance_swing(&mut start, 1400), Some(400));
    assert_eq!(start, Some(1000));
    assert_eq!(advance_swing(&mut start, 1401), None);
    assert_eq!(start, None);
    assert_eq!(advance_swing(&mut start, 1402), None);
}

#[test]
fn the_book_has_seven_parts() {
    let parts = build_parts();
    assert_eq!(parts.len(), 7);
    assert_eq!(parts.iter().map(|p| p.verts.len()).sum::<usize>(), 252);
    assert_eq!(parts[0].offset.z, -200);
    assert_eq!(parts[1].offset.z, 200);
    let v = parts[3].verts[0];
    assert_eq!((v.at.x, v.at.y, v.at.z), (1000, -800, 2));
    assert_eq!((v.u, v.v), (1200, 2000));
    let v = parts[3].verts[1];
    assert_eq!((v.at.x, v.u, v.v), (0, 200, 2000));
}

#[test]
fn the_book_texture_may_be_missing() {
    let purple = book_texture(&None);
    assert_eq!((purple.width, purple.height), (1, 1));
    assert_eq!(purple.rgba, vec![255, 0, 255, 255]);
    assert_eq!(book_texture(&Some(vec![7])).rgba, vec![255, 0, 255, 255]);
    let read = book_texture(&Some(png(2, 1, &[1, 2, 3, 4, 5, 6, 7, 8])));
    assert_eq!((read.width, read.height), (2, 1));
    assert_eq!(read.rgba, vec![1, 2, 3, 4, 5, 6, 7, 8]);
}

#[test]
fn vertex_parts_fill_the_vertex() {
    let layout = vertex_layout(PipelineKind::MenuOverlay);
    assert_eq!(layout.stride, 48);
    let offsets: Vec<u32> = layout.attributes.iter().map(|a| a.offset).collect();
    assert_eq!(offsets, vec![0, 8, 16, 32, 36, 44]);
    let layout = vertex_layout(PipelineKind::Clouds);
    assert_eq!((layout.stride, layout.per_instance), (6, true));
    assert_eq!(layout.attributes[1].format, VertexFormat::U8x2);
    let layout = vertex_layout(PipelineKind::EntityInstance);
    assert_eq!((layout.stride, layout.attributes.len()), (112, 7));
    assert_eq!((layout.attributes[6].location, layout.attributes[6].offset), (9, 96));
    assert_eq!(vertex_layout(PipelineKind::Preview).stride, 20);
    assert_eq!(vertex_layout(PipelineKind::ChunkBorders).stride, 28);
}

#[test]
fn only_opaque_entities_write_depth() {
    assert!(entity_state(BlendMode::Opaque).depth_write);
    assert_eq!(entity_state(BlendMode::Opaque).blend, None);
    assert!(!entity_state(BlendMode::Translucent).depth_write);
    let additive = entity_state(BlendMode::Additive);
    assert!(!additive.depth_write);
    assert_eq!(additive.blend.unwrap().dst_color, BlendFactor::One);
    let writes = entity_pipelines().map(|s| (s.blend.is_some(), s.depth_write));
    assert_eq!(writes, [(false, true), (true, false), (true, false)]);
    assert_eq!(entity_pipelines()[2].blend.unwrap().dst_color, BlendFactor::One);
    assert_eq!(raster_state(PipelineKind::EntityInstance), None);
    let cracks = raster_state(PipelineKind::BlockOverlay).unwrap();
    assert_eq!(cracks.depth, DepthCompare::LessOrEqual);
    assert_eq!(cracks.blend.unwrap().src_color, BlendFactor::DstColor);
    assert_eq!((cracks.bias_units, cracks.bias_slope), (-10, -1));
    assert_eq!(raster_state(PipelineKind::Clouds).unwrap().bias_units, 0);
    assert!(raster_state(PipelineKind::Preview).unwrap().cull_front);
    assert!(raster_state(PipelineKind::ChunkBorders).unwrap().lines);
}

#[test]
fn pools_hold_what_is_taken() {
    let p = pool_sizes(PoolUser::MenuOverlay, 2, 0);
    assert_eq!((p.uniforms, p.samplers, p.max_sets), (1, 6, 2));
    let p = pool_sizes(PoolUser::SkinPreview, 2, 0);
    assert_eq!((p.uniforms, p.samplers, p.max_sets), (6, 1, 7));
    let p = pool_sizes(PoolUser::Entities, 2, 199);
    assert_eq!((p.uniforms, p.samplers, p.max_sets), (2, 199, 201));
    assert!(p.frees_sets);
    let p = pool_sizes(PoolUser::Blur, 2, 0);
    assert_eq!((p.uniforms, p.samplers, p.max_sets), (0, 2, 2));
    assert!(!p.frees_sets);
}

#[test]
fn menu_textures_start_with_a_placeholder() {
    assert_eq!(first_content(MenuTexture::Items, None), FirstContent::Pixel(0));
    assert_eq!(first_content(MenuTexture::Favicons, None), FirstContent::Pixel(255));
    assert_eq!(first_content(MenuTexture::GlyphSheet, None), FirstContent::Pixel(0));
    assert_eq!(
        first_content(MenuTexture::GlyphSheet, Some((128, 256))),
        FirstContent::Atlas { width: 128, height: 256 }
    );
    assert_eq!(
        first_content(MenuTexture::Font, None),
        FirstContent::Atlas { width: 512, height: 512 }
    );
}

#[test]
fn the_wanted_format_is_taken_where_it_is_offered() {
    let other = SurfaceFormat { format: 44, color_space: SRGB_NONLINEAR };
    let wanted = SurfaceFormat { format: B8G8R8A8_SRGB, color_space: SRGB_NONLINEAR };
    let wide = SurfaceFormat { format: B8G8R8A8_SRGB, color_space: 7 };
    assert_eq!(choose_format(&vec![other, wide, wanted]), wanted);
    assert_eq!(choose_format(&vec![wide, other]), wide);
}

#[test]
fn images_are_presented_as_the_system_does_best() {
    let both = vec![PresentMode::Fifo, PresentMode::Immediate, PresentMode::Mailbox];
    assert_eq!(choose_present_mode(true, false, &both), PresentMode::Fifo);
    assert_eq!(choose_present_mode(false, false, &both), PresentMode::Mailbox);
    assert_eq!(choose_present_mode(false, true, &both), PresentMode::Immediate);
    let one = vec![PresentMode::Immediate];
    assert_eq!(choose_present_mode(false, false, &one), PresentMode::Immediate);
    assert_eq!(choose_present_mode(false, false, &vec![]), PresentMode::Fifo);
}

fn caps(current: u32) -> SurfaceCaps {
    SurfaceCaps {
        current_extent: Extent { width: current, height: current },
        min_extent: Extent { width: 100, height: 100 },
        max_extent: Extent { width: 4000, height: 4000 },
        min_image_count: 2,
        max_image_count: 0,
    }
}

#[test]
fn the_surface_decides_its_size_where_it_can() {
    let e = choose_extent(&caps(640), 10, 10);
    assert_eq!((e.width, e.height), (640, 640));
    let e = choose_extent(&caps(0), 10, 10);
    assert_eq!((e.width, e.height), (1, 1));
    let e = choose_extent(&caps(u32::MAX), 10, 9999);
    assert_eq!((e.width, e.height), (100, 4000));
    let mut odd = caps(640);
    odd.max_extent = Extent { width: 0, height: 0 };
    let e = choose_extent(&odd, 10, 10);
    assert_eq!((e.width, e.height), (640, 640));
}

#[test]
fn there_is_an_image_to_spare() {
    let mut c = caps(640);
    assert_eq!(choose_image_count(&c), 3);
    c.max_image_count = 2;
    assert_eq!(choose_image_count(&c), 2);
    assert_eq!(sharing_families(1, 2), vec![1, 2]);
    assert!(sharing_families(1, 1).is_empty());
}

#[test]
fn passes_join_where_the_scene_is_blurred() {
    assert_eq!(render_pass(PassKind::Frame).last, ColorLayout::Present);
    assert!(render_pass(PassKind::Frame).stores_depth);
    let (scene, over) = (render_pass(PassKind::Scene), render_pass(PassKind::Over));
    assert_eq!(scene.last, over.initial);
    assert!(over.keeps_color);
    assert_eq!(over.last, ColorLayout::Present);
}

#[test]
fn boxes_of_any_size_have_their_corners() {
    let at = |x, y, z| Corner { x, y, z };
    let mut verts = Vec::new();
    let wide = SkinBox {
        pivot: at(1_000_000, 0, 0),
        from: at(-20_000, 5, 0),
        size: at(40_000, 7, 1),
        tx: 100,
        ty: 0,
        tw: 3,
        th: 2,
        td: 1,
    };
    add_box(&mut verts, &wide);
    assert_eq!(verts.len(), 36);
    assert_eq!((verts[0].at, verts[0].u, verts[0].v), (at(980_000, -5, 1), 101, 1));
    assert_eq!((verts[2].at, verts[2].u, verts[2].v), (at(1_020_000, -12, 1), 104, 3));
    let point = |x, y, z| BookPoint { x, y, z };
    let part = PartBox {
        tx: 30_000,
        ty: -1,
        min: point(-50_000, 0, 0),
        size: point(100_000, 2, 3),
        offset: point(0, 0, 0),
    };
    let verts = cube(&part);
    assert_eq!((verts[0].at, verts[0].u, verts[0].v), (point(50_000, 0, 3), 130_003, -1));
}
