//! What the drawing pipelines are made like: their vertices, how they blend and
//! test depth, and how many descriptors they take.

use vstd::prelude::*;

verus! {

/// A pipeline.
#[derive(Clone, Copy, Debug, PartialEq, Eq, Structural)]
pub enum PipelineKind {
    MenuOverlay,
    ChunkBorders,
    Clouds,
    BlockOverlay,
    /// The skin and the book.
    Preview,
    /// What an entity's instances add to the vertices of its model.
    EntityInstance,
}

/// The type of a vertex's part.
#[derive(Clone, Copy, Debug, PartialEq, Eq, Structural)]
pub enum VertexFormat {
    F32,
    F32x2,
    F32x3,
    F32x4,
    I16x2,
    U8x2,
}

/// How many bytes a part takes.
pub open spec fn bytes_of(format: VertexFormat) -> u32 {
    match format {
        VertexFormat::F32 => 4,
        VertexFormat::F32x2 => 8,
        VertexFormat::F32x3 => 12,
        VertexFormat::F32x4 => 16,
        VertexFormat::I16x2 => 4,
        VertexFormat::U8x2 => 2,
    }
}

/// How many bytes a part takes.
pub fn format_bytes(format: VertexFormat) -> (bytes: u32)
    ensures
        bytes == bytes_of(format),
{
    match format {
        VertexFormat::F32 => 4,
        VertexFormat::F32x2 => 8,
        VertexFormat::F32x3 => 12,
        VertexFormat::F32x4 => 16,
        VertexFormat::I16x2 => 4,
        VertexFormat::U8x2 => 2,
    }
}

/// The parts of the vertices, in their order: of which pipeline, and of which
/// type.
pub const VERTEX_PARTS: [(PipelineKind, VertexFormat); 21] = [
    (PipelineKind::MenuOverlay, VertexFormat::F32x2),
    (PipelineKind::MenuOverlay, VertexFormat::F32x2),
    (PipelineKind::MenuOverlay, VertexFormat::F32x4),
    (PipelineKind::MenuOverlay, VertexFormat::F32),
    (PipelineKind::MenuOverlay, VertexFormat::F32x2),
    (PipelineKind::MenuOverlay, VertexFormat::F32),
    (PipelineKind::ChunkBorders, VertexFormat::F32x3),
    (PipelineKind::ChunkBorders, VertexFormat::F32x4),
    (PipelineKind::Clouds, VertexFormat::I16x2),
    (PipelineKind::Clouds, VertexFormat::U8x2),
    (PipelineKind::BlockOverlay, VertexFormat::F32x3),
    (PipelineKind::BlockOverlay, VertexFormat::F32x2),
    (PipelineKind::Preview, VertexFormat::F32x3),
    (PipelineKind::Preview, VertexFormat::F32x2),
    (PipelineKind::EntityInstance, VertexFormat::F32x4),
    (PipelineKind::EntityInstance, VertexFormat::F32x4),
    (PipelineKind::EntityInstance, VertexFormat::F32x4),
    (PipelineKind::EntityInstance, VertexFormat::F32x4),
    (PipelineKind::EntityInstance, VertexFormat::F32x4),
    (PipelineKind::EntityInstance, VertexFormat::F32x4),
    (PipelineKind::EntityInstance, VertexFormat::F32x4),
];

/// A part of a vertex: where the shader finds it, and where it lies.
#[derive(Clone, Copy, Debug, PartialEq, Eq, Structural)]
pub struct Attribute {
    pub location: u32,
    pub format: VertexFormat,
    pub offset: u32,
}

/// The number of the first part: an entity's instances come after the three parts
/// of the model's own vertices.
pub open spec fn first_location(kind: PipelineKind) -> u32 {
    if kind == PipelineKind::EntityInstance {
        3
    } else {
        0
    }
}

/// How long the parts of a pipeline are together, among the first `n`.
pub open spec fn length_of(kind: PipelineKind, n: nat) -> nat
    decreases n,
{
    if n == 0 {
        0
    } else {
        length_of(kind, (n - 1) as nat) + (if VERTEX_PARTS@[n - 1].0 == kind {
            bytes_of(VERTEX_PARTS@[n - 1].1) as nat
        } else {
            0
        })
    }
}

/// The parts of a pipeline's vertices, among the first `n`: each lies behind the
/// one before it.
pub open spec fn parts_of(kind: PipelineKind, n: nat) -> Seq<Attribute>
    decreases n,
{
    if n == 0 {
        Seq::empty()
    } else {
        let before = parts_of(kind, (n - 1) as nat);
        if VERTEX_PARTS@[n - 1].0 == kind {
            before.push(
                Attribute {
                    location: (first_location(kind) + before.len()) as u32,
                    format: VERTEX_PARTS@[n - 1].1,
                    offset: length_of(kind, (n - 1) as nat) as u32,
                },
            )
        } else {
            before
        }
    }
}

/// The vertices of a pipeline.
pub struct VertexLayout {
    pub stride: u32,
    /// Whether there is one for each instance, not for each vertex.
    pub per_instance: bool,
    pub attributes: Vec<Attribute>,
}

/// The vertices of a pipeline.
pub fn vertex_layout(kind: PipelineKind) -> (layout: VertexLayout)
    ensures
        layout.stride == length_of(kind, 21),
        layout.per_instance == (kind == PipelineKind::Clouds || kind
            == PipelineKind::EntityInstance),
        layout.attributes@ == parts_of(kind, 21),
{
    let mut attributes: Vec<Attribute> = Vec::new();
    let mut stride: u32 = 0;
    let mut location: u32 = if kind == PipelineKind::EntityInstance { 3 } else { 0 };
    let mut i: usize = 0;
    while i < 21
        invariant
            i <= 21,
            stride <= i * 16,
            stride == length_of(kind, i as nat),
            location <= 3 + i,
            location == first_location(kind) + attributes@.len(),
            attributes@ == parts_of(kind, i as nat),
        decreases 21 - i,
    {
        let (owner, format): (PipelineKind, VertexFormat) = VERTEX_PARTS[i];
        if owner == kind {
            attributes.push(Attribute { location, format, offset: stride });
            stride = stride + format_bytes(format);
            location = location + 1;
        }
        i = i + 1;
    }
    VertexLayout {
        stride,
        per_instance: kind == PipelineKind::Clouds || kind == PipelineKind::EntityInstance,
        attributes,
    }
}

proof fn lengths_are_short(kind: PipelineKind, n: nat)
    ensures
        length_of(kind, n) <= n * 16,
    decreases n,
{
    if n > 0 {
        lengths_are_short(kind, (n - 1) as nat);
    }
}

/// The parts of a vertex lie one behind the other without a gap, and fill it.
pub proof fn parts_fill_the_vertex(kind: PipelineKind, n: nat, i: int)
    requires
        n <= 21,
        0 <= i < parts_of(kind, n).len(),
    ensures
        ({
            let parts = parts_of(kind, n);
            let end = parts[i].offset + bytes_of(parts[i].format);
            &&& i == 0 ==> parts[i].offset == 0
            &&& i + 1 < parts.len() ==> end == parts[i + 1].offset
            &&& i + 1 == parts.len() ==> end == length_of(kind, n)
        }),
    decreases n,
{
    if n > 0 {
        lengths_are_short(kind, (n - 1) as nat);
        let less = parts_of(kind, (n - 1) as nat);
        if i < less.len() {
            parts_fill_the_vertex(kind, (n - 1) as nat, i);
        } else {
            no_parts_no_length(kind, (n - 1) as nat);
            if less.len() > 0 {
                parts_fill_the_vertex(kind, (n - 1) as nat, less.len() - 1);
            }
        }
        if i + 1 < parts_of(kind, n).len() && i + 1 == less.len() {
            parts_fill_the_vertex(kind, (n - 1) as nat, i);
        }
    }
}

proof fn no_parts_no_length(kind: PipelineKind, n: nat)
    ensures
        parts_of(kind, n).len() == 0 ==> length_of(kind, n) == 0,
    decreases n,
{
    if n > 0 {
        no_parts_no_length(kind, (n - 1) as nat);
    }
}

/// How colours are blended.
#[derive(Clone, Copy, Debug, PartialEq, Eq, Structural)]
pub enum BlendMode {
    Opaque,
    Translucent,
    Additive,
}

/// What a colour is multiplied with.
#[derive(Clone, Copy, Debug, PartialEq, Eq, Structural)]
pub enum BlendFactor {
    Zero,
    One,
    SrcColor,
    DstColor,
    SrcAlpha,
    OneMinusSrcAlpha,
}

/// What the new and the old colour, and the new and the old alpha, are multiplied
/// with before they are added.
#[derive(Clone, Copy, Debug, PartialEq, Eq, Structural)]
pub struct BlendState {
    pub src_color: BlendFactor,
    pub dst_color: BlendFactor,
    pub src_alpha: BlendFactor,
    pub dst_alpha: BlendFactor,
}

/// How depth is compared.
#[derive(Clone, Copy, Debug, PartialEq, Eq, Structural)]
pub enum DepthCompare {
    /// It is not.
    Always,
    Less,
    LessOrEqual,
}

/// How a pipeline treats what is there already.
#[derive(Clone, Copy, Debug, PartialEq, Eq, Structural)]
pub struct RasterState {
    pub depth: DepthCompare,
    pub depth_write: bool,
    pub blend: Option<BlendState>,
    /// Whether lines are drawn, not triangles.
    pub lines: bool,
    /// Whether faces that wind like a clock's hands alone are drawn.
    pub cull_front: bool,
    /// How far depths are moved away from the camera, in units.
    pub bias_units: i32,
    /// How far they are moved by the slope.
    pub bias_slope: i32,
}

/// Blending by the factors of colour, and by those of alpha.
pub open spec fn blending(
    src_color: BlendFactor,
    dst_color: BlendFactor,
    src_alpha: BlendFactor,
    dst_alpha: BlendFactor,
) -> Option<BlendState> {
    Some(BlendState { src_color, dst_color, src_alpha, dst_alpha })
}

/// How the entities' pipelines blend.
pub open spec fn entity_blend(mode: BlendMode) -> Option<BlendState> {
    match mode {
        BlendMode::Opaque => None,
        BlendMode::Translucent => blending(
            BlendFactor::SrcAlpha,
            BlendFactor::OneMinusSrcAlpha,
            BlendFactor::One,
            BlendFactor::OneMinusSrcAlpha,
        ),
        BlendMode::Additive => blending(
            BlendFactor::SrcAlpha,
            BlendFactor::One,
            BlendFactor::One,
            BlendFactor::One,
        ),
    }
}

/// How an entity's pipeline treats what is there already: overlays lie exactly on
/// the model, so equal depth passes, and only what is opaque writes depth; glowing
/// eyes and the swirl of a charge leave it as it is.
pub open spec fn entity_raster(mode: BlendMode) -> RasterState {
    RasterState {
        depth: DepthCompare::LessOrEqual,
        depth_write: mode == BlendMode::Opaque,
        blend: entity_blend(mode),
        lines: false,
        cull_front: false,
        bias_units: 0,
        bias_slope: 0,
    }
}

/// How an entity's pipeline treats what is there already.
pub fn entity_state(mode: BlendMode) -> (state: RasterState)
    ensures
        state == entity_raster(mode),
{
    let blend = match mode {
        BlendMode::Opaque => None,
        BlendMode::Translucent => Some(
            BlendState {
                src_color: BlendFactor::SrcAlpha,
                dst_color: BlendFactor::OneMinusSrcAlpha,
                src_alpha: BlendFactor::One,
                dst_alpha: BlendFactor::OneMinusSrcAlpha,
            },
        ),
        BlendMode::Additive => Some(
            BlendState {
                src_color: BlendFactor::SrcAlpha,
                dst_color: BlendFactor::One,
                src_alpha: BlendFactor::One,
                dst_alpha: BlendFactor::One,
            },
        ),
    };
    RasterState {
        depth: DepthCompare::LessOrEqual,
        depth_write: mode == BlendMode::Opaque,
        blend,
        lines: false,
        cull_front: false,
        bias_units: 0,
        bias_slope: 0,
    }
}

/// The states of the entities' pipelines, in the order in which they draw: the
/// opaque models, the glowing eyes, the swirl of a charge.
pub fn entity_pipelines() -> (states: [RasterState; 3])
    ensures
        states@ == seq![
            entity_raster(BlendMode::Opaque),
            entity_raster(BlendMode::Translucent),
            entity_raster(BlendMode::Additive),
        ],
{
    let states = [
        entity_state(BlendMode::Opaque),
        entity_state(BlendMode::Translucent),
        entity_state(BlendMode::Additive),
    ];
    assert(states@ =~= seq![
        entity_raster(BlendMode::Opaque),
        entity_raster(BlendMode::Translucent),
        entity_raster(BlendMode::Additive),
    ]);
    states
}

/// The states of the other pipelines: how depth is compared, whether it is
/// written, the factors of colour and of alpha, whether lines are drawn, whether
/// front faces are left out, and how far depths are moved. The cracks lie exactly
/// on the block, and win by being moved towards the camera.
pub const STATES: [(
    PipelineKind,
    DepthCompare,
    bool,
    (BlendFactor, BlendFactor),
    (BlendFactor, BlendFactor),
    bool,
    bool,
    (i32, i32),
); 5] = [
    (
        PipelineKind::MenuOverlay,
        DepthCompare::Always,
        false,
        (BlendFactor::One, BlendFactor::OneMinusSrcAlpha),
        (BlendFactor::One, BlendFactor::OneMinusSrcAlpha),
        false,
        false,
        (0, 0),
    ),
    (
        PipelineKind::ChunkBorders,
        DepthCompare::LessOrEqual,
        false,
        (BlendFactor::SrcAlpha, BlendFactor::OneMinusSrcAlpha),
        (BlendFactor::One, BlendFactor::Zero),
        true,
        false,
        (0, 0),
    ),
    (
        PipelineKind::Clouds,
        DepthCompare::Less,
        true,
        (BlendFactor::SrcAlpha, BlendFactor::OneMinusSrcAlpha),
        (BlendFactor::One, BlendFactor::OneMinusSrcAlpha),
        false,
        false,
        (0, 0),
    ),
    (
        PipelineKind::BlockOverlay,
        DepthCompare::LessOrEqual,
        false,
        (BlendFactor::DstColor, BlendFactor::SrcColor),
        (BlendFactor::One, BlendFactor::Zero),
        false,
        false,
        (-10, -1),
    ),
    (
        PipelineKind::Preview,
        DepthCompare::Less,
        true,
        (BlendFactor::SrcAlpha, BlendFactor::OneMinusSrcAlpha),
        (BlendFactor::One, BlendFactor::OneMinusSrcAlpha),
        false,
        true,
        (0, 0),
    ),
];

/// The state in a row of the table.
pub open spec fn state_at(i: int) -> RasterState {
    let row = STATES@[i];
    RasterState {
        depth: row.1,
        depth_write: row.2,
        blend: blending(row.3.0, row.3.1, row.4.0, row.4.1),
        lines: row.5,
        cull_front: row.6,
        bias_units: row.7.0,
        bias_slope: row.7.1,
    }
}

/// How a pipeline treats what is there already; the entities' have their own.
pub fn raster_state(kind: PipelineKind) -> (state: Option<RasterState>)
    ensures
        match state {
            Some(s) => exists|i: int| 0 <= i < 5 && STATES@[i].0 == kind && s == #[trigger] state_at(i),
            None => kind == PipelineKind::EntityInstance,
        },
{
    let mut i: usize = 0;
    while i < 5
        invariant
            i <= 5,
            forall|k: int| 0 <= k < i ==> (#[trigger] STATES@[k]).0 != kind,
        decreases 5 - i,
    {
        let row = STATES[i];
        if row.0 == kind {
            let blend = Some(
                BlendState {
                    src_color: row.3.0,
                    dst_color: row.3.1,
                    src_alpha: row.4.0,
                    dst_alpha: row.4.1,
                },
            );
            let state = RasterState {
                depth: row.1,
                depth_write: row.2,
                blend,
                lines: row.5,
                cull_front: row.6,
                bias_units: row.7.0,
                bias_slope: row.7.1,
            };
            assert(state == state_at(i as int));
            return Some(state);
        }
        i = i + 1;
    }
    proof {
        assert(STATES@[0].0 != kind && STATES@[1].0 != kind && STATES@[2].0 != kind
            && STATES@[3].0 != kind && STATES@[4].0 != kind);
    }
    None
}

/// Who takes descriptors.
#[derive(Clone, Copy, Debug, PartialEq, Eq, Structural)]
pub enum PoolUser {
    MenuOverlay,
    ChunkBorders,
    Clouds,
    BlockOverlay,
    SkinPreview,
    BookPreview,
    Blur,
    Entities,
}

/// How many descriptors there is room for.
#[derive(Clone, Copy, Debug, PartialEq, Eq, Structural)]
pub struct PoolSizes {
    pub uniforms: u32,
    pub samplers: u32,
    pub max_sets: u32,
    /// Whether sets are given back one by one.
    pub frees_sets: bool,
}

/// The sets that are taken: how many hold a uniform, how many hold textures, and
/// how many textures each of those holds.
pub open spec fn sets_taken(user: PoolUser, frames: u32, textures: u32) -> (int, int, int) {
    match user {
        PoolUser::MenuOverlay => (1, 1, 6),
        PoolUser::ChunkBorders => (frames as int, 0, 0),
        PoolUser::Clouds => (frames as int, 0, 0),
        PoolUser::BlockOverlay => (frames as int, 1, 1),
        PoolUser::SkinPreview => (frames * 3, 1, 1),
        PoolUser::BookPreview => (frames as int, 1, 1),
        PoolUser::Blur => (0, 2, 1),
        PoolUser::Entities => (frames as int, textures as int, 1),
    }
}

/// How many descriptors there is room for, with a number of frames in flight and a
/// number of entity textures: exactly as many as are taken. The sets of players'
/// skins come and go, so the entities' are given back one by one.
pub fn pool_sizes(user: PoolUser, frames: u32, textures: u32) -> (sizes: PoolSizes)
    requires
        ({
            let (uniform_sets, texture_sets, _) = sets_taken(user, frames, textures);
            uniform_sets + texture_sets <= u32::MAX
        }),
    ensures
        ({
            let (uniform_sets, texture_sets, each) = sets_taken(user, frames, textures);
            &&& sizes.uniforms == uniform_sets
            &&& sizes.samplers == texture_sets * each
            &&& sizes.max_sets == uniform_sets + texture_sets
            &&& sizes.frees_sets == (user == PoolUser::Entities)
        }),
{
    let (uniforms, sets, each): (u32, u32, u32) = match user {
        PoolUser::MenuOverlay => (1, 1, 6),
        PoolUser::ChunkBorders => (frames, 0, 0),
        PoolUser::Clouds => (frames, 0, 0),
        PoolUser::BlockOverlay => (frames, 1, 1),
        PoolUser::SkinPreview => (frames * 3, 1, 1),
        PoolUser::BookPreview => (frames, 1, 1),
        PoolUser::Blur => (0, 2, 1),
        PoolUser::Entities => (frames, textures, 1),
    };
    assert(each == 1 ==> sets * each == sets);
    PoolSizes {
        uniforms,
        samplers: sets * each,
        max_sets: uniforms + sets,
        frees_sets: user == PoolUser::Entities,
    }
}

/// A texture that the menus' pipeline reads.
#[derive(Clone, Copy, Debug, PartialEq, Eq, Structural)]
pub enum MenuTexture {
    Font,
    Sprites,
    Items,
    GlyphSheet,
    /// What is behind the menu, blurred; the font until there is something.
    Backdrop,
    Favicons,
}

/// The textures, in the order of their bindings.
pub const MENU_TEXTURES: [MenuTexture; 6] = [
    MenuTexture::Font,
    MenuTexture::Sprites,
    MenuTexture::Items,
    MenuTexture::GlyphSheet,
    MenuTexture::Backdrop,
    MenuTexture::Favicons,
];

/// What a texture holds at first.
#[derive(Clone, Copy, Debug, PartialEq, Eq, Structural)]
pub enum FirstContent {
    /// The atlas that is made for it, of a size.
    Atlas { width: u32, height: u32 },
    /// One pixel, all of its bytes alike.
    Pixel(u8),
}

/// What a texture holds at first: the sheet of glyphs only where it could be read,
/// and nothing of items and favicons yet.
pub fn first_content(texture: MenuTexture, sheet: Option<(u32, u32)>) -> (content: FirstContent)
    ensures
        content == (match texture {
            MenuTexture::Font | MenuTexture::Backdrop => FirstContent::Atlas {
                width: crate::overlay::FONT_ATLAS_SIZE,
                height: crate::overlay::FONT_ATLAS_SIZE,
            },
            MenuTexture::Sprites => FirstContent::Atlas {
                width: crate::sprites::SPRITE_ATLAS_SIZE,
                height: crate::sprites::SPRITE_ATLAS_SIZE,
            },
            MenuTexture::Items => FirstContent::Pixel(0),
            MenuTexture::GlyphSheet => match sheet {
                Some((width, height)) => FirstContent::Atlas { width, height },
                None => FirstContent::Pixel(0),
            },
            MenuTexture::Favicons => FirstContent::Pixel(255),
        }),
{
    match texture {
        MenuTexture::Font | MenuTexture::Backdrop => FirstContent::Atlas {
            width: crate::overlay::FONT_ATLAS_SIZE,
            height: crate::overlay::FONT_ATLAS_SIZE,
        },
        MenuTexture::Sprites => FirstContent::Atlas {
            width: crate::sprites::SPRITE_ATLAS_SIZE,
            height: crate::sprites::SPRITE_ATLAS_SIZE,
        },
        MenuTexture::Items => FirstContent::Pixel(0),
        MenuTexture::GlyphSheet => match sheet {
            Some((width, height)) => FirstContent::Atlas { width, height },
            None => FirstContent::Pixel(0),
        },
        MenuTexture::Favicons => FirstContent::Pixel(255),
    }
}

/// Only opaque layers hide what lies behind them. A translucent one lets through
/// what it does not cover itself, and an additive one darkens nothing.
pub proof fn only_opaque_layers_hide(mode: BlendMode)
    ensures
        entity_raster(mode).depth_write <==> mode == BlendMode::Opaque,
        entity_raster(mode).blend is None <==> mode == BlendMode::Opaque,
        mode == BlendMode::Translucent ==> entity_raster(mode).blend.unwrap().src_color
            == BlendFactor::SrcAlpha && entity_raster(mode).blend.unwrap().dst_color
            == BlendFactor::OneMinusSrcAlpha,
        mode == BlendMode::Additive ==> entity_raster(mode).blend.unwrap().dst_color
            == BlendFactor::One,
        entity_raster(mode).depth == DepthCompare::LessOrEqual,
{
}

} // verus!
