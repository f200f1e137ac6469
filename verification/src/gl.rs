//! The GL commands that capturing issues, as values. They are drawn up here, with
//! a model of the state they touch, and carried out by whoever holds the GL
//! context.
use crate::cursor::CursorQuad;
use vstd::prelude::*;

verus! {

pub const GL_TRUE: u8 = 1;

pub const GL_TEXTURE0: u32 = 0x84C0;

pub const GL_ONE: u32 = 1;

pub const GL_SRC_ALPHA: u32 = 0x0302;

pub const GL_ONE_MINUS_SRC_ALPHA: u32 = 0x0303;

/// A rectangle of pixels between two corners; the corners may be swapped to flip
/// the image.
#[derive(Debug, Clone, Copy, PartialEq, Eq, Structural)]
pub struct PixelRect {
    pub x0: i32,
    pub y0: i32,
    pub x1: i32,
    pub y1: i32,
}

#[derive(Debug, Clone, Copy, PartialEq, Eq, Structural)]
pub enum GlCommand {
    BindTexture(u32),
    BindDrawFramebuffer(u32),
    BindReadFramebuffer(u32),
    UseProgram(u32),
    EnableBlend,
    DisableBlend,
    BlendFuncSeparate { src_rgb: u32, dst_rgb: u32, src_alpha: u32, dst_alpha: u32 },
    /// Back the bound texture with an EGL image.
    TextureStorage { image: u64 },
    /// Attach a texture to the bound draw framebuffer.
    AttachTexture(u32),
    /// Fill the bound draw framebuffer with opaque red.
    ClearRed,
    /// Copy color from the read to the draw framebuffer, without filtering.
    BlitColor { src: PixelRect, dst: PixelRect },
    /// Set the sampler of the bound program to a texture unit.
    SetSampler(u32),
    /// Make and bind the vertices of a cursor.
    MakeQuad(CursorQuad),
    /// Set the offset of the bound program.
    SetOffset { x: i32, y: i32 },
    /// Draw the bound vertices.
    DrawQuad,
}

/// The GL state that capturing touches and others rely on.
#[verifier::ext_equal]
pub struct GlModel {
    pub texture_2d: u32,
    pub draw_fbo: u32,
    pub read_fbo: u32,
    pub program: u32,
    pub blend: bool,
    pub blend_src_rgb: u32,
    pub blend_dst_rgb: u32,
    pub blend_src_alpha: u32,
    pub blend_dst_alpha: u32,
}

impl GlModel {
    /// The state after a command.
    pub open spec fn after(self, command: GlCommand) -> GlModel {
        match command {
            GlCommand::BindTexture(t) => GlModel { texture_2d: t, ..self },
            GlCommand::BindDrawFramebuffer(f) => GlModel { draw_fbo: f, ..self },
            GlCommand::BindReadFramebuffer(f) => GlModel { read_fbo: f, ..self },
            GlCommand::UseProgram(p) => GlModel { program: p, ..self },
            GlCommand::EnableBlend => GlModel { blend: true, ..self },
            GlCommand::DisableBlend => GlModel { blend: false, ..self },
            GlCommand::BlendFuncSeparate { src_rgb, dst_rgb, src_alpha, dst_alpha } => GlModel {
                blend_src_rgb: src_rgb,
                blend_dst_rgb: dst_rgb,
                blend_src_alpha: src_alpha,
                blend_dst_alpha: dst_alpha,
                ..self
            },
            _ => self,
        }
    }

    pub open spec fn after_all(self, commands: Seq<GlCommand>) -> GlModel
        decreases commands.len(),
    {
        if commands.len() == 0 {
            self
        } else {
            self.after(commands[0]).after_all(commands.drop_first())
        }
    }
}

/// Each command sets what it names and leaves the rest of the state alone.
pub proof fn commands_do_what_they_say(m: GlModel, n: u32, a: u32, b: u32, c: u32, d: u32)
    ensures
        m.after(GlCommand::BindTexture(n)) == (GlModel { texture_2d: n, ..m }),
        m.after(GlCommand::BindDrawFramebuffer(n)) == (GlModel { draw_fbo: n, ..m }),
        m.after(GlCommand::BindReadFramebuffer(n)) == (GlModel { read_fbo: n, ..m }),
        m.after(GlCommand::UseProgram(n)) == (GlModel { program: n, ..m }),
        m.after(GlCommand::EnableBlend) == (GlModel { blend: true, ..m }),
        m.after(GlCommand::DisableBlend) == (GlModel { blend: false, ..m }),
        m.after(
            GlCommand::BlendFuncSeparate { src_rgb: a, dst_rgb: b, src_alpha: c, dst_alpha: d },
        ) == (GlModel {
            blend_src_rgb: a,
            blend_dst_rgb: b,
            blend_src_alpha: c,
            blend_dst_alpha: d,
            ..m
        }),
{
}

/// The same blend function for color and alpha.
pub open spec fn blend_func(src: u32, dst: u32) -> GlCommand {
    GlCommand::BlendFuncSeparate { src_rgb: src, dst_rgb: dst, src_alpha: src, dst_alpha: dst }
}

/// GL state as GL reports it, to be put back later.
#[derive(Debug, Clone, Copy, PartialEq, Eq, Structural)]
pub struct GlStateGuard {
    pub texture_2d: i32,
    pub draw_fbo: i32,
    pub read_fbo: i32,
    pub program: i32,
    pub blend_enabled: u8,
    pub blend_dst_rgb: i32,
    pub blend_src_rgb: i32,
    pub blend_dst_alpha: i32,
    pub blend_src_alpha: i32,
}

impl GlStateGuard {
    /// GL reports the state `m` like this.
    pub open spec fn saves(self, m: GlModel) -> bool {
        &&& self.texture_2d == m.texture_2d as i32
        &&& self.draw_fbo == m.draw_fbo as i32
        &&& self.read_fbo == m.read_fbo as i32
        &&& self.program == m.program as i32
        &&& (self.blend_enabled == GL_TRUE) == m.blend
        &&& self.blend_src_rgb == m.blend_src_rgb as i32
        &&& self.blend_dst_rgb == m.blend_dst_rgb as i32
        &&& self.blend_src_alpha == m.blend_src_alpha as i32
        &&& self.blend_dst_alpha == m.blend_dst_alpha as i32
    }

    pub open spec fn restoring(self) -> Seq<GlCommand> {
        seq![
            GlCommand::BindTexture(self.texture_2d as u32),
            GlCommand::BindDrawFramebuffer(self.draw_fbo as u32),
            GlCommand::BindReadFramebuffer(self.read_fbo as u32),
            GlCommand::UseProgram(self.program as u32),
            if self.blend_enabled == GL_TRUE {
                GlCommand::EnableBlend
            } else {
                GlCommand::DisableBlend
            },
            GlCommand::BlendFuncSeparate {
                src_rgb: self.blend_src_rgb as u32,
                dst_rgb: self.blend_dst_rgb as u32,
                src_alpha: self.blend_src_alpha as u32,
                dst_alpha: self.blend_dst_alpha as u32,
            },
        ]
    }

    /// The commands that put the state back.
    pub fn restore(&self) -> (commands: Vec<GlCommand>)
        ensures
            commands@ == self.restoring(),
    {
        let mut commands: Vec<GlCommand> = Vec::new();
        commands.push(GlCommand::BindTexture(self.texture_2d as u32));
        commands.push(GlCommand::BindDrawFramebuffer(self.draw_fbo as u32));
        commands.push(GlCommand::BindReadFramebuffer(self.read_fbo as u32));
        commands.push(GlCommand::UseProgram(self.program as u32));
        if self.blend_enabled == GL_TRUE {
            commands.push(GlCommand::EnableBlend);
        } else {
            commands.push(GlCommand::DisableBlend);
        }
        commands.push(
            GlCommand::BlendFuncSeparate {
                src_rgb: self.blend_src_rgb as u32,
                dst_rgb: self.blend_dst_rgb as u32,
                src_alpha: self.blend_src_alpha as u32,
                dst_alpha: self.blend_dst_alpha as u32,
            },
        );
        assert(commands@ =~= self.restoring());
        commands
    }
}

/// Whatever was done to the GL state since it was saved, restoring puts all of it
/// back.
pub proof fn restoring_puts_state_back(saved: GlModel, guard: GlStateGuard, now: GlModel)
    requires
        guard.saves(saved),
    ensures
        now.after_all(guard.restoring()) == saved,
{
    assert forall|x: u32| #![trigger x as i32] (x as i32) as u32 == x by {
        assert((x as i32) as u32 == x) by (bit_vector);
    }
    let c = guard.restoring();
    let rest1 = c.drop_first();
    let rest2 = rest1.drop_first();
    let rest3 = rest2.drop_first();
    let rest4 = rest3.drop_first();
    let rest5 = rest4.drop_first();
    reveal_with_fuel(GlModel::after_all, 7);
    assert(rest1[0] == c[1] && rest2[0] == c[2] && rest3[0] == c[3] && rest4[0] == c[4] && rest5[0]
        == c[5]);
    assert(rest5.drop_first().len() == 0);
    assert(now.after_all(c) =~= saved);
}

/// The commands that prepare a frame: blend over what is captured, read from the
/// screen.
pub fn begin_frame() -> (commands: Vec<GlCommand>)
    ensures
        commands@ == seq![
            GlCommand::EnableBlend,
            blend_func(GL_SRC_ALPHA, GL_ONE_MINUS_SRC_ALPHA),
            GlCommand::BindReadFramebuffer(0),
        ],
{
    let mut commands: Vec<GlCommand> = Vec::new();
    commands.push(GlCommand::EnableBlend);
    commands.push(
        GlCommand::BlendFuncSeparate {
            src_rgb: GL_SRC_ALPHA,
            dst_rgb: GL_ONE_MINUS_SRC_ALPHA,
            src_alpha: GL_SRC_ALPHA,
            dst_alpha: GL_ONE_MINUS_SRC_ALPHA,
        },
    );
    commands.push(GlCommand::BindReadFramebuffer(0));
    assert(commands@ =~= seq![
        GlCommand::EnableBlend,
        blend_func(GL_SRC_ALPHA, GL_ONE_MINUS_SRC_ALPHA),
        GlCommand::BindReadFramebuffer(0),
    ]);
    commands
}

/// The commands that make a texture of an EGL image and attach it to a framebuffer.
/// The texture that was bound before is bound again.
pub fn import_setup(texture: u32, fbo: u32, image: u64, old_texture: i32) -> (commands: Vec<
    GlCommand,
>)
    ensures
        commands@ == importing(texture, fbo, image, old_texture),
{
    let mut commands: Vec<GlCommand> = Vec::new();
    commands.push(GlCommand::BindTexture(texture));
    commands.push(GlCommand::TextureStorage { image });
    commands.push(GlCommand::BindTexture(old_texture as u32));
    commands.push(GlCommand::BindDrawFramebuffer(fbo));
    commands.push(GlCommand::AttachTexture(texture));
    assert(commands@ =~= importing(texture, fbo, image, old_texture));
    commands
}

pub open spec fn importing(texture: u32, fbo: u32, image: u64, old_texture: i32) -> Seq<GlCommand> {
    seq![
        GlCommand::BindTexture(texture),
        GlCommand::TextureStorage { image },
        GlCommand::BindTexture(old_texture as u32),
        GlCommand::BindDrawFramebuffer(fbo),
        GlCommand::AttachTexture(texture),
    ]
}

/// The commands that finish an import whose framebuffer is complete: the buffer
/// starts out red, and the framebuffer that was bound before is bound again.
pub fn import_finish(old_draw_fbo: i32) -> (commands: Vec<GlCommand>)
    ensures
        commands@ == imported(old_draw_fbo),
{
    let mut commands: Vec<GlCommand> = Vec::new();
    commands.push(
        GlCommand::BlendFuncSeparate {
            src_rgb: GL_ONE,
            dst_rgb: GL_ONE_MINUS_SRC_ALPHA,
            src_alpha: GL_ONE,
            dst_alpha: GL_ONE_MINUS_SRC_ALPHA,
        },
    );
    commands.push(GlCommand::ClearRed);
    commands.push(GlCommand::BindDrawFramebuffer(old_draw_fbo as u32));
    assert(commands@ =~= imported(old_draw_fbo));
    commands
}

pub open spec fn imported(old_draw_fbo: i32) -> Seq<GlCommand> {
    seq![
        blend_func(GL_ONE, GL_ONE_MINUS_SRC_ALPHA),
        GlCommand::ClearRed,
        GlCommand::BindDrawFramebuffer(old_draw_fbo as u32),
    ]
}

/// A finished import leaves the bindings as they were; only the blend function is
/// another, the one that picom itself draws with.
pub proof fn import_keeps_bindings(m: GlModel, texture: u32, fbo: u32, image: u64)
    ensures
        m.after_all(importing(texture, fbo, image, m.texture_2d as i32)).after_all(
            imported(m.draw_fbo as i32),
        ) == m.after(blend_func(GL_ONE, GL_ONE_MINUS_SRC_ALPHA)),
{
    assert forall|x: u32| #![trigger x as i32] (x as i32) as u32 == x by {
        assert((x as i32) as u32 == x) by (bit_vector);
    }
    let c = importing(texture, fbo, image, m.texture_2d as i32);
    let c1 = c.drop_first();
    let c2 = c1.drop_first();
    let c3 = c2.drop_first();
    let c4 = c3.drop_first();
    let d = imported(m.draw_fbo as i32);
    let d1 = d.drop_first();
    let d2 = d1.drop_first();
    reveal_with_fuel(GlModel::after_all, 6);
    assert(c1[0] == c[1] && c2[0] == c[2] && c3[0] == c[3] && c4[0] == c[4]);
    assert(c4.drop_first().len() == 0);
    assert(d1[0] == d[1] && d2[0] == d[2]);
    assert(d2.drop_first().len() == 0);
    assert(m.after_all(c).after_all(d) =~= m.after(blend_func(GL_ONE, GL_ONE_MINUS_SRC_ALPHA)));
}

/// The vertices of a cursor: four positions, clockwise from the upper left, then four
/// texture coordinates.
pub open spec fn vertices_of(quad: CursorQuad) -> Seq<i32> {
    seq![
        quad.left, quad.top,
        quad.right, quad.top,
        quad.right, quad.bottom,
        quad.left, quad.bottom,
        0, 0,
        1, 0,
        1, 1,
        0, 1,
    ]
}

/// The vertices of a cursor, see [`vertices_of`].
pub fn quad_vertices(quad: CursorQuad) -> (v: [i32; 16])
    ensures
        v@ == vertices_of(quad),
{
    let v: [i32; 16] = [
        quad.left, quad.top,
        quad.right, quad.top,
        quad.right, quad.bottom,
        quad.left, quad.bottom,
        0, 0,
        1, 0,
        1, 1,
        0, 1,
    ];
    assert(v@ =~= vertices_of(quad));
    v
}

/// The order in which the vertices of a cursor are drawn: two triangles that share a
/// diagonal.
pub fn quad_indices() -> (v: [u32; 6])
    ensures
        v@ == seq![0u32, 1, 2, 2, 3, 0],
{
    let v: [u32; 6] = [0, 1, 2, 2, 3, 0];
    assert(v@ =~= seq![0u32, 1, 2, 2, 3, 0]);
    v
}

/// The image of a cursor is neither mirrored nor turned: a vertex is on the left or the
/// right, at the top or the bottom, of the cursor as of its texture.
pub proof fn vertices_match_texture(quad: CursorQuad, i: int)
    requires
        0 <= i < 4,
    ensures
        ({
            let v = vertices_of(quad);
            let (x, y, u, w) = (v[2 * i], v[2 * i + 1], v[8 + 2 * i], v[9 + 2 * i]);
            &&& u == 0 && x == quad.left || u == 1 && x == quad.right
            &&& w == 0 && y == quad.top || w == 1 && y == quad.bottom
        }),
{
}

/// The commands that prepare a cursor for drawing, in the texture unit that is
/// active.
pub fn prepare_cursor(shader: u32, texture: u32, texture_unit: i32, quad: CursorQuad) -> (commands:
    Vec<GlCommand>)
    requires
        (texture_unit as u32) >= GL_TEXTURE0,
    ensures
        commands@ == seq![
            GlCommand::BindTexture(texture),
            GlCommand::UseProgram(shader),
            GlCommand::SetSampler(((texture_unit as u32) - GL_TEXTURE0) as u32),
            GlCommand::MakeQuad(quad),
        ],
{
    let mut commands: Vec<GlCommand> = Vec::new();
    commands.push(GlCommand::BindTexture(texture));
    commands.push(GlCommand::UseProgram(shader));
    commands.push(GlCommand::SetSampler(texture_unit as u32 - GL_TEXTURE0));
    commands.push(GlCommand::MakeQuad(quad));
    assert(commands@ =~= seq![
        GlCommand::BindTexture(texture),
        GlCommand::UseProgram(shader),
        GlCommand::SetSampler(((texture_unit as u32) - GL_TEXTURE0) as u32),
        GlCommand::MakeQuad(quad),
    ]);
    commands
}

/// The same factors serve color and alpha.
pub proof fn blend_func_is_uniform(m: GlModel, src: u32, dst: u32)
    ensures
        m.after(blend_func(src, dst)).blend_src_rgb == src,
        m.after(blend_func(src, dst)).blend_src_alpha == src,
        m.after(blend_func(src, dst)).blend_dst_rgb == dst,
        m.after(blend_func(src, dst)).blend_dst_alpha == dst,
        m.after(blend_func(src, dst)).blend == m.blend,
        m.after(blend_func(src, dst)).texture_2d == m.texture_2d,
        m.after(blend_func(src, dst)).draw_fbo == m.draw_fbo,
        m.after(blend_func(src, dst)).read_fbo == m.read_fbo,
        m.after(blend_func(src, dst)).program == m.program,
{
}

/// An import backs the new texture with the image while that texture is bound, and
/// attaches that texture to the new framebuffer while that is bound; it fills that
/// framebuffer before it lets go of it.
pub proof fn import_attaches_the_image(
    m: GlModel,
    texture: u32,
    fbo: u32,
    image: u64,
    old_texture: i32,
    old_draw_fbo: i32,
)
    ensures
        ({
            let c = importing(texture, fbo, image, old_texture);
            let d = imported(old_draw_fbo);
            &&& c[1] == (GlCommand::TextureStorage { image })
            &&& m.after_all(c.take(1)).texture_2d == texture
            &&& c[4] == GlCommand::AttachTexture(texture)
            &&& m.after_all(c.take(4)).draw_fbo == fbo
            &&& c.len() == 5
            &&& d[1] == GlCommand::ClearRed
            &&& m.after_all(c).after_all(d.take(1)).draw_fbo == fbo
            &&& d.len() == 3
        }),
{
    let c = importing(texture, fbo, image, old_texture);
    let d = imported(old_draw_fbo);
    reveal_with_fuel(GlModel::after_all, 7);
    let a = c.take(1);
    assert(a[0] == c[0] && a.drop_first().len() == 0);
    let b0 = c.take(4);
    let b1 = b0.drop_first();
    let b2 = b1.drop_first();
    let b3 = b2.drop_first();
    assert(b0[0] == c[0] && b1[0] == c[1] && b2[0] == c[2] && b3[0] == c[3]);
    assert(b3.drop_first().len() == 0);
    let c1 = c.drop_first();
    let c2 = c1.drop_first();
    let c3 = c2.drop_first();
    let c4 = c3.drop_first();
    assert(c1[0] == c[1] && c2[0] == c[2] && c3[0] == c[3] && c4[0] == c[4]);
    assert(c4.drop_first().len() == 0);
    let e = d.take(1);
    assert(e[0] == d[0] && e.drop_first().len() == 0);
}

/// The vertices of a cursor are its four corners, each once, and going on to the next
/// moves along one edge.
pub proof fn vertices_go_around(quad: CursorQuad, i: int)
    requires
        0 <= i < 4,
    ensures
        ({
            let v = vertices_of(quad);
            let j = (i + 1) % 4;
            &&& v.len() == 16
            &&& v[8 + 2 * i] == v[8 + 2 * j] <==> v[9 + 2 * i] != v[9 + 2 * j]
            &&& v[8 + 2 * i] + v[8 + 2 * ((i + 2) % 4)] == 1
            &&& v[9 + 2 * i] + v[9 + 2 * ((i + 2) % 4)] == 1
        }),
{
}

} // verus!
