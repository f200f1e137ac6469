//! Importing a DMA buffer for capturing, and the fence that tells when a frame is
//! in it: what EGL is asked, and what its answers mean.
use crate::message::MessagesToPipewire;
use crate::text::{hex_string, join};
use vstd::prelude::*;

verus! {

/// Why no fence could be had.
#[derive(Debug, Clone, Copy, PartialEq, Eq, Structural)]
pub enum FenceError {
    CreateSync,
    NoFenceFd,
    ZeroFenceFd,
}

pub const EGL_NO_SYNC: u64 = 0;

pub const EGL_NO_NATIVE_FENCE_FD: i32 = -1;

impl FenceError {
    pub open spec fn text(self) -> Seq<char> {
        match self {
            FenceError::CreateSync => "CreateSyncKHR failed"@,
            FenceError::NoFenceFd => "GetSyncAttrib failed"@,
            FenceError::ZeroFenceFd => "DupNativeFenceFD failed: fence_fd is zero"@,
        }
    }

    /// The error in words.
    pub fn message(&self) -> (s: &'static str)
        ensures
            s@ == self.text(),
    {
        match self {
            FenceError::CreateSync => "CreateSyncKHR failed",
            FenceError::NoFenceFd => "GetSyncAttrib failed",
            FenceError::ZeroFenceFd => "DupNativeFenceFD failed: fence_fd is zero",
        }
    }
}

/// Tells whether a sync object was created.
pub fn check_sync(sync: u64) -> (r: Result<(), FenceError>)
    ensures
        r == (if sync == EGL_NO_SYNC {
            Err(FenceError::CreateSync)
        } else {
            Ok::<(), FenceError>(())
        }),
{
    if sync == EGL_NO_SYNC {
        Err(FenceError::CreateSync)
    } else {
        Ok(())
    }
}

/// The fence of a file descriptor: it must be one, and not the first, which no
/// handle can hold.
pub fn fence_from_fd(fd: i32) -> (r: Result<u32, FenceError>)
    ensures
        r == (if fd == EGL_NO_NATIVE_FENCE_FD {
            Err(FenceError::NoFenceFd)
        } else if fd == 0 {
            Err(FenceError::ZeroFenceFd)
        } else {
            Ok::<u32, FenceError>(fd as u32)
        }),
{
    if fd == EGL_NO_NATIVE_FENCE_FD {
        Err(FenceError::NoFenceFd)
    } else if fd == 0 {
        Err(FenceError::ZeroFenceFd)
    } else {
        Ok(fd as u32)
    }
}

/// What the PipeWire thread is told about a buffer after a frame.
pub fn frame_message(id: u64, stream_id: u64, fence: Result<u32, FenceError>) -> (msg:
    MessagesToPipewire)
    ensures
        msg == (match fence {
            Ok(f) => MessagesToPipewire::NewFrame { id, fence: f, stream_id },
            Err(_) => MessagesToPipewire::BufferError { id, stream_id },
        }),
{
    match fence {
        Ok(f) => MessagesToPipewire::NewFrame { id, fence: f, stream_id },
        Err(_) => MessagesToPipewire::BufferError { id, stream_id },
    }
}

pub const EGL_LINUX_DRM_FOURCC: u32 = 0x3271;

pub const EGL_WIDTH: u32 = 0x3057;

pub const EGL_HEIGHT: u32 = 0x3056;

pub const EGL_NONE: u32 = 0x3038;

pub const EGL_NO_IMAGE: u64 = 0;

pub const GL_FRAMEBUFFER_COMPLETE: u32 = 0x8CD5;

/// The names of the attributes of one plane of a DMA buffer.
#[derive(Debug, Clone, Copy, PartialEq, Eq, Structural)]
pub struct EglDmaBufParameterIds {
    pub fd_ext: u32,
    pub offset_ext: u32,
    pub pitch_ext: u32,
    pub modifier_lo_ext: u32,
    pub modifier_hi_ext: u32,
}

/// The names of the attributes of a plane; there are names for four planes.
pub open spec fn plane_ids(plane: int) -> EglDmaBufParameterIds {
    EglDmaBufParameterIds {
        fd_ext: if plane < 3 {
            (0x3272 + 3 * plane) as u32
        } else {
            0x3440
        },
        offset_ext: if plane < 3 {
            (0x3273 + 3 * plane) as u32
        } else {
            0x3441
        },
        pitch_ext: if plane < 3 {
            (0x3274 + 3 * plane) as u32
        } else {
            0x3442
        },
        modifier_lo_ext: (0x3443 + 2 * plane) as u32,
        modifier_hi_ext: (0x3444 + 2 * plane) as u32,
    }
}

fn dma_buf_parameter_ids(plane: usize) -> (ids: EglDmaBufParameterIds)
    requires
        plane < 4,
    ensures
        ids == plane_ids(plane as int),
{
    match plane {
        0 => EglDmaBufParameterIds {
            fd_ext: 0x3272,
            offset_ext: 0x3273,
            pitch_ext: 0x3274,
            modifier_lo_ext: 0x3443,
            modifier_hi_ext: 0x3444,
        },
        1 => EglDmaBufParameterIds {
            fd_ext: 0x3275,
            offset_ext: 0x3276,
            pitch_ext: 0x3277,
            modifier_lo_ext: 0x3445,
            modifier_hi_ext: 0x3446,
        },
        2 => EglDmaBufParameterIds {
            fd_ext: 0x3278,
            offset_ext: 0x3279,
            pitch_ext: 0x327A,
            modifier_lo_ext: 0x3447,
            modifier_hi_ext: 0x3448,
        },
        _ => EglDmaBufParameterIds {
            fd_ext: 0x3440,
            offset_ext: 0x3441,
            pitch_ext: 0x3442,
            modifier_lo_ext: 0x3449,
            modifier_hi_ext: 0x344A,
        },
    }
}

/// One plane of a DMA buffer.
#[derive(Debug, Clone, Copy, PartialEq, Eq, Structural)]
pub struct DmaBufPlane {
    pub fd: i32,
    pub offset: u32,
    pub pitch: u32,
}

/// The low and the high half of a modifier.
pub open spec fn modifier_halves(modifier: u64) -> (u64, u64) {
    (modifier & 0xffff_ffff, modifier >> 32)
}

/// The two halves of a modifier make up the modifier.
pub proof fn modifier_halves_make_modifier(modifier: u64)
    ensures
        modifier_halves(modifier).1 << 32 | modifier_halves(modifier).0 == modifier,
        modifier_halves(modifier).0 <= u32::MAX,
        modifier_halves(modifier).1 <= u32::MAX,
{
    assert((modifier >> 32) << 32 | (modifier & 0xffff_ffff) == modifier) by (bit_vector);
    assert(modifier & 0xffff_ffff <= 0xffff_ffff && modifier >> 32 <= 0xffff_ffff) by (bit_vector);
}

/// The attributes of one plane: each name followed by its value.
pub open spec fn plane_attribs(plane: int, p: DmaBufPlane, modifier: u64) -> Seq<isize> {
    let ids = plane_ids(plane);
    seq![
        ids.fd_ext as isize,
        p.fd as isize,
        ids.offset_ext as isize,
        p.offset as isize,
        ids.pitch_ext as isize,
        p.pitch as isize,
        ids.modifier_lo_ext as isize,
        modifier_halves(modifier).0 as isize,
        ids.modifier_hi_ext as isize,
        modifier_halves(modifier).1 as isize,
    ]
}

pub open spec fn planes_attribs(planes: Seq<DmaBufPlane>, modifier: u64) -> Seq<isize>
    decreases planes.len(),
{
    if planes.len() == 0 {
        Seq::empty()
    } else {
        planes_attribs(planes.drop_last(), modifier) + plane_attribs(
            planes.len() - 1,
            planes.last(),
            modifier,
        )
    }
}

/// The attributes that describe a DMA buffer to EGL.
pub open spec fn image_attribs(
    fourcc: u32,
    width: u32,
    height: u32,
    planes: Seq<DmaBufPlane>,
    modifier: u64,
) -> Seq<isize> {
    seq![
        EGL_LINUX_DRM_FOURCC as isize,
        fourcc as isize,
        EGL_WIDTH as isize,
        width as isize,
        EGL_HEIGHT as isize,
        height as isize,
    ] + planes_attribs(planes, modifier) + seq![EGL_NONE as isize]
}

/// Appends the attributes of one plane.
fn push_plane(attribs: &mut Vec<isize>, plane: usize, p: DmaBufPlane, modifier: u64)
    requires
        plane < 4,
    ensures
        final(attribs)@ == old(attribs)@ + plane_attribs(plane as int, p, modifier),
{
    let ids = dma_buf_parameter_ids(plane);
    let ghost before = attribs@;
    attribs.push(ids.fd_ext as isize);
    attribs.push(p.fd as isize);
    attribs.push(ids.offset_ext as isize);
    attribs.push(p.offset as isize);
    attribs.push(ids.pitch_ext as isize);
    attribs.push(p.pitch as isize);
    attribs.push(ids.modifier_lo_ext as isize);
    attribs.push((modifier & 0xffff_ffff) as isize);
    attribs.push(ids.modifier_hi_ext as isize);
    attribs.push((modifier >> 32) as isize);
    assert(attribs@ =~= before + plane_attribs(plane as int, p, modifier));
}

/// The attributes that describe a DMA buffer of at most four planes to EGL.
pub fn import_attribs(
    fourcc: u32,
    width: u32,
    height: u32,
    planes: &Vec<DmaBufPlane>,
    modifier: u64,
) -> (attribs: Vec<isize>)
    requires
        planes@.len() <= 4,
    ensures
        attribs@ == image_attribs(fourcc, width, height, planes@, modifier),
{
    let mut attribs: Vec<isize> = Vec::new();
    attribs.push(EGL_LINUX_DRM_FOURCC as isize);
    attribs.push(fourcc as isize);
    attribs.push(EGL_WIDTH as isize);
    attribs.push(width as isize);
    attribs.push(EGL_HEIGHT as isize);
    attribs.push(height as isize);
    let ghost head = attribs@;
    for i in 0..planes.len()
        invariant
            planes@.len() <= 4,
            attribs@ == head + planes_attribs(planes@.take(i as int), modifier),
    {
        push_plane(&mut attribs, i, planes[i], modifier);
        assert(planes@.take(i + 1).drop_last() =~= planes@.take(i as int));
        assert(attribs@ =~= head + planes_attribs(planes@.take(i + 1), modifier));
    }
    assert(planes@.take(planes@.len() as int) =~= planes@);
    attribs.push(EGL_NONE as isize);
    assert(attribs@ =~= image_attribs(fourcc, width, height, planes@, modifier));
    attribs
}

/// Why a buffer could not be imported.
#[derive(Debug, Clone, Copy, PartialEq, Eq, Structural)]
pub enum ImportError {
    /// EGL made no image; its error code.
    CreateImage(i32),
    /// GL cannot draw into the image; the status of the framebuffer.
    FramebufferIncomplete(u32),
}

impl ImportError {
    pub open spec fn text(self) -> Seq<char> {
        match self {
            ImportError::CreateImage(code) => "CreateImage failed "@ + crate::text::hex(
                (code as u32) as nat,
            ),
            ImportError::FramebufferIncomplete(status) => "Framebuffer incomplete: "@
                + crate::text::hex(status as nat),
        }
    }

    /// The error in words.
    pub fn message(&self) -> (s: String)
        ensures
            s@ == self.text(),
    {
        match self {
            ImportError::CreateImage(code) => join(
                "CreateImage failed ",
                hex_string(*code as u32).as_str(),
            ),
            ImportError::FramebufferIncomplete(status) => join(
                "Framebuffer incomplete: ",
                hex_string(*status).as_str(),
            ),
        }
    }
}

/// Tells whether EGL made an image; `error` is its error code.
pub fn check_image(image: u64, error: i32) -> (r: Result<(), ImportError>)
    ensures
        r == (if image == EGL_NO_IMAGE {
            Err(ImportError::CreateImage(error))
        } else {
            Ok::<(), ImportError>(())
        }),
{
    if image == EGL_NO_IMAGE {
        Err(ImportError::CreateImage(error))
    } else {
        Ok(())
    }
}

/// Tells whether GL can draw into a framebuffer.
pub fn check_framebuffer(status: u32) -> (r: Result<(), ImportError>)
    ensures
        r == (if status != GL_FRAMEBUFFER_COMPLETE {
            Err(ImportError::FramebufferIncomplete(status))
        } else {
            Ok::<(), ImportError>(())
        }),
{
    if status != GL_FRAMEBUFFER_COMPLETE {
        Err(ImportError::FramebufferIncomplete(status))
    } else {
        Ok(())
    }
}

/// The halves of a modifier are what it leaves when it is divided, and how often it can
/// be.
pub proof fn modifier_halves_divide(modifier: u64)
    ensures
        modifier_halves(modifier).0 == modifier % 0x1_0000_0000,
        modifier_halves(modifier).1 == modifier / 0x1_0000_0000,
{
    assert(modifier & 0xffff_ffff == modifier % 0x1_0000_0000 && modifier >> 32 == modifier
        / 0x1_0000_0000) by (bit_vector);
}

proof fn planes_stand_in_a_row(planes: Seq<DmaBufPlane>, modifier: u64, i: int, k: int)
    requires
        0 <= i < planes.len(),
        0 <= k < 10,
    ensures
        planes_attribs(planes, modifier).len() == 10 * planes.len(),
        planes_attribs(planes, modifier)[10 * i + k] == plane_attribs(i, planes[i], modifier)[k],
    decreases planes.len(),
{
    let before = planes.drop_last();
    if planes.len() > 1 {
        planes_stand_in_a_row(
            before,
            modifier,
            if i < before.len() {
                i
            } else {
                0
            },
            k,
        );
    } else {
        assert(planes_attribs(before, modifier).len() == 0);
    }
    assert(plane_attribs(planes.len() - 1, planes.last(), modifier).len() == 10);
    if i < before.len() {
        assert(before[i] == planes[i]);
    }
}

/// The attributes say what the buffer is: its format, its width and its height, then of
/// each plane in turn the descriptor, the offset and the pitch, and the modifier in two
/// halves, each value behind its name, and nothing after the end.
pub proof fn attributes_describe_the_buffer(
    fourcc: u32,
    width: u32,
    height: u32,
    planes: Seq<DmaBufPlane>,
    modifier: u64,
    i: int,
)
    requires
        0 <= i < planes.len() <= 4,
    ensures
        ({
            let a = image_attribs(fourcc, width, height, planes, modifier);
            let at = 6 + 10 * i;
            &&& a.len() == 7 + 10 * planes.len()
            &&& a[0] == 0x3271 && a[1] == fourcc as isize
            &&& a[2] == 0x3057 && a[3] == width as isize
            &&& a[4] == 0x3056 && a[5] == height as isize
            &&& a[at] == plane_ids(i).fd_ext && a[at + 1] == planes[i].fd
            &&& a[at + 2] == plane_ids(i).offset_ext && a[at + 3] == planes[i].offset as isize
            &&& a[at + 4] == plane_ids(i).pitch_ext && a[at + 5] == planes[i].pitch as isize
            &&& a[at + 6] == plane_ids(i).modifier_lo_ext && a[at + 7] == (modifier
                % 0x1_0000_0000) as isize
            &&& a[at + 8] == plane_ids(i).modifier_hi_ext && a[at + 9] == (modifier
                / 0x1_0000_0000) as isize
            &&& a.last() == 0x3038
        }),
{
    modifier_halves_divide(modifier);
    planes_stand_in_a_row(planes, modifier, i, 0);
    planes_stand_in_a_row(planes, modifier, i, 1);
    planes_stand_in_a_row(planes, modifier, i, 2);
    planes_stand_in_a_row(planes, modifier, i, 3);
    planes_stand_in_a_row(planes, modifier, i, 4);
    planes_stand_in_a_row(planes, modifier, i, 5);
    planes_stand_in_a_row(planes, modifier, i, 6);
    planes_stand_in_a_row(planes, modifier, i, 7);
    planes_stand_in_a_row(planes, modifier, i, 8);
    planes_stand_in_a_row(planes, modifier, i, 9);
}

/// No two attributes of a buffer go by one name.
pub proof fn attribute_names_differ(i: int, j: int)
    requires
        0 <= i < 4,
        0 <= j < 4,
    ensures
        ({
            let a = plane_ids(i);
            let b = plane_ids(j);
            &&& i != j ==> a.fd_ext != b.fd_ext && a.offset_ext != b.offset_ext && a.pitch_ext
                != b.pitch_ext && a.modifier_lo_ext != b.modifier_lo_ext && a.modifier_hi_ext
                != b.modifier_hi_ext
            &&& a.fd_ext != b.offset_ext && a.fd_ext != b.pitch_ext && a.fd_ext
                != b.modifier_lo_ext && a.fd_ext != b.modifier_hi_ext
            &&& a.offset_ext != b.pitch_ext && a.offset_ext != b.modifier_lo_ext && a.offset_ext
                != b.modifier_hi_ext
            &&& a.pitch_ext != b.modifier_lo_ext && a.pitch_ext != b.modifier_hi_ext
            &&& a.modifier_lo_ext != b.modifier_hi_ext
        }),
{
}

} // verus!
