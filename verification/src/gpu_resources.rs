//! Guest GPU resources: which handle names which kind of resource, the
//! limits on buffers and textures, and which operations a handle admits.
//!
//! Guests see opaque `u32` handles; the embedder keeps the device objects
//! under the same handles. Handle 0 reports a refused request.

use vstd::prelude::*;
use std::collections::HashMap;

verus! {

broadcast use vstd::std_specs::hash::group_hash_axioms;

/// Opaque handle type for GPU resources visible to the guest.
pub type GpuHandle = u32;

/// Maximum buffer size a guest may allocate (64 MiB).
pub const MAX_BUFFER_SIZE: u64 = 67108864;

/// Maximum texture width or height.
pub const MAX_TEXTURE_DIM: u32 = 4096;

#[derive(Clone, Copy, Debug, PartialEq, Eq, Structural)]
pub enum ResourceKind {
    Buffer,
    Texture,
    Shader,
    RenderPipeline,
    ComputePipeline,
}

pub open spec fn buffer_size_ok(size: u64) -> bool {
    0 < size <= MAX_BUFFER_SIZE
}

pub open spec fn texture_dims_ok(width: u32, height: u32) -> bool {
    0 < width <= MAX_TEXTURE_DIM && 0 < height <= MAX_TEXTURE_DIM
}

/// The handles a guest holds and what each names.
pub struct GpuState {
    next_handle: GpuHandle,
    kinds: HashMap<GpuHandle, ResourceKind>,
}

impl GpuState {
    pub closed spec fn kinds(&self) -> Map<GpuHandle, ResourceKind> {
        self.kinds@
    }

    pub closed spec fn next_handle(&self) -> GpuHandle {
        self.next_handle
    }

    /// Every live handle is non-zero and below the next one to hand out.
    pub open spec fn wf(&self) -> bool {
        &&& self.next_handle() >= 1
        &&& forall|h: GpuHandle| #[trigger]
            self.kinds().contains_key(h) ==> 0 < h < self.next_handle()
    }

    pub open spec fn is_kind(&self, h: GpuHandle, k: ResourceKind) -> bool {
        self.kinds().contains_key(h) && self.kinds()[h] == k
    }

    pub fn new() -> (r: Self)
        ensures
            r.wf(),
            r.kinds() == Map::<GpuHandle, ResourceKind>::empty(),
            r.next_handle() == 1,
    {
        let r = GpuState { next_handle: 1, kinds: HashMap::new() };
        proof {
            assert(r.kinds@ =~= Map::<GpuHandle, ResourceKind>::empty());
        }
        r
    }

    fn add(&mut self, k: ResourceKind) -> (h: GpuHandle)
        requires
            old(self).wf(),
            old(self).next_handle() < u32::MAX,
        ensures
            final(self).wf(),
            h == old(self).next_handle(),
            final(self).next_handle() == h + 1,
            final(self).kinds() == old(self).kinds().insert(h, k),
    {
        let h = self.next_handle;
        self.next_handle = h + 1;
        self.kinds.insert(h, k);
        proof {
            assert forall|x: GpuHandle| #[trigger] self.kinds@.contains_key(x) implies 0 < x
                < self.next_handle by {
                if x != h {
                    assert(old(self).kinds().contains_key(x));
                }
            }
        }
        h
    }

    /// Registers a buffer of `size` bytes; 0 when the size is zero or over
    /// the limit.
    pub fn create_buffer(&mut self, size: u64) -> (h: GpuHandle)
        requires
            old(self).wf(),
            old(self).next_handle() < u32::MAX,
        ensures
            final(self).wf(),
            buffer_size_ok(size) ==> h == old(self).next_handle() && final(self).next_handle() == h
                + 1 && final(self).kinds() == old(self).kinds().insert(h, ResourceKind::Buffer),
            !buffer_size_ok(size) ==> h == 0 && final(self).kinds() == old(self).kinds()
                && final(self).next_handle() == old(self).next_handle(),
    {
        if size == 0 || size > MAX_BUFFER_SIZE {
            return 0;
        }
        self.add(ResourceKind::Buffer)
    }

    /// Registers a `width` x `height` texture; 0 when a side is zero or
    /// over the limit.
    pub fn create_texture(&mut self, width: u32, height: u32) -> (h: GpuHandle)
        requires
            old(self).wf(),
            old(self).next_handle() < u32::MAX,
        ensures
            final(self).wf(),
            texture_dims_ok(width, height) ==> h == old(self).next_handle() && final(self).next_handle() == h + 1 && final(self).kinds() == old(self).kinds().insert(
                h,
                ResourceKind::Texture,
            ),
            !texture_dims_ok(width, height) ==> h == 0 && final(self).kinds() == old(self).kinds()
                && final(self).next_handle() == old(self).next_handle(),
    {
        if width == 0 || height == 0 || width > MAX_TEXTURE_DIM || height > MAX_TEXTURE_DIM {
            return 0;
        }
        self.add(ResourceKind::Texture)
    }

    /// Registers a shader module.
    pub fn create_shader(&mut self) -> (h: GpuHandle)
        requires
            old(self).wf(),
            old(self).next_handle() < u32::MAX,
        ensures
            final(self).wf(),
            h == old(self).next_handle(),
            final(self).next_handle() == h + 1,
            final(self).kinds() == old(self).kinds().insert(h, ResourceKind::Shader),
    {
        self.add(ResourceKind::Shader)
    }

    /// Registers a pipeline built from `shader` (a render pipeline when
    /// `render`, else a compute pipeline); 0 when `shader` is no shader.
    fn create_pipeline(&mut self, shader: GpuHandle, render: bool) -> (h: GpuHandle)
        requires
            old(self).wf(),
            old(self).next_handle() < u32::MAX,
        ensures
            final(self).wf(),
            old(self).is_kind(shader, ResourceKind::Shader) ==> h == old(self).next_handle()
                && final(self).next_handle() == h + 1 && final(self).kinds() == old(self).kinds().insert(
                h,
                if render {
                    ResourceKind::RenderPipeline
                } else {
                    ResourceKind::ComputePipeline
                },
            ),
            !old(self).is_kind(shader, ResourceKind::Shader) ==> h == 0 && final(self).kinds()
                == old(self).kinds() && final(self).next_handle() == old(self).next_handle(),
    {
        if !self.has_kind(shader, ResourceKind::Shader) {
            return 0;
        }
        if render {
            self.add(ResourceKind::RenderPipeline)
        } else {
            self.add(ResourceKind::ComputePipeline)
        }
    }

    /// Whether `h` names a resource of kind `k`.
    pub fn has_kind(&self, h: GpuHandle, k: ResourceKind) -> (r: bool)
        ensures
            r == self.is_kind(h, k),
    {
        match self.kinds.get(&h) {
            Some(found) => *found == k,
            None => false,
        }
    }

    /// Registers a render pipeline built from `shader`; 0 when `shader` is
    /// no shader.
    pub fn create_render_pipeline(&mut self, shader: GpuHandle) -> (h: GpuHandle)
        requires
            old(self).wf(),
            old(self).next_handle() < u32::MAX,
        ensures
            final(self).wf(),
            old(self).is_kind(shader, ResourceKind::Shader) ==> h == old(self).next_handle()
                && final(self).next_handle() == h + 1 && final(self).kinds() == old(
                self,
            ).kinds().insert(h, ResourceKind::RenderPipeline),
            !old(self).is_kind(shader, ResourceKind::Shader) ==> h == 0 && final(self).kinds()
                == old(self).kinds() && final(self).next_handle() == old(self).next_handle(),
    {
        self.create_pipeline(shader, true)
    }

    /// Registers a compute pipeline built from `shader`; 0 when `shader`
    /// is no shader.
    pub fn create_compute_pipeline(&mut self, shader: GpuHandle) -> (h: GpuHandle)
        requires
            old(self).wf(),
            old(self).next_handle() < u32::MAX,
        ensures
            final(self).wf(),
            old(self).is_kind(shader, ResourceKind::Shader) ==> h == old(self).next_handle()
                && final(self).next_handle() == h + 1 && final(self).kinds() == old(
                self,
            ).kinds().insert(h, ResourceKind::ComputePipeline),
            !old(self).is_kind(shader, ResourceKind::Shader) ==> h == 0 && final(self).kinds()
                == old(self).kinds() && final(self).next_handle() == old(self).next_handle(),
    {
        self.create_pipeline(shader, false)
    }

    /// A buffer write needs a buffer handle.
    pub fn write_buffer(&self, handle: GpuHandle) -> (r: bool)
        ensures
            r == self.is_kind(handle, ResourceKind::Buffer),
    {
        self.has_kind(handle, ResourceKind::Buffer)
    }

    /// A draw needs a render pipeline and a target texture.
    pub fn draw(&self, pipeline: GpuHandle, target: GpuHandle) -> (r: bool)
        ensures
            r == (self.is_kind(pipeline, ResourceKind::RenderPipeline) && self.is_kind(
                target,
                ResourceKind::Texture,
            )),
    {
        self.has_kind(pipeline, ResourceKind::RenderPipeline) && self.has_kind(
            target,
            ResourceKind::Texture,
        )
    }

    /// A compute dispatch needs a compute pipeline.
    pub fn dispatch_compute(&self, pipeline: GpuHandle) -> (r: bool)
        ensures
            r == self.is_kind(pipeline, ResourceKind::ComputePipeline),
    {
        self.has_kind(pipeline, ResourceKind::ComputePipeline)
    }

    /// Forgets buffer `h`; `false` when `h` is no buffer.
    pub fn destroy_buffer(&mut self, h: GpuHandle) -> (r: bool)
        requires
            old(self).wf(),
        ensures
            final(self).wf(),
            r == old(self).is_kind(h, ResourceKind::Buffer),
            r ==> final(self).kinds() == old(self).kinds().remove(h),
            !r ==> final(self).kinds() == old(self).kinds(),
            final(self).next_handle() == old(self).next_handle(),
    {
        self.destroy(h, ResourceKind::Buffer)
    }

    /// Forgets texture `h`; `false` when `h` is no texture.
    pub fn destroy_texture(&mut self, h: GpuHandle) -> (r: bool)
        requires
            old(self).wf(),
        ensures
            final(self).wf(),
            r == old(self).is_kind(h, ResourceKind::Texture),
            r ==> final(self).kinds() == old(self).kinds().remove(h),
            !r ==> final(self).kinds() == old(self).kinds(),
            final(self).next_handle() == old(self).next_handle(),
    {
        self.destroy(h, ResourceKind::Texture)
    }

    /// Forgets resource `h` if it has kind `k`; `false` when it does not.
    fn destroy(&mut self, h: GpuHandle, k: ResourceKind) -> (r: bool)
        requires
            old(self).wf(),
        ensures
            final(self).wf(),
            r == old(self).is_kind(h, k),
            r ==> final(self).kinds() == old(self).kinds().remove(h),
            !r ==> final(self).kinds() == old(self).kinds(),
            final(self).next_handle() == old(self).next_handle(),
    {
        if self.has_kind(h, k) {
            self.kinds.remove(&h);
            true
        } else {
            false
        }
    }
}

/// A handle handed out for a new resource names nothing that already
/// exists, so creating a resource never disturbs another one.
pub proof fn law_new_handles_fresh(r: GpuState)
    requires
        r.wf(),
    ensures
        !r.kinds().contains_key(r.next_handle()),
        !r.kinds().contains_key(0),
{
}

/// Once destroyed, a handle no longer admits the operations of its kind.
pub proof fn law_destroyed_is_gone(kinds: Map<GpuHandle, ResourceKind>, h: GpuHandle, k: ResourceKind)
    ensures
        !kinds.remove(h).contains_key(h),
{
}

} // verus!
