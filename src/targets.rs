//! The off-screen color targets of the pipeline and their sizes.
use vstd::prelude::*;
use crate::bloom::{bloom_chain_length, chain_len, shr, MAX_BLOOM_ITER};

verus! {

/// What an off-screen target holds. Bloom levels are indexed from the finest.
#[derive(Clone, Copy, PartialEq, Eq, Structural, Debug)]
pub enum TargetRole {
    Scene,
    Brightness,
    LensFlare,
    Downsample(usize),
    Upsample(usize),
    Composite,
    Tonemapped,
}

/// A target to allocate: its role and its resolution in pixels.
#[derive(Clone, Copy, PartialEq, Eq, Structural, Debug)]
pub struct TargetSpec {
    pub role: TargetRole,
    pub width: u32,
    pub height: u32,
}

pub open spec fn sized(role: TargetRole, w: u32, h: u32) -> TargetSpec {
    TargetSpec { role, width: w, height: h }
}

/// Entry `j` of the bloom part of the layout: level `j / 2`, its downsample
/// target at even `j` and its upsample target at odd `j`.
pub open spec fn mip_target(w: u32, h: u32, j: int) -> TargetSpec {
    let i = j / 2;
    if j % 2 == 0 {
        sized(TargetRole::Downsample(i as usize), shr(w, (i + 1) as nat), shr(h, (i + 1) as nat))
    } else {
        sized(TargetRole::Upsample(i as usize), shr(w, i as nat), shr(h, i as nat))
    }
}

/// Every target of a `w` x `h` viewport in order of creation: scene,
/// brightness and lens flare at full size, then each bloom level's
/// downsample target at `(w >> (i + 1), h >> (i + 1))` and upsample target
/// at `(w >> i, h >> i)`, then composite and tonemapped at full size. A
/// viewport with a zero side has no targets.
pub open spec fn layout_of(w: u32, h: u32) -> Seq<TargetSpec> {
    if w == 0 || h == 0 {
        Seq::empty()
    } else {
        seq![
            sized(TargetRole::Scene, w, h),
            sized(TargetRole::Brightness, w, h),
            sized(TargetRole::LensFlare, w, h),
        ] + Seq::new(2 * chain_len(w, h), |j: int| mip_target(w, h, j)) + seq![
            sized(TargetRole::Composite, w, h),
            sized(TargetRole::Tonemapped, w, h),
        ]
    }
}

/// Position of `role` in `layout_of` for a chain of `n` levels, where the
/// layout holds it.
pub open spec fn role_index(role: TargetRole, n: nat) -> Option<nat> {
    match role {
        TargetRole::Scene => Some(0),
        TargetRole::Brightness => Some(1),
        TargetRole::LensFlare => Some(2),
        TargetRole::Downsample(i) => if i < n { Some((3 + 2 * i) as nat) } else { None },
        TargetRole::Upsample(i) => if i < n { Some((4 + 2 * i) as nat) } else { None },
        TargetRole::Composite => Some(3 + 2 * n),
        TargetRole::Tonemapped => Some(4 + 2 * n),
    }
}

/// The targets to allocate for a `width` x `height` viewport, in order.
pub fn target_layout(width: u32, height: u32) -> (r: Vec<TargetSpec>)
    ensures
        r@ == layout_of(width, height),
{
    let mut v: Vec<TargetSpec> = Vec::new();
    if width == 0 || height == 0 {
        assert(v@ =~= layout_of(width, height));
        return v;
    }
    v.push(TargetSpec { role: TargetRole::Scene, width, height });
    v.push(TargetSpec { role: TargetRole::Brightness, width, height });
    v.push(TargetSpec { role: TargetRole::LensFlare, width, height });
    let n = bloom_chain_length(width, height);
    let ghost head = v@;
    let mut i: usize = 0;
    while i < n
        invariant
            n == chain_len(width, height),
            n <= MAX_BLOOM_ITER,
            i <= n,
            head.len() == 3,
            v@ =~= head + Seq::new(2 * i as nat, |j: int| mip_target(width, height, j)),
        decreases n - i,
    {
        let down = TargetSpec {
            role: TargetRole::Downsample(i),
            width: width >> ((i + 1) as u32),
            height: height >> ((i + 1) as u32),
        };
        let up = TargetSpec {
            role: TargetRole::Upsample(i),
            width: width >> (i as u32),
            height: height >> (i as u32),
        };
        proof {
            assert((2 * i as int) / 2 == i as int && (2 * i as int) % 2 == 0);
            assert((2 * i as int + 1) / 2 == i as int && (2 * i as int + 1) % 2 == 1);
        }
        v.push(down);
        v.push(up);
        i = i + 1;
    }
    v.push(TargetSpec { role: TargetRole::Composite, width, height });
    v.push(TargetSpec { role: TargetRole::Tonemapped, width, height });
    assert(v@ =~= layout_of(width, height));
    v
}

/// The layout holds the target of `role` at `role_index`, wherever that
/// index is defined.
pub proof fn lemma_role_index_in_layout(w: u32, h: u32, role: TargetRole)
    requires
        w > 0,
        h > 0,
        role_index(role, chain_len(w, h)) is Some,
    ensures
        role_index(role, chain_len(w, h))->0 < layout_of(w, h).len(),
        layout_of(w, h)[role_index(role, chain_len(w, h))->0 as int].role == role,
{
    let n = chain_len(w, h);
    let l = layout_of(w, h);
    assert(l.len() == 5 + 2 * n);
    match role {
        TargetRole::Downsample(i) => {
            assert((2 * i as int) / 2 == i as int && (2 * i as int) % 2 == 0);
            assert(l[3 + 2 * i as int] == mip_target(w, h, 2 * i as int));
        },
        TargetRole::Upsample(i) => {
            assert((2 * i as int + 1) / 2 == i as int && (2 * i as int + 1) % 2 == 1);
            assert(l[4 + 2 * i as int] == mip_target(w, h, 2 * i as int + 1));
        },
        TargetRole::Composite => {
            assert(l[3 + 2 * n as int] == sized(TargetRole::Composite, w, h));
        },
        TargetRole::Tonemapped => {
            assert(l[4 + 2 * n as int] == sized(TargetRole::Tonemapped, w, h));
        },
        _ => {},
    }
}

/// The viewport-sized targets of the pipeline. Each handle stands for one
/// color texture and the framebuffer whose only attachment it is; handle `k`
/// belongs to entry `k` of the layout of the current size.
pub struct TargetSet<H> {
    width: u32,
    height: u32,
    layout: Vec<TargetSpec>,
    handles: Vec<H>,
}

/// What a resize asks of the caller.
pub enum ResizeOutcome<H> {
    /// The size is the current one: nothing is released or allocated.
    Unchanged,
    /// Destroy every handle of `released` (the framebuffer before its
    /// texture), then allocate the targets of `create` in order and hand them
    /// to `TargetSet::install`. An empty `create` leaves nothing to draw into.
    Rebuild { released: Vec<H>, create: Vec<TargetSpec> },
}

/// The effect of `TargetSet::resize` from `s` to `t` for `w` x `h`,
/// answered by `r`.
pub open spec fn resize_effect<H>(
    s: TargetSet<H>,
    t: TargetSet<H>,
    w: u32,
    h: u32,
    r: ResizeOutcome<H>,
) -> bool {
    &&& t.wf()
    &&& if s.width() == w && s.height() == h {
        t == s && r is Unchanged
    } else {
        &&& t.width() == w
        &&& t.height() == h
        &&& t.layout() == layout_of(w, h)
        &&& t.handles().len() == 0
        &&& match r {
            ResizeOutcome::Rebuild { released, create } => {
                released@ == s.handles() && create@ == layout_of(w, h)
            },
            ResizeOutcome::Unchanged => false,
        }
    }
}

/// The effect of `TargetSet::install` from `s` to `t` with `created`.
pub open spec fn install_effect<H>(s: TargetSet<H>, t: TargetSet<H>, created: Seq<H>) -> bool {
    &&& t.wf()
    &&& t.width() == s.width()
    &&& t.height() == s.height()
    &&& t.layout() == s.layout()
    &&& t.handles() == created
}

/// Resizing to the current size changes nothing: no handle is released or
/// allocated, and the set is the same as before.
pub proof fn lemma_resize_same_size<H>(s: TargetSet<H>, t: TargetSet<H>, r: ResizeOutcome<H>)
    requires
        resize_effect(s, t, s.width(), s.height(), r),
    ensures
        t == s,
        t.handles() == s.handles(),
        r is Unchanged,
{
}

/// Resizing from any size to `w` x `h` and then installing what was asked
/// for leaves live exactly the targets that `layout_of(w, h)` prescribes,
/// and, where the size changed, every handle of the old size was handed back
/// for destruction, none kept.
pub proof fn lemma_resize_then_install<H>(
    s0: TargetSet<H>,
    s1: TargetSet<H>,
    s2: TargetSet<H>,
    w: u32,
    h: u32,
    r: ResizeOutcome<H>,
    created: Seq<H>,
)
    requires
        s0.wf(),
        resize_effect(s0, s1, w, h, r),
        s1.handles().len() == 0,
        created.len() == s1.layout().len(),
        install_effect(s1, s2, created),
    ensures
        s2.wf(),
        s2.width() == w,
        s2.height() == h,
        s2.layout() == layout_of(w, h),
        s2.handles() == created,
        s2.handles().len() == layout_of(w, h).len(),
        (s0.width() != w || s0.height() != h) ==> match r {
            ResizeOutcome::Rebuild { released, create } => {
                released@ == s0.handles() && create@ == s2.layout()
            },
            ResizeOutcome::Unchanged => false,
        },
{
}

impl<H> TargetSet<H> {
    pub closed spec fn width(&self) -> u32 {
        self.width
    }

    pub closed spec fn height(&self) -> u32 {
        self.height
    }

    /// What each live handle holds, by position.
    pub closed spec fn layout(&self) -> Seq<TargetSpec> {
        self.layout@
    }

    /// The live handles; empty while none are allocated.
    pub closed spec fn handles(&self) -> Seq<H> {
        self.handles@
    }

    pub open spec fn wf(&self) -> bool {
        &&& self.layout() == layout_of(self.width(), self.height())
        &&& (self.handles().len() == 0 || self.handles().len() == self.layout().len())
    }

    /// Every target of the current size is allocated, and there is one.
    pub open spec fn is_live(&self) -> bool {
        self.layout().len() > 0 && self.handles().len() == self.layout().len()
    }

    /// A set for a viewport of no size yet, holding nothing.
    pub fn new() -> (r: Self)
        ensures
            r.wf(),
            r.width() == 0,
            r.height() == 0,
            r.handles().len() == 0,
    {
        let r = TargetSet { width: 0, height: 0, layout: Vec::new(), handles: Vec::new() };
        assert(r.layout() =~= layout_of(0, 0));
        r
    }

    /// The current viewport size.
    pub fn size(&self) -> (r: (u32, u32))
        ensures
            r == (self.width(), self.height()),
    {
        (self.width, self.height)
    }

    /// Moves to a `width` x `height` viewport. At the current size this does
    /// nothing. Otherwise every live handle is handed back for destruction
    /// and the layout of the new size is handed out for allocation.
    pub fn resize(&mut self, width: u32, height: u32) -> (r: ResizeOutcome<H>)
        requires
            old(self).wf(),
        ensures
            resize_effect(*old(self), *final(self), width, height, r),
    {
        if self.width == width && self.height == height {
            return ResizeOutcome::Unchanged;
        }
        let mut released: Vec<H> = Vec::new();
        core::mem::swap(&mut released, &mut self.handles);
        let create = target_layout(width, height);
        self.width = width;
        self.height = height;
        self.layout = target_layout(width, height);
        ResizeOutcome::Rebuild { released, create }
    }

    /// Takes the handles allocated for the layout of the current size, one
    /// per entry and in its order.
    pub fn install(&mut self, created: Vec<H>)
        requires
            old(self).wf(),
            old(self).handles().len() == 0,
            created.len() == old(self).layout().len(),
        ensures
            install_effect(*old(self), *final(self), created@),
    {
        self.handles = created;
    }

    /// Whether every target of the current size is allocated, and there is one.
    pub fn is_ready(&self) -> (r: bool)
        requires
            self.wf(),
        ensures
            r == self.is_live(),
    {
        self.handles.len() > 0
    }

    /// The handle of the target of `role`, where the current size has one
    /// and it is allocated.
    pub fn handle(&self, role: TargetRole) -> (r: Option<&H>)
        requires
            self.wf(),
        ensures
            r is Some <==> self.is_live() && role_index(role, chain_len(self.width(), self.height())) is Some,
            r is Some ==> {
                let k = role_index(role, chain_len(self.width(), self.height()))->0 as int;
                &&& *r->0 == self.handles()[k]
                &&& self.layout()[k].role == role
            },
    {
        if self.handles.len() == 0 {
            return None;
        }
        let n = bloom_chain_length(self.width, self.height);
        let k: usize = match role {
            TargetRole::Scene => 0,
            TargetRole::Brightness => 1,
            TargetRole::LensFlare => 2,
            TargetRole::Downsample(i) => {
                if i >= n {
                    return None;
                }
                3 + 2 * i
            },
            TargetRole::Upsample(i) => {
                if i >= n {
                    return None;
                }
                4 + 2 * i
            },
            TargetRole::Composite => 3 + 2 * n,
            TargetRole::Tonemapped => 4 + 2 * n,
        };
        proof {
            lemma_role_index_in_layout(self.width, self.height, role);
        }
        Some(&self.handles[k])
    }
}

} // verus!
