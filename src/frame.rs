//! The fixed sequence of passes that makes one frame.
use vstd::prelude::*;
use crate::bloom::{bloom_chain_length, chain_len, shr, MAX_BLOOM_ITER};
use crate::targets::{role_index, TargetRole};

verus! {

/// The GPU program a step runs.
#[derive(Clone, Copy, PartialEq, Eq, Structural, Debug)]
pub enum PassKind {
    Main,
    Brightness,
    LensFlare,
    Downsample,
    Upsample,
    Composite,
    Tonemap,
    Passthrough,
}

/// One draw of a frame: `pass` reads the targets of `inputs`, bound in order
/// to the samplers `texture0`, `texture1`, ..., and writes the target of
/// `output` (`None`: the visible surface) at `width` x `height`.
pub struct PassStep {
    pub pass: PassKind,
    pub inputs: Vec<TargetRole>,
    pub output: Option<TargetRole>,
    pub width: u32,
    pub height: u32,
}

pub open spec fn step_is(
    s: PassStep,
    pass: PassKind,
    inputs: Seq<TargetRole>,
    output: Option<TargetRole>,
    w: u32,
    h: u32,
) -> bool {
    s.pass == pass && s.inputs@ == inputs && s.output == output && s.width == w && s.height == h
}

/// Number of steps of a frame with `n` bloom levels: main, brightness,
/// lens flare, `n` downsamples, `n` upsamples, composite, tonemap and
/// passthrough.
pub open spec fn frame_len(n: nat) -> nat {
    6 + 2 * n
}

/// Step `k` of the frame of a `w` x `h` viewport with `n` bloom levels.
pub open spec fn frame_step(s: PassStep, w: u32, h: u32, n: nat, k: int) -> bool {
    if k == 0 {
        step_is(s, PassKind::Main, seq![], Some(TargetRole::Scene), w, h)
    } else if k == 1 {
        step_is(
            s,
            PassKind::Brightness,
            seq![TargetRole::Scene],
            Some(TargetRole::Brightness),
            w,
            h,
        )
    } else if k == 2 {
        step_is(
            s,
            PassKind::LensFlare,
            seq![TargetRole::Brightness],
            Some(TargetRole::LensFlare),
            w,
            h,
        )
    } else if k < 3 + n {
        let i = k - 3;
        step_is(
            s,
            PassKind::Downsample,
            seq![down_source(i)],
            Some(TargetRole::Downsample(i as usize)),
            shr(w, (i + 1) as nat),
            shr(h, (i + 1) as nat),
        )
    } else if k < 3 + 2 * n {
        let i = n - 1 - (k - 3 - n);
        step_is(
            s,
            PassKind::Upsample,
            seq![up_coarse(i, n), down_source(i)],
            Some(TargetRole::Upsample(i as usize)),
            shr(w, i as nat),
            shr(h, i as nat),
        )
    } else if k == 3 + 2 * n {
        step_is(
            s,
            PassKind::Composite,
            seq![TargetRole::Scene, bloom_result(n), TargetRole::LensFlare],
            Some(TargetRole::Composite),
            w,
            h,
        )
    } else if k == 4 + 2 * n {
        step_is(
            s,
            PassKind::Tonemap,
            seq![TargetRole::Composite],
            Some(TargetRole::Tonemapped),
            w,
            h,
        )
    } else {
        step_is(s, PassKind::Passthrough, seq![TargetRole::Tonemapped], None, w, h)
    }
}

/// What level `i` of the bloom chain halves: the bright parts for the finest
/// level, else the level before.
pub open spec fn down_source(i: int) -> TargetRole {
    if i == 0 {
        TargetRole::Brightness
    } else {
        TargetRole::Downsample((i - 1) as usize)
    }
}

/// The coarser image that upsample level `i` enlarges: the coarsest
/// downsample for the last level, else the upsample of the level after.
pub open spec fn up_coarse(i: int, n: nat) -> TargetRole {
    if i == n - 1 {
        TargetRole::Downsample(i as usize)
    } else {
        TargetRole::Upsample((i + 1) as usize)
    }
}

/// The glow that the composite adds: the finest upsample, or the scene
/// itself where there is no bloom level.
pub open spec fn bloom_result(n: nat) -> TargetRole {
    if n == 0 {
        TargetRole::Scene
    } else {
        TargetRole::Upsample(0)
    }
}

/// Source file of the vertex stage that every pass shares.
pub open spec fn vertex_file() -> Seq<char> {
    "simple.vert"@
}

/// Source file of the fragment stage of `pass`.
pub open spec fn fragment_file(pass: PassKind) -> Seq<char> {
    match pass {
        PassKind::Main => "blackhole_main.frag"@,
        PassKind::Brightness => "bloom_brightness_pass.frag"@,
        PassKind::LensFlare => "lens_flare.frag"@,
        PassKind::Downsample => "bloom_downsample.frag"@,
        PassKind::Upsample => "bloom_upsample.frag"@,
        PassKind::Composite => "bloom_composite.frag"@,
        PassKind::Tonemap => "tonemapping.frag"@,
        PassKind::Passthrough => "passthrough.frag"@,
    }
}

/// File name of the vertex stage source shared by all passes.
pub fn vertex_shader_name() -> (r: &'static str)
    ensures
        r@ == vertex_file(),
{
    "simple.vert"
}

/// File name of the fragment stage source of `pass`.
pub fn fragment_shader_name(pass: PassKind) -> (r: &'static str)
    ensures
        r@ == fragment_file(pass),
{
    match pass {
        PassKind::Main => "blackhole_main.frag",
        PassKind::Brightness => "bloom_brightness_pass.frag",
        PassKind::LensFlare => "lens_flare.frag",
        PassKind::Downsample => "bloom_downsample.frag",
        PassKind::Upsample => "bloom_upsample.frag",
        PassKind::Composite => "bloom_composite.frag",
        PassKind::Tonemap => "tonemapping.frag",
        PassKind::Passthrough => "passthrough.frag",
    }
}

/// The steps `plan` that `frame_plan` gives for a viewport with `n` bloom
/// levels run in this fixed order: main, brightness, lens flare, the `n`
/// downsamples from the finest level to the coarsest, the `n` upsamples from
/// the coarsest back to the finest, composite, tonemap, passthrough. That is
/// `6 + 2n` steps, of which only the last draws to the visible surface.
pub proof fn lemma_frame_order(plan: Seq<PassStep>, w: u32, h: u32, n: nat)
    requires
        plan.len() == frame_len(n),
        forall|k: int| 0 <= k < plan.len() ==> frame_step(#[trigger] plan[k], w, h, n, k),
    ensures
        plan.len() == 6 + 2 * (n as int),
        plan[0].pass == PassKind::Main,
        plan[1].pass == PassKind::Brightness,
        plan[2].pass == PassKind::LensFlare,
        forall|i: int|
            0 <= i < (n as int) ==> (#[trigger] plan[3 + i]).pass == PassKind::Downsample
                && plan[3 + i].output == Some(TargetRole::Downsample(i as usize)),
        forall|i: int|
            0 <= i < (n as int) ==> (#[trigger] plan[3 + 2 * (n as int) - 1 - i]).pass == PassKind::Upsample
                && plan[3 + 2 * (n as int) - 1 - i].output == Some(TargetRole::Upsample(i as usize)),
        plan[3 + 2 * (n as int)].pass == PassKind::Composite,
        plan[4 + 2 * (n as int)].pass == PassKind::Tonemap,
        plan[5 + 2 * (n as int)].pass == PassKind::Passthrough,
        plan[5 + 2 * (n as int)].output is None,
        forall|k: int| 0 <= k < 5 + 2 * (n as int) ==> (#[trigger] plan[k]).output is Some,
{
    let ni = n as int;
    assert(frame_step(plan[0], w, h, n, 0));
    assert(frame_step(plan[1], w, h, n, 1));
    assert(frame_step(plan[2], w, h, n, 2));
    assert(frame_step(plan[3 + 2 * ni], w, h, n, 3 + 2 * ni));
    assert(frame_step(plan[4 + 2 * ni], w, h, n, 4 + 2 * ni));
    assert(frame_step(plan[5 + 2 * ni], w, h, n, 5 + 2 * ni));
    assert forall|i: int| 0 <= i < ni implies (#[trigger] plan[3 + 2 * ni - 1 - i]).pass
        == PassKind::Upsample && plan[3 + 2 * ni - 1 - i].output == Some(
        TargetRole::Upsample(i as usize),
    ) by {
        assert(frame_step(plan[3 + 2 * ni - 1 - i], w, h, n, 3 + 2 * ni - 1 - i));
    }
    assert forall|k: int| 0 <= k < 5 + 2 * ni implies (#[trigger] plan[k]).output is Some by {
        assert(frame_step(plan[k], w, h, n, k));
    }
}

/// In the steps of a frame, each input is a target that an earlier step of
/// the same frame wrote, and every target that a step reads or writes is one
/// of the layout of that viewport.
pub proof fn lemma_frame_reads_follow_writes(
    plan: Seq<PassStep>,
    w: u32,
    h: u32,
    n: nat,
    k: int,
    m: int,
)
    requires
        n <= 8,
        plan.len() == frame_len(n),
        forall|j: int| 0 <= j < plan.len() ==> frame_step(#[trigger] plan[j], w, h, n, j),
        0 <= k < plan.len(),
        0 <= m < plan[k].inputs@.len(),
    ensures
        exists|j: int| 0 <= j < k && plan[j].output == Some(plan[k].inputs@[m]),
        role_index(plan[k].inputs@[m], n) is Some,
        plan[k].output matches Some(t) ==> role_index(t, n) is Some,
{
    assert(frame_step(plan[k], w, h, n, k));
    let role = plan[k].inputs@[m];
    let j: int = if k == 1 {
        0
    } else if k == 2 {
        1
    } else if k < 3 + n {
        if k == 3 {
            1
        } else {
            k - 1
        }
    } else if k < 3 + 2 * n {
        let i = n - 1 - (k - 3 - n);
        if m == 0 {
            if i == n - 1 {
                3 + i
            } else {
                k - 1
            }
        } else {
            if i == 0 {
                1
            } else {
                3 + i - 1
            }
        }
    } else if k == 3 + 2 * n {
        if m == 0 {
            0
        } else if m == 1 {
            if n == 0 {
                0
            } else {
                k - 1
            }
        } else {
            2
        }
    } else {
        k - 1
    };
    assert(frame_step(plan[j], w, h, n, j));
    assert(0 <= j < k && plan[j].output == Some(role));
}

/// The steps of one frame of a `width` x `height` viewport, in the order in
/// which they must run; none where a side is zero.
pub fn frame_plan(width: u32, height: u32) -> (r: Vec<PassStep>)
    ensures
        (width == 0 || height == 0) ==> r.len() == 0,
        width > 0 && height > 0 ==> {
            &&& r.len() == frame_len(chain_len(width, height))
            &&& forall|k: int|
                0 <= k < r.len() ==> frame_step(#[trigger] r@[k], width, height, chain_len(width, height), k)
        },
{
    let mut r: Vec<PassStep> = Vec::new();
    if width == 0 || height == 0 {
        return r;
    }
    let n = bloom_chain_length(width, height);
    let ghost nn = n as nat;
    r.push(PassStep {
        pass: PassKind::Main,
        inputs: Vec::new(),
        output: Some(TargetRole::Scene),
        width,
        height,
    });
    let mut inputs: Vec<TargetRole> = Vec::new();
    inputs.push(TargetRole::Scene);
    r.push(PassStep {
        pass: PassKind::Brightness,
        inputs,
        output: Some(TargetRole::Brightness),
        width,
        height,
    });
    let mut inputs: Vec<TargetRole> = Vec::new();
    inputs.push(TargetRole::Brightness);
    r.push(PassStep {
        pass: PassKind::LensFlare,
        inputs,
        output: Some(TargetRole::LensFlare),
        width,
        height,
    });
    assert(r@[0].inputs@ =~= seq![]);
    assert(r@[1].inputs@ =~= seq![TargetRole::Scene]);
    assert(r@[2].inputs@ =~= seq![TargetRole::Brightness]);
    let mut i: usize = 0;
    while i < n
        invariant
            n == chain_len(width, height),
            nn == n,
            n <= MAX_BLOOM_ITER,
            width > 0 && height > 0,
            i <= n,
            r.len() == 3 + i,
            forall|k: int| 0 <= k < r.len() ==> frame_step(#[trigger] r@[k], width, height, nn, k),
        decreases n - i,
    {
        let src = if i == 0 {
            TargetRole::Brightness
        } else {
            TargetRole::Downsample(i - 1)
        };
        let mut inputs: Vec<TargetRole> = Vec::new();
        inputs.push(src);
        assert(inputs@ =~= seq![down_source(i as int)]);
        r.push(PassStep {
            pass: PassKind::Downsample,
            inputs,
            output: Some(TargetRole::Downsample(i)),
            width: width >> ((i + 1) as u32),
            height: height >> ((i + 1) as u32),
        });
        i = i + 1;
    }
    let mut i: usize = n;
    while i > 0
        invariant
            n == chain_len(width, height),
            nn == n,
            n <= MAX_BLOOM_ITER,
            width > 0 && height > 0,
            i <= n,
            r.len() == 3 + n + (n - i),
            forall|k: int| 0 <= k < r.len() ==> frame_step(#[trigger] r@[k], width, height, nn, k),
        decreases i,
    {
        let level = i - 1;
        let coarse = if level == n - 1 {
            TargetRole::Downsample(level)
        } else {
            TargetRole::Upsample(level + 1)
        };
        let fine = if level == 0 {
            TargetRole::Brightness
        } else {
            TargetRole::Downsample(level - 1)
        };
        let mut inputs: Vec<TargetRole> = Vec::new();
        inputs.push(coarse);
        inputs.push(fine);
        assert(inputs@ =~= seq![up_coarse(level as int, nn), down_source(level as int)]);
        r.push(PassStep {
            pass: PassKind::Upsample,
            inputs,
            output: Some(TargetRole::Upsample(level)),
            width: width >> (level as u32),
            height: height >> (level as u32),
        });
        i = level;
    }
    let glow = if n == 0 {
        TargetRole::Scene
    } else {
        TargetRole::Upsample(0)
    };
    let mut inputs: Vec<TargetRole> = Vec::new();
    inputs.push(TargetRole::Scene);
    inputs.push(glow);
    inputs.push(TargetRole::LensFlare);
    assert(inputs@ =~= seq![TargetRole::Scene, bloom_result(nn), TargetRole::LensFlare]);
    r.push(PassStep {
        pass: PassKind::Composite,
        inputs,
        output: Some(TargetRole::Composite),
        width,
        height,
    });
    let mut inputs: Vec<TargetRole> = Vec::new();
    inputs.push(TargetRole::Composite);
    assert(inputs@ =~= seq![TargetRole::Composite]);
    r.push(PassStep {
        pass: PassKind::Tonemap,
        inputs,
        output: Some(TargetRole::Tonemapped),
        width,
        height,
    });
    let mut inputs: Vec<TargetRole> = Vec::new();
    inputs.push(TargetRole::Tonemapped);
    assert(inputs@ =~= seq![TargetRole::Tonemapped]);
    r.push(PassStep { pass: PassKind::Passthrough, inputs, output: None, width, height });
    r
}

} // verus!
