//! The decision core of the GPU-facing setup the rendering collaborator
//! performs. Compiling and linking shaders is outside work (it talks to
//! the driver); the sequencing of that work and the propagation of its
//! failures is simulation-owned logic and verified here. The collaborator
//! performs one requested action at a time and reports each outcome back.

use vstd::prelude::*;

verus! {

/// Where a shader-program build stands. The driver hands back object
/// names (`u32`) for compiled shaders and linked programs, and a log
/// text on failure.
pub enum ShaderBuild {
    /// The vertex shader must be compiled next.
    NeedVertex,
    /// The fragment shader must be compiled next.
    NeedFragment { vertex: u32 },
    /// Both shaders compiled; they must be linked next.
    NeedLink { vertex: u32, fragment: u32 },
    /// The program linked.
    Built { program: u32 },
    /// A stage failed; its log is kept and nothing further is attempted.
    Failed { log: String },
}

impl ShaderBuild {
    /// Whether the build still wants an outcome.
    pub open spec fn pending(self) -> bool {
        match self {
            ShaderBuild::NeedVertex => true,
            ShaderBuild::NeedFragment { .. } => true,
            ShaderBuild::NeedLink { .. } => true,
            ShaderBuild::Built { .. } => false,
            ShaderBuild::Failed { .. } => false,
        }
    }
}

/// Advances the shader-program build by one collaborator outcome: the
/// result of the compile or link the current state asked for. The first
/// failing stage ends the build with its log; compiling both shaders and
/// linking them ends it with the linked program. A finished build
/// ignores further outcomes.
pub fn create_shader_program(state: ShaderBuild, outcome: Result<u32, String>) -> (next:
    ShaderBuild)
    ensures
        match state {
            ShaderBuild::NeedVertex => match outcome {
                Ok(v) => next == (ShaderBuild::NeedFragment { vertex: v }),
                Err(log) => next == (ShaderBuild::Failed { log }),
            },
            ShaderBuild::NeedFragment { vertex } => match outcome {
                Ok(f) => next == (ShaderBuild::NeedLink { vertex, fragment: f }),
                Err(log) => next == (ShaderBuild::Failed { log }),
            },
            ShaderBuild::NeedLink { .. } => match outcome {
                Ok(p) => next == (ShaderBuild::Built { program: p }),
                Err(log) => next == (ShaderBuild::Failed { log }),
            },
            ShaderBuild::Built { .. } => next == state,
            ShaderBuild::Failed { .. } => next == state,
        },
        next.pending() ==> state.pending(),
{
    match state {
        ShaderBuild::NeedVertex => match outcome {
            Ok(v) => ShaderBuild::NeedFragment { vertex: v },
            Err(log) => ShaderBuild::Failed { log },
        },
        ShaderBuild::NeedFragment { vertex } => match outcome {
            Ok(f) => ShaderBuild::NeedLink { vertex, fragment: f },
            Err(log) => ShaderBuild::Failed { log },
        },
        ShaderBuild::NeedLink { vertex: _, fragment: _ } => match outcome {
            Ok(p) => ShaderBuild::Built { program: p },
            Err(log) => ShaderBuild::Failed { log },
        },
        ShaderBuild::Built { program } => ShaderBuild::Built { program },
        ShaderBuild::Failed { log } => ShaderBuild::Failed { log },
    }
}

} // verus!
