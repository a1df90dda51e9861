//! The fixed-function texture combiner: a short chain of stages, each of
//! which combines up to three sources into one colour.

use vstd::prelude::*;

verus! {

/// How many combiner stages the hardware has.
pub const TEXENV_COUNT: usize = 6;

/// One stage of the combiner chain.
#[derive(Debug, Clone, Copy, PartialEq, Eq, Structural)]
pub struct Stage(usize);

impl Stage {
    /// The place of the stage in the chain.
    pub closed spec fn index(self) -> nat {
        self.0 as nat
    }

    #[verifier::type_invariant]
    spec fn inv(self) -> bool {
        self.0 < TEXENV_COUNT
    }

    /// Stage `index`, if the hardware has it.
    pub fn new(index: usize) -> (stage: Option<Stage>)
        ensures
            index < TEXENV_COUNT ==> stage is Some && stage->Some_0.index() == index,
            index >= TEXENV_COUNT ==> stage is None,
    {
        if index < TEXENV_COUNT {
            Some(Stage(index))
        } else {
            None
        }
    }

    pub fn number(&self) -> (n: usize)
        ensures
            n == self.index(),
            n < TEXENV_COUNT,
    {
        proof {
            use_type_invariant(self);
        }
        self.0
    }
}

/// Which half of a stage a setting is for.
#[derive(Debug, Clone, Copy, PartialEq, Eq, Structural)]
pub enum Mode {
    RGB,
    ALPHA,
    BOTH,
}

impl Mode {
    pub open spec fn has_rgb(self) -> bool {
        self != Mode::ALPHA
    }

    pub open spec fn has_alpha(self) -> bool {
        self != Mode::RGB
    }
}

/// Where a stage takes a colour from.
#[derive(Debug, Clone, Copy, PartialEq, Eq, Structural)]
pub enum Source {
    PrimaryColor,
    FragmentPrimaryColor,
    FragmentSecondaryColor,
    Texture0,
    Texture1,
    Texture2,
    Texture3,
    PreviousBuffer,
    Constant,
    Previous,
}

/// How a stage combines its sources.
#[derive(Debug, Clone, Copy, PartialEq, Eq, Structural)]
pub enum CombineFunc {
    Replace,
    Modulate,
    Add,
    AddSigned,
    Interpolate,
    Subtract,
    Dot3Rgb,
    MultiplyAdd,
    AddMultiply,
}

/// One half of a stage: three sources and what is done with them.
#[derive(Debug, Clone, Copy, PartialEq, Eq, Structural)]
pub struct Combiner {
    pub source0: Source,
    pub source1: Source,
    pub source2: Source,
    pub func: CombineFunc,
}

/// The whole setting of one stage.
#[derive(Debug, Clone, Copy, PartialEq, Eq, Structural)]
pub struct TexEnv {
    pub rgb: Combiner,
    pub alpha: Combiner,
}

/// A half of a stage that hands on what the stage before it made.
pub open spec fn pass_through() -> Combiner {
    Combiner {
        source0: Source::Previous,
        source1: Source::PrimaryColor,
        source2: Source::PrimaryColor,
        func: CombineFunc::Replace,
    }
}

impl TexEnv {
    /// The setting that a stage has before anything was asked of it.
    pub open spec fn initial() -> TexEnv {
        TexEnv { rgb: pass_through(), alpha: pass_through() }
    }

    /// A stage setting that hands on what the stage before it made.
    pub fn new() -> (env: TexEnv)
        ensures
            env == TexEnv::initial(),
    {
        let through = Combiner {
            source0: Source::Previous,
            source1: Source::PrimaryColor,
            source2: Source::PrimaryColor,
            func: CombineFunc::Replace,
        };
        TexEnv { rgb: through, alpha: through }
    }

    /// The setting with everything forgotten.
    pub fn reset(self) -> (env: TexEnv)
        ensures
            env == TexEnv::initial(),
    {
        TexEnv::new()
    }

    /// The setting with the sources of the halves that `mode` names replaced.
    /// A source that is not given is the primary colour.
    pub fn src(self, mode: Mode, source0: Source, source1: Option<Source>, source2: Option<
        Source,
    >) -> (env: TexEnv)
        ensures
            env.rgb == (if mode.has_rgb() {
                Combiner {
                    source0,
                    source1: source_or_primary(source1),
                    source2: source_or_primary(source2),
                    func: self.rgb.func,
                }
            } else {
                self.rgb
            }),
            env.alpha == (if mode.has_alpha() {
                Combiner {
                    source0,
                    source1: source_or_primary(source1),
                    source2: source_or_primary(source2),
                    func: self.alpha.func,
                }
            } else {
                self.alpha
            }),
    {
        let s1 = match source1 {
            Some(s) => s,
            None => Source::PrimaryColor,
        };
        let s2 = match source2 {
            Some(s) => s,
            None => Source::PrimaryColor,
        };
        let mut env = self;
        match mode {
            Mode::RGB => {
                env.rgb = Combiner { source0, source1: s1, source2: s2, func: self.rgb.func };
            },
            Mode::ALPHA => {
                env.alpha = Combiner { source0, source1: s1, source2: s2, func: self.alpha.func };
            },
            Mode::BOTH => {
                env.rgb = Combiner { source0, source1: s1, source2: s2, func: self.rgb.func };
                env.alpha = Combiner { source0, source1: s1, source2: s2, func: self.alpha.func };
            },
        }
        env
    }

    /// The setting with the function of the halves that `mode` names replaced.
    pub fn func(self, mode: Mode, func: CombineFunc) -> (env: TexEnv)
        ensures
            env.rgb == (if mode.has_rgb() {
                Combiner { func, ..self.rgb }
            } else {
                self.rgb
            }),
            env.alpha == (if mode.has_alpha() {
                Combiner { func, ..self.alpha }
            } else {
                self.alpha
            }),
    {
        let mut env = self;
        match mode {
            Mode::RGB => {
                env.rgb.func = func;
            },
            Mode::ALPHA => {
                env.alpha.func = func;
            },
            Mode::BOTH => {
                env.rgb.func = func;
                env.alpha.func = func;
            },
        }
        env
    }
}

/// The source that a stage uses where `source` may be left out.
pub open spec fn source_or_primary(source: Option<Source>) -> Source {
    match source {
        Some(s) => s,
        None => Source::PrimaryColor,
    }
}

} // verus!
