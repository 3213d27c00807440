//! The set of compiled shader programs and how a program is picked from it.
//!
//! `P` is the type of a compiled custom shader program, `T` that of a compiled
//! texture program; the compiling itself is the renderer's business.
use vstd::prelude::*;

verus! {

/// Raw GL program for color correction using a 3D LUT.
#[derive(Debug, Clone, Copy, PartialEq, Eq, Structural)]
pub struct ColorCorrectionProgram {
    pub program: u32,
    pub u_tex: i32,
    pub u_color_lut: i32,
    pub u_alpha: i32,
}

/// Raw GL program for tone mapping between transfer functions.
#[derive(Debug, Clone, Copy, PartialEq, Eq, Structural)]
pub struct ToneMapProgram {
    pub program: u32,
    pub u_tex: i32,
    pub u_src_tf: i32,
    pub u_dst_tf: i32,
    pub u_src_max_lum: i32,
    pub u_dst_max_lum: i32,
    pub u_color_matrix: i32,
}

impl ColorCorrectionProgram {
    /// The program with the uniform locations of `tex`, `color_lut` and `alpha`,
    /// in that order.
    pub fn from_locations(program: u32, locations: &Vec<i32>) -> (r: Self)
        requires
            locations.len() >= 3,
        ensures
            r.program == program,
            r.u_tex == locations[0],
            r.u_color_lut == locations[1],
            r.u_alpha == locations[2],
    {
        ColorCorrectionProgram {
            program,
            u_tex: locations[0],
            u_color_lut: locations[1],
            u_alpha: locations[2],
        }
    }
}

impl ToneMapProgram {
    /// The program with the uniform locations of `tex`, `src_tf`, `dst_tf`,
    /// `src_max_lum`, `dst_max_lum` and `color_matrix`, in that order.
    pub fn from_locations(program: u32, locations: &Vec<i32>) -> (r: Self)
        requires
            locations.len() >= 6,
        ensures
            r.program == program,
            r.u_tex == locations[0],
            r.u_src_tf == locations[1],
            r.u_dst_tf == locations[2],
            r.u_src_max_lum == locations[3],
            r.u_dst_max_lum == locations[4],
            r.u_color_matrix == locations[5],
    {
        ToneMapProgram {
            program,
            u_tex: locations[0],
            u_src_tf: locations[1],
            u_dst_tf: locations[2],
            u_src_max_lum: locations[3],
            u_dst_max_lum: locations[4],
            u_color_matrix: locations[5],
        }
    }
}

#[derive(Debug, Clone, Copy, PartialEq, Eq, Structural)]
pub enum ProgramType {
    Border,
    Shadow,
    Resize,
    Close,
    Open,
}

pub struct Shaders<P, T> {
    pub border: Option<P>,
    pub shadow: Option<P>,
    pub clipped_surface: Option<T>,
    pub resize: Option<P>,
    pub gradient_fade: Option<T>,
    pub custom_resize: Option<P>,
    pub custom_close: Option<P>,
    pub custom_open: Option<P>,
    /// Color correction program (GLES 3.0, compiled manually for sampler3D support).
    pub color_correction: Option<ColorCorrectionProgram>,
    /// Tone mapping program (GLES 3.0).
    pub tone_map: Option<ToneMapProgram>,
}

/// `b` is a clone of `a`, slot by slot.
pub open spec fn option_cloned<P: Clone>(a: Option<P>, b: Option<P>) -> bool {
    match (a, b) {
        (None, None) => true,
        (Some(x), Some(y)) => cloned(x, y),
        _ => false,
    }
}

/// The slot that [`Shaders::program`] reads for `kind`: a custom resize program
/// takes the place of the built-in one; close and open have only custom ones.
pub open spec fn program_slot<P, T>(s: Shaders<P, T>, kind: ProgramType) -> Option<P> {
    match kind {
        ProgramType::Border => s.border,
        ProgramType::Shadow => s.shadow,
        ProgramType::Resize => if s.custom_resize is Some {
            s.custom_resize
        } else {
            s.resize
        },
        ProgramType::Close => s.custom_close,
        ProgramType::Open => s.custom_open,
    }
}

/// All slots but the three custom ones agree.
pub open spec fn same_builtin<P, T>(a: Shaders<P, T>, b: Shaders<P, T>) -> bool {
    &&& a.border == b.border
    &&& a.shadow == b.shadow
    &&& a.clipped_surface == b.clipped_surface
    &&& a.resize == b.resize
    &&& a.gradient_fade == b.gradient_fade
    &&& a.color_correction == b.color_correction
    &&& a.tone_map == b.tone_map
}

impl<P, T> Shaders<P, T> {
    /// The shader set right after compiling: no custom programs yet.
    pub fn new(
        border: Option<P>,
        shadow: Option<P>,
        clipped_surface: Option<T>,
        resize: Option<P>,
        gradient_fade: Option<T>,
        color_correction: Option<ColorCorrectionProgram>,
        tone_map: Option<ToneMapProgram>,
    ) -> (r: Self)
        ensures
            r.border == border,
            r.shadow == shadow,
            r.clipped_surface == clipped_surface,
            r.resize == resize,
            r.gradient_fade == gradient_fade,
            r.custom_resize is None,
            r.custom_close is None,
            r.custom_open is None,
            r.color_correction == color_correction,
            r.tone_map == tone_map,
    {
        Shaders {
            border,
            shadow,
            clipped_surface,
            resize,
            gradient_fade,
            custom_resize: None,
            custom_close: None,
            custom_open: None,
            color_correction,
            tone_map,
        }
    }

    /// Install `program` as the custom resize program, returning the previous one.
    pub fn replace_custom_resize_program(&mut self, program: Option<P>) -> (prev: Option<P>)
        ensures
            prev == old(self).custom_resize,
            final(self).custom_resize == program,
            final(self).custom_close == old(self).custom_close,
            final(self).custom_open == old(self).custom_open,
            same_builtin(*final(self), *old(self)),
    {
        let mut slot = program;
        std::mem::swap(&mut self.custom_resize, &mut slot);
        slot
    }

    /// Install `program` as the custom close program, returning the previous one.
    pub fn replace_custom_close_program(&mut self, program: Option<P>) -> (prev: Option<P>)
        ensures
            prev == old(self).custom_close,
            final(self).custom_close == program,
            final(self).custom_resize == old(self).custom_resize,
            final(self).custom_open == old(self).custom_open,
            same_builtin(*final(self), *old(self)),
    {
        let mut slot = program;
        std::mem::swap(&mut self.custom_close, &mut slot);
        slot
    }

    /// Install `program` as the custom open program, returning the previous one.
    pub fn replace_custom_open_program(&mut self, program: Option<P>) -> (prev: Option<P>)
        ensures
            prev == old(self).custom_open,
            final(self).custom_open == program,
            final(self).custom_resize == old(self).custom_resize,
            final(self).custom_close == old(self).custom_close,
            same_builtin(*final(self), *old(self)),
    {
        let mut slot = program;
        std::mem::swap(&mut self.custom_open, &mut slot);
        slot
    }
}

/// What installing a custom program does with `compiled`: `None` (no custom
/// program requested) clears the slot, `Some(Ok(p))` installs `p`, and
/// `Some(Err(_))` (a failed compile) leaves the slot as it was.
pub open spec fn custom_slot_after<P, E>(slot: Option<P>, compiled: Option<Result<P, E>>) -> Option<P> {
    match compiled {
        None => None,
        Some(Ok(p)) => Some(p),
        Some(Err(_)) => slot,
    }
}

/// The program that installing `compiled` displaces, to be destroyed.
pub open spec fn custom_displaced<P, E>(slot: Option<P>, compiled: Option<Result<P, E>>) -> Option<P> {
    match compiled {
        Some(Err(_)) => None,
        _ => slot,
    }
}

impl<P, T> Shaders<P, T> {
    /// Set the custom resize program from the result of compiling the requested
    /// source; returns the displaced program, which the caller destroys.
    pub fn set_custom_resize_program<E>(&mut self, compiled: Option<Result<P, E>>) -> (displaced: Option<P>)
        ensures
            final(self).custom_resize == custom_slot_after(old(self).custom_resize, compiled),
            displaced == custom_displaced(old(self).custom_resize, compiled),
            final(self).custom_close == old(self).custom_close,
            final(self).custom_open == old(self).custom_open,
            same_builtin(*final(self), *old(self)),
    {
        match compiled {
            Some(Err(_)) => None,
            Some(Ok(p)) => self.replace_custom_resize_program(Some(p)),
            None => self.replace_custom_resize_program(None),
        }
    }

    /// Set the custom close program from the result of compiling the requested
    /// source; returns the displaced program, which the caller destroys.
    pub fn set_custom_close_program<E>(&mut self, compiled: Option<Result<P, E>>) -> (displaced: Option<P>)
        ensures
            final(self).custom_close == custom_slot_after(old(self).custom_close, compiled),
            displaced == custom_displaced(old(self).custom_close, compiled),
            final(self).custom_resize == old(self).custom_resize,
            final(self).custom_open == old(self).custom_open,
            same_builtin(*final(self), *old(self)),
    {
        match compiled {
            Some(Err(_)) => None,
            Some(Ok(p)) => self.replace_custom_close_program(Some(p)),
            None => self.replace_custom_close_program(None),
        }
    }

    /// Set the custom open program from the result of compiling the requested
    /// source; returns the displaced program, which the caller destroys.
    pub fn set_custom_open_program<E>(&mut self, compiled: Option<Result<P, E>>) -> (displaced: Option<P>)
        ensures
            final(self).custom_open == custom_slot_after(old(self).custom_open, compiled),
            displaced == custom_displaced(old(self).custom_open, compiled),
            final(self).custom_resize == old(self).custom_resize,
            final(self).custom_close == old(self).custom_close,
            same_builtin(*final(self), *old(self)),
    {
        match compiled {
            Some(Err(_)) => None,
            Some(Ok(p)) => self.replace_custom_open_program(Some(p)),
            None => self.replace_custom_open_program(None),
        }
    }
}

impl<P: Clone, T> Shaders<P, T> {
    /// A clone of the program to use for `program`.
    pub fn program(&self, program: ProgramType) -> (r: Option<P>)
        ensures
            option_cloned(program_slot(*self, program), r),
    {
        match program {
            ProgramType::Border => self.border.clone(),
            ProgramType::Shadow => self.shadow.clone(),
            ProgramType::Resize => match &self.custom_resize {
                Some(p) => Some(p.clone()),
                None => self.resize.clone(),
            },
            ProgramType::Close => self.custom_close.clone(),
            ProgramType::Open => self.custom_open.clone(),
        }
    }
}

/// Once a custom resize program is installed, resizing uses it; once it is
/// removed, resizing falls back to the built-in program.
pub proof fn lemma_custom_resize_takes_over<P, T>(s: Shaders<P, T>, custom: Option<P>)
    ensures
        program_slot(Shaders { custom_resize: custom, ..s }, ProgramType::Resize) == (match custom {
            Some(_) => custom,
            None => s.resize,
        }),
{
}

/// Each draw reads its own slot: border and shadow their built-in programs,
/// close and open exactly their custom programs (no fallback to another slot),
/// and resize the custom resize program when there is one, else the built-in.
pub proof fn lemma_program_reads_own_slot<P, T>(s: Shaders<P, T>)
    ensures
        program_slot(s, ProgramType::Border) == s.border,
        program_slot(s, ProgramType::Shadow) == s.shadow,
        program_slot(s, ProgramType::Close) == s.custom_close,
        program_slot(s, ProgramType::Open) == s.custom_open,
        s.custom_resize is Some ==> program_slot(s, ProgramType::Resize) == s.custom_resize,
        s.custom_resize is None ==> program_slot(s, ProgramType::Resize) == s.resize,
{
}

/// Installing a custom program of one kind never changes what another kind of
/// draw uses: two shader sets that agree on a kind's slots pick the same program.
pub proof fn lemma_program_independent_of_other_slots<P, T>(a: Shaders<P, T>, b: Shaders<P, T>, kind: ProgramType)
    requires
        same_builtin(a, b),
        kind == ProgramType::Close ==> a.custom_close == b.custom_close,
        kind == ProgramType::Open ==> a.custom_open == b.custom_open,
        kind == ProgramType::Resize ==> a.custom_resize == b.custom_resize,
    ensures
        program_slot(a, kind) == program_slot(b, kind),
{
}

/// Setting a custom program: a compiled program is installed and the previous
/// one handed back for destruction; an unset request empties the slot and hands
/// back the previous one; a failed compile keeps the previous program installed
/// and hands back nothing.
pub proof fn lemma_set_custom_outcomes<P, E>(slot: Option<P>, p: P, e: E)
    ensures
        custom_slot_after(slot, Some(Ok::<P, E>(p))) == Some(p),
        custom_displaced(slot, Some(Ok::<P, E>(p))) == slot,
        custom_slot_after(slot, None::<Result<P, E>>) == None::<P>,
        custom_displaced(slot, None::<Result<P, E>>) == slot,
        custom_slot_after(slot, Some(Err::<P, E>(e))) == slot,
        custom_displaced(slot, Some(Err::<P, E>(e))) == None::<P>,
{
}

} // verus!
