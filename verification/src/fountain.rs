//! Bookkeeping of a particle fountain whose particles live on the graphics
//! card.
//!
//! The particle state is kept twice. Each frame an update pass reads one copy
//! and writes the other, a draw pass shows the copy that was read, and the
//! two copies trade places. Particles are not all there from the start: they
//! are born over time, up to the number the buffers hold.

use vstd::prelude::*;

verus! {

/// Numbers stored for each particle: position, age, life and velocity.
pub const PARTICLE_COMPONENTS: usize = 6;

/// Number of copies of the particle state.
pub const COPIES: usize = 2;

/// What one frame works on.
#[derive(Clone, Copy, Debug, PartialEq, Eq, Structural)]
pub struct Frame {
    /// Vertex array that the update pass reads.
    pub update_vao: usize,
    /// Buffer that the update pass writes.
    pub feedback_buffer: usize,
    /// Vertex array that the draw pass reads.
    pub draw_vao: usize,
    /// Number of particles that both passes handle.
    pub count: usize,
}

/// What a fountain is made of.
pub struct FountainView {
    /// Copy that the next update pass reads.
    pub read_index: nat,
    /// Copy that the next update pass writes.
    pub write_index: nat,
    /// Particles that the buffers hold.
    pub num_particles: nat,
    /// Particles born so far.
    pub born_particles: nat,
}

/// State of a fountain between two frames.
#[derive(Clone, Copy, Debug, PartialEq, Eq)]
pub struct Fountain {
    read_index: usize,
    write_index: usize,
    num_particles: usize,
    born_particles: usize,
}

impl View for Fountain {
    type V = FountainView;

    closed spec fn view(&self) -> FountainView {
        FountainView {
            read_index: self.read_index as nat,
            write_index: self.write_index as nat,
            num_particles: self.num_particles as nat,
            born_particles: self.born_particles as nat,
        }
    }
}

/// Number of particles born after a frame, given the number that the birth
/// rate would allow by then: no more than the buffers hold, and unchanged
/// once all are born.
pub open spec fn born_after(born: nat, num_particles: nat, allowed: nat) -> nat {
    if born < num_particles {
        if allowed < num_particles {
            allowed
        } else {
            num_particles
        }
    } else {
        born
    }
}

impl Fountain {
    /// The two copies have different roles, and no more particles are born
    /// than the buffers hold.
    pub open spec fn well_formed(&self) -> bool {
        &&& self@.read_index < COPIES
        &&& self@.write_index == 1 - self@.read_index
        &&& self@.born_particles <= self@.num_particles
    }

    /// A fountain over buffers of `buffer_len` numbers each, with no
    /// particle born yet.
    pub fn new(buffer_len: usize) -> (fountain: Fountain)
        ensures
            fountain@ == (FountainView {
                read_index: 0,
                write_index: 1,
                num_particles: buffer_len as nat / PARTICLE_COMPONENTS as nat,
                born_particles: 0,
            }),
            fountain.well_formed(),
    {
        Fountain {
            read_index: 0,
            write_index: 1,
            num_particles: buffer_len / PARTICLE_COMPONENTS,
            born_particles: 0,
        }
    }

    /// Particles that the buffers hold.
    pub fn num_particles(&self) -> (r: usize)
        ensures
            r == self@.num_particles,
    {
        self.num_particles
    }

    /// Particles born so far.
    pub fn born_particles(&self) -> (r: usize)
        ensures
            r == self@.born_particles,
    {
        self.born_particles
    }

    /// Plans one frame and moves on to the next. `allowed` is the number of
    /// particles that the birth rate lets live by the end of the frame. The
    /// frame handles the particles born before it; the copies trade places
    /// behind it.
    pub fn advance(&mut self, allowed: usize) -> (frame: Frame)
        requires
            old(self).well_formed(),
        ensures
            final(self).well_formed(),
            frame == (Frame {
                update_vao: old(self)@.read_index as usize,
                feedback_buffer: old(self)@.write_index as usize,
                draw_vao: (old(self)@.read_index + COPIES) as usize,
                count: old(self)@.born_particles as usize,
            }),
            final(self)@ == (FountainView {
                read_index: old(self)@.write_index,
                write_index: old(self)@.read_index,
                num_particles: old(self)@.num_particles,
                born_particles: born_after(
                    old(self)@.born_particles,
                    old(self)@.num_particles,
                    allowed as nat,
                ),
            }),
    {
        let frame = Frame {
            update_vao: self.read_index,
            feedback_buffer: self.write_index,
            draw_vao: self.read_index + COPIES,
            count: self.born_particles,
        };
        if self.born_particles < self.num_particles {
            self.born_particles = if allowed < self.num_particles {
                allowed
            } else {
                self.num_particles
            };
        }
        let read = self.read_index;
        self.read_index = self.write_index;
        self.write_index = read;
        frame
    }
}

} // verus!
