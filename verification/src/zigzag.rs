//! The walk over a symbol on which data bits are placed.
//!
//! It starts in the bottom right corner and flows in strips two modules
//! wide, up and down in turn. Inside a strip it alternates between the right
//! and the left module. It jumps over the vertical timing pattern as it
//! steps left from column 6, but it does not skip function patterns.
use vstd::prelude::*;

verus! {

/// The state of the walk.
#[derive(Debug, Clone, Copy, PartialEq, Eq, Structural)]
pub struct ZigZagIt {
    /// Width and height of the symbol.
    pub size: usize,
    /// Should we move horizontal next step?
    pub horizontal_next: bool,
    /// Are we moving upwards?
    pub upwards: bool,
    /// Column of the current module.
    pub x: usize,
    /// Row of the current module.
    pub y: usize,
    /// Valid? Used as a stop criteria.
    pub valid: bool,
}

impl ZigZagIt {
    /// While the walk is under way its module lies on the symbol, and a left
    /// module has its right neighbour on the symbol too.
    pub open spec fn wf(self) -> bool {
        self.valid ==> self.x < self.size && self.y < self.size && (!self.horizontal_next
            ==> self.x + 1 < self.size)
    }

    /// The walk at its start: on the bottom right module, heading up.
    pub open spec fn start(size: usize) -> ZigZagIt {
        ZigZagIt {
            size,
            horizontal_next: true,
            upwards: true,
            x: (size - 1) as usize,
            y: (size - 1) as usize,
            valid: true,
        }
    }

    /// The walk after a step to the left: one column, or two from column 6.
    /// From column 0 the walk ends.
    pub open spec fn moved_horizontally(self) -> ZigZagIt {
        if self.x == 0 {
            ZigZagIt { valid: false, horizontal_next: false, ..self }
        } else if self.x == 6 {
            ZigZagIt { x: (self.x - 2) as usize, horizontal_next: false, ..self }
        } else {
            ZigZagIt { x: (self.x - 1) as usize, horizontal_next: false, ..self }
        }
    }

    /// Whether the walk has reached the edge it is heading for.
    pub open spec fn at_edge(self) -> bool {
        (self.upwards && self.y == 0) || (!self.upwards && self.y == self.size - 1)
    }

    /// The walk after a step from a left module: at the edge it turns round
    /// and steps left, else it moves one row on and back to the right column.
    pub open spec fn moved_vertically(self) -> ZigZagIt {
        if self.at_edge() {
            ZigZagIt {
                horizontal_next: true,
                ..ZigZagIt { upwards: !self.upwards, ..self }.moved_horizontally()
            }
        } else if self.upwards {
            ZigZagIt {
                y: (self.y - 1) as usize,
                x: (self.x + 1) as usize,
                horizontal_next: true,
                ..self
            }
        } else {
            ZigZagIt {
                y: (self.y + 1) as usize,
                x: (self.x + 1) as usize,
                horizontal_next: true,
                ..self
            }
        }
    }

    /// The walk after one step. A walk that has ended stays as it is.
    pub open spec fn stepped(self) -> ZigZagIt {
        if !self.valid {
            self
        } else if self.horizontal_next {
            self.moved_horizontally()
        } else {
            self.moved_vertically()
        }
    }

    /// The walk after `k` steps from its start.
    pub open spec fn walk(size: usize, k: int) -> ZigZagIt
        decreases k,
    {
        if k <= 0 {
            ZigZagIt::start(size)
        } else {
            ZigZagIt::walk(size, k - 1).stepped()
        }
    }

    /// A bound on the steps that are left: it falls with every step.
    pub open spec fn steps_left(self) -> int {
        if !self.valid {
            0
        } else {
            let right = if self.horizontal_next {
                self.x as int
            } else {
                self.x + 1
            };
            let rows = if self.upwards {
                self.y as int
            } else {
                self.size - 1 - self.y
            };
            1 + right * (2 * self.size + 2) + 2 * rows + if self.horizontal_next {
                1int
            } else {
                0int
            }
        }
    }

    /// Starts a walk over a symbol of the given size.
    pub fn new(size: usize) -> (r: ZigZagIt)
        requires
            size >= 1,
        ensures
            r == ZigZagIt::start(size),
            r.wf(),
            r.valid,
    {
        ZigZagIt {
            size,
            horizontal_next: true,
            upwards: true,
            x: size - 1,
            y: size - 1,
            valid: true,
        }
    }

    /// Takes one step.
    pub fn advance(&mut self)
        requires
            old(self).wf(),
            old(self).valid,
        ensures
            *final(self) == old(self).stepped(),
            final(self).wf(),
            final(self).steps_left() < old(self).steps_left(),
    {
        if self.horizontal_next {
            self.move_horizontally();
        } else {
            self.move_vertically();
        }
    }

    /// Steps to the left.
    pub fn move_horizontally(&mut self)
        requires
            old(self).valid,
            old(self).x < old(self).size,
            old(self).y < old(self).size,
        ensures
            *final(self) == old(self).moved_horizontally(),
            final(self).wf(),
            old(self).horizontal_next ==> final(self).steps_left() < old(self).steps_left(),
    {
        if self.x == 0 {
            self.valid = false;
        } else if self.x == 6 {
            self.x = self.x - 2;
        } else {
            self.x = self.x - 1;
        }
        self.horizontal_next = false;
        proof {
            let a = old(self).x as int;
            let b = self.x as int;
            let w = 2 * self.size + 2;
            if self.valid {
                assert((b + 1) * w <= a * w) by (nonlinear_arith)
                    requires
                        b + 1 <= a,
                        w >= 0,
                ;
            }
            assert(0 <= a * w) by (nonlinear_arith)
                requires
                    0 <= a,
                    0 <= w,
            ;
        }
    }

    /// Steps from a left module.
    pub fn move_vertically(&mut self)
        requires
            old(self).wf(),
            old(self).valid,
            !old(self).horizontal_next,
        ensures
            *final(self) == old(self).moved_vertically(),
            final(self).wf(),
            final(self).steps_left() < old(self).steps_left(),
    {
        if (self.upwards && self.y == 0) || (!self.upwards && self.y == self.size - 1) {
            // When we've reached the edge move in the other direction instead of zagging.
            self.upwards = !self.upwards;
            self.move_horizontally();
            proof {
                let a = old(self).x as int;
                let b = self.x as int;
                let w = 2 * self.size + 2;
                if self.valid {
                    assert(b * w + w <= a * w) by (nonlinear_arith)
                        requires
                            b + 1 <= a,
                            w >= 0,
                    ;
                }
                assert((a + 1) * w == a * w + w) by (nonlinear_arith);
                assert(0 <= a * w) by (nonlinear_arith)
                    requires
                        0 <= a,
                        0 <= w,
                ;
            }
        } else {
            // Zag motion, y is inverted
            if self.upwards {
                self.y = self.y - 1;
            } else {
                self.y = self.y + 1;
            }
            self.x = self.x + 1;
        }
        self.horizontal_next = true;
    }

    /// The module the walk is on, after which it takes a step; `None` once the
    /// walk has ended.
    pub fn next(&mut self) -> (r: Option<(usize, usize)>)
        requires
            old(self).wf(),
        ensures
            final(self).wf(),
            *final(self) == old(self).stepped(),
            r == if old(self).valid {
                Some((old(self).x, old(self).y))
            } else {
                None
            },
            old(self).valid ==> final(self).steps_left() < old(self).steps_left(),
    {
        if !self.valid {
            return None;
        }
        let res = Some((self.x, self.y));
        self.advance();
        res
    }
}

} // verus!
