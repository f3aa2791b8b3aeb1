//! Animation states: a phase paired with the direction the sprite faces.

use vstd::prelude::*;

verus! {

/// Number of distinct animation states (five phases, three orientations).
pub const STATE_COUNT: usize = 15;

/// The direction a sprite faces.
#[derive(Debug, Eq, PartialEq, Structural, Hash, Copy, Clone)]
pub enum AnimOrientation {
    Up,
    Down,
    Side,
}

/// An animation phase together with its orientation.
#[derive(Debug, Eq, PartialEq, Structural, Hash, Copy, Clone)]
pub enum AnimState {
    Idle(AnimOrientation),
    Move(AnimOrientation),
    Attack(AnimOrientation),
    Hit(AnimOrientation),
    Die(AnimOrientation),
}

impl AnimOrientation {
    pub open spec fn spec_code(self) -> nat {
        match self {
            AnimOrientation::Up => 0,
            AnimOrientation::Down => 1,
            AnimOrientation::Side => 2,
        }
    }

    pub open spec fn spec_from_code(c: nat) -> AnimOrientation {
        if c == 0 {
            AnimOrientation::Up
        } else if c == 1 {
            AnimOrientation::Down
        } else {
            AnimOrientation::Side
        }
    }
}

impl AnimState {
    /// The orientation carried by the state.
    pub open spec fn orientation(self) -> AnimOrientation {
        match self {
            AnimState::Idle(o) => o,
            AnimState::Move(o) => o,
            AnimState::Attack(o) => o,
            AnimState::Hit(o) => o,
            AnimState::Die(o) => o,
        }
    }

    pub open spec fn phase_code(self) -> nat {
        match self {
            AnimState::Idle(_) => 0,
            AnimState::Move(_) => 1,
            AnimState::Attack(_) => 2,
            AnimState::Hit(_) => 3,
            AnimState::Die(_) => 4,
        }
    }

    /// A dense numbering of the states, `0 .. STATE_COUNT`.
    pub open spec fn spec_code(self) -> nat {
        self.phase_code() * 3 + self.orientation().spec_code()
    }

    pub open spec fn spec_from_code(c: nat) -> AnimState {
        let o = AnimOrientation::spec_from_code(c % 3);
        let p = c / 3;
        if p == 0 {
            AnimState::Idle(o)
        } else if p == 1 {
            AnimState::Move(o)
        } else if p == 2 {
            AnimState::Attack(o)
        } else if p == 3 {
            AnimState::Hit(o)
        } else {
            AnimState::Die(o)
        }
    }

    pub fn code(&self) -> (r: usize)
        ensures
            r == self.spec_code(),
            r < STATE_COUNT,
    {
        let o: usize = match self.orientation_of() {
            AnimOrientation::Up => 0,
            AnimOrientation::Down => 1,
            AnimOrientation::Side => 2,
        };
        let p: usize = match self {
            AnimState::Idle(_) => 0,
            AnimState::Move(_) => 1,
            AnimState::Attack(_) => 2,
            AnimState::Hit(_) => 3,
            AnimState::Die(_) => 4,
        };
        p * 3 + o
    }

    pub fn from_code(c: usize) -> (r: AnimState)
        requires
            c < STATE_COUNT,
        ensures
            r == Self::spec_from_code(c as nat),
            r.spec_code() == c,
    {
        let o = match c % 3 {
            0 => AnimOrientation::Up,
            1 => AnimOrientation::Down,
            _ => AnimOrientation::Side,
        };
        let p: usize = c / 3;
        if p == 0 {
            AnimState::Idle(o)
        } else if p == 1 {
            AnimState::Move(o)
        } else if p == 2 {
            AnimState::Attack(o)
        } else if p == 3 {
            AnimState::Hit(o)
        } else {
            AnimState::Die(o)
        }
    }

    /// The orientation carried by the state.
    pub fn orientation_of(&self) -> (r: AnimOrientation)
        ensures
            r == self.orientation(),
    {
        match *self {
            AnimState::Idle(o) => o,
            AnimState::Move(o) => o,
            AnimState::Attack(o) => o,
            AnimState::Hit(o) => o,
            AnimState::Die(o) => o,
        }
    }
}

/// Decoding a state's code gives the state back.
pub proof fn lemma_code_inverse(s: AnimState)
    ensures
        s.spec_code() < STATE_COUNT,
        AnimState::spec_from_code(s.spec_code()) == s,
{
}

/// Two states with the same code are the same state.
pub proof fn lemma_code_injective(s: AnimState, t: AnimState)
    ensures
        s.spec_code() == t.spec_code() <==> s == t,
{
    lemma_code_inverse(s);
    lemma_code_inverse(t);
}

impl Default for AnimOrientation {
    fn default() -> (r: AnimOrientation)
        ensures
            r == AnimOrientation::Down,
    {
        AnimOrientation::Down
    }
}

impl Default for AnimState {
    fn default() -> (r: AnimState)
        ensures
            r == AnimState::Idle(AnimOrientation::Down),
    {
        AnimState::Idle(AnimOrientation::default())
    }
}

} // verus!
