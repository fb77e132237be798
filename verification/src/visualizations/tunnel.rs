//! Ring shapes of the tunnel visualization.
use vstd::prelude::*;

verus! {

/// The outline drawn for each tunnel ring.
#[derive(Clone, Copy, Debug, PartialEq, Eq, Structural)]
pub enum TunnelShape {
    Circle,
    Hexagon,
    Square,
}

impl TunnelShape {
    /// The shape's name.
    pub open spec fn spec_name(self) -> Seq<char> {
        match self {
            TunnelShape::Circle => "circle"@,
            TunnelShape::Hexagon => "hexagon"@,
            TunnelShape::Square => "square"@,
        }
    }

    /// The shape that follows: circle, hexagon, square, and round.
    pub open spec fn spec_next(self) -> TunnelShape {
        match self {
            TunnelShape::Circle => TunnelShape::Hexagon,
            TunnelShape::Hexagon => TunnelShape::Square,
            TunnelShape::Square => TunnelShape::Circle,
        }
    }

    /// The shape that follows in the cycle.
    pub fn next(self) -> (s: TunnelShape)
        ensures
            s == self.spec_next(),
    {
        match self {
            TunnelShape::Circle => TunnelShape::Hexagon,
            TunnelShape::Hexagon => TunnelShape::Square,
            TunnelShape::Square => TunnelShape::Circle,
        }
    }

    /// The shape's name.
    pub fn name(self) -> (s: &'static str)
        ensures
            s@ == self.spec_name(),
    {
        match self {
            TunnelShape::Circle => "circle",
            TunnelShape::Hexagon => "hexagon",
            TunnelShape::Square => "square",
        }
    }
}

/// Three steps of the shape cycle come back to the starting shape.
pub proof fn lemma_tunnel_shape_cycle(s: TunnelShape)
    ensures
        s.spec_next().spec_next().spec_next() == s,
        s.spec_next() != s,
{
}


/// The shapes are named `circle`, `hexagon` and `square`, and cycle in that
/// order, the square coming back to the circle.
pub proof fn lemma_tunnel_shape_table()
    ensures
        TunnelShape::Circle.spec_name() == "circle"@,
        TunnelShape::Hexagon.spec_name() == "hexagon"@,
        TunnelShape::Square.spec_name() == "square"@,
        TunnelShape::Circle.spec_next() == TunnelShape::Hexagon,
        TunnelShape::Hexagon.spec_next() == TunnelShape::Square,
        TunnelShape::Square.spec_next() == TunnelShape::Circle,
{
}

} // verus!
