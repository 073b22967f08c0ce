use vstd::prelude::*;
use crate::geometry::{Coordinates, Point};

verus! {

/// One call on a drawing surface, as contracts speak of it.
pub enum Op {
    MoveTo(Point),
    BeginPath,
    LineTo(Point),
    ClosePath,
    Stroke,
    Fill,
}

/// One call on a drawing surface.
#[derive(Clone, Copy, Debug, PartialEq, Eq, Structural)]
pub enum Command {
    MoveTo(Coordinates),
    BeginPath,
    LineTo(Coordinates),
    ClosePath,
    Stroke,
    Fill,
}

impl View for Command {
    type V = Op;

    open spec fn view(&self) -> Op {
        match *self {
            Command::MoveTo(p) => Op::MoveTo(p@),
            Command::BeginPath => Op::BeginPath,
            Command::LineTo(p) => Op::LineTo(p@),
            Command::ClosePath => Op::ClosePath,
            Command::Stroke => Op::Stroke,
            Command::Fill => Op::Fill,
        }
    }
}

/// What a run of commands says, one by one.
pub open spec fn ops_of(commands: Seq<Command>) -> Seq<Op> {
    commands.map_values(|c: Command| c@)
}

/// A drawing surface that keeps the calls made on it, in the order in which
/// they were made.
pub struct Surface {
    commands: Vec<Command>,
}

impl View for Surface {
    type V = Seq<Op>;

    closed spec fn view(&self) -> Seq<Op> {
        ops_of(self.commands@)
    }
}

impl Surface {
    /// A surface on which nothing was drawn yet.
    pub fn new() -> (r: Surface)
        ensures
            r@ == Seq::<Op>::empty(),
    {
        let r = Surface { commands: Vec::new() };
        assert(r@ =~= Seq::<Op>::empty());
        r
    }

    fn record(&mut self, command: Command)
        ensures
            final(self)@ == old(self)@.push(command@),
    {
        self.commands.push(command);
        assert(self@ =~= old(self)@.push(command@));
    }

    pub fn move_to(&mut self, x: i64, y: i64)
        ensures
            final(self)@ == old(self)@.push(Op::MoveTo(Point { x: x as int, y: y as int })),
    {
        self.record(Command::MoveTo(Coordinates { x, y }));
    }

    pub fn begin_path(&mut self)
        ensures
            final(self)@ == old(self)@.push(Op::BeginPath),
    {
        self.record(Command::BeginPath);
    }

    pub fn line_to(&mut self, x: i64, y: i64)
        ensures
            final(self)@ == old(self)@.push(Op::LineTo(Point { x: x as int, y: y as int })),
    {
        self.record(Command::LineTo(Coordinates { x, y }));
    }

    pub fn close_path(&mut self)
        ensures
            final(self)@ == old(self)@.push(Op::ClosePath),
    {
        self.record(Command::ClosePath);
    }

    pub fn stroke(&mut self)
        ensures
            final(self)@ == old(self)@.push(Op::Stroke),
    {
        self.record(Command::Stroke);
    }

    pub fn fill(&mut self)
        ensures
            final(self)@ == old(self)@.push(Op::Fill),
    {
        self.record(Command::Fill);
    }

    /// The calls made so far, oldest first.
    pub fn commands(&self) -> (r: &Vec<Command>)
        ensures
            ops_of(r@) == self@,
    {
        &self.commands
    }
}

} // verus!
