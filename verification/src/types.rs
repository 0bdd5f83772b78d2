use vstd::prelude::*;

verus! {

/// A (row, column) source position, ordered lexicographically.
#[derive(Clone, Copy, PartialEq, Eq, Structural, Debug)]
pub struct Point {
    pub row: usize,
    pub column: usize,
}

impl Default for Point {
    /// The zero position: row 0, column 0.
    fn default() -> (r: Point)
        ensures
            r == (Point { row: 0, column: 0 }),
    {
        Point { row: 0, column: 0 }
    }
}

/// `a` comes no later than `b` in the source: lexicographic order on
/// (row, column).
pub open spec fn spec_pos_le(a: Point, b: Point) -> bool {
    a.row < b.row || (a.row == b.row && a.column <= b.column)
}

/// Lexicographic comparison of two source positions.
pub fn pos_le(a: Point, b: Point) -> (r: bool)
    ensures
        r == spec_pos_le(a, b),
{
    a.row < b.row || (a.row == b.row && a.column <= b.column)
}

/// Element-wise view of an optional value.
pub open spec fn option_view<T: View>(o: Option<T>) -> Option<T::V> {
    match o {
        Some(x) => Some(x@),
        None => None,
    }
}

/// A named or anonymous source range. A `None` name marks an anonymous
/// range, such as the span of a block or of an if statement.
#[derive(Debug)]
pub struct Identifier {
    pub start: Point,
    pub end: Point,
    pub identifier: Option<String>,
}

/// The mathematical value of an `Identifier`: the same range, with the name
/// as a character sequence.
pub struct IdentifierV {
    pub start: Point,
    pub end: Point,
    pub name: Option<Seq<char>>,
}

impl View for Identifier {
    type V = IdentifierV;

    open spec fn view(&self) -> IdentifierV {
        IdentifierV {
            start: self.start,
            end: self.end,
            name: match self.identifier {
                Some(s) => Some(s@),
                None => None,
            },
        }
    }
}

impl Clone for Identifier {
    fn clone(&self) -> (r: Self)
        ensures
            r == *self,
    {
        Identifier {
            start: self.start,
            end: self.end,
            identifier: match &self.identifier {
                Some(s) => Some(s.clone()),
                None => None,
            },
        }
    }
}

/// The identifier's name is present and equals `name`.
pub open spec fn spec_matches(id: IdentifierV, name: Seq<char>) -> bool {
    match id.name {
        Some(s) => s == name,
        None => false,
    }
}

/// The range `[id.start, id.end]` contains the position `pos`.
pub open spec fn spec_in_pos(id: IdentifierV, pos: Point) -> bool {
    spec_pos_le(id.start, pos) && spec_pos_le(pos, id.end)
}

impl Identifier {
    /// The position lies within this identifier's source range (both ends
    /// inclusive).
    pub fn in_pos(&self, pos: Point) -> (r: bool)
        ensures
            r == spec_in_pos(self@, pos),
    {
        pos_le(self.start, pos) && pos_le(pos, self.end)
    }

    /// The identifier carries a name and it equals `name`.
    pub fn matches(&self, name: &str) -> (r: bool)
        ensures
            r == spec_matches(self@, name@),
    {
        match &self.identifier {
            Some(s) => *s == name.to_owned(),
            None => false,
        }
    }
}

/// An argument of a call site that the resolver understands. Only string
/// literals matter to resolution; every other argument kind is dropped
/// during extraction.
#[derive(Debug)]
pub enum Argument {
    StringLiteral(Identifier),
}

/// The mathematical value of an `Argument`.
pub enum ArgumentV {
    StringLiteral(IdentifierV),
}

impl View for Argument {
    type V = ArgumentV;

    open spec fn view(&self) -> ArgumentV {
        match self {
            Argument::StringLiteral(id) => ArgumentV::StringLiteral(id@),
        }
    }
}

impl Clone for Argument {
    fn clone(&self) -> (r: Self)
        ensures
            r == *self,
    {
        match self {
            Argument::StringLiteral(id) => Argument::StringLiteral(id.clone()),
        }
    }
}

/// The literal text carried by the argument, when it has one.
pub open spec fn spec_argument_name(a: ArgumentV) -> Option<Seq<char>> {
    match a {
        ArgumentV::StringLiteral(id) => id.name,
    }
}

impl Argument {
    /// The literal text carried by the argument, when it has one.
    pub fn to_string(&self) -> (r: Option<String>)
        ensures
            match r {
                Some(s) => spec_argument_name(self@) == Some(s@),
                None => spec_argument_name(self@) is None,
            },
    {
        match self {
            Argument::StringLiteral(id) => match &id.identifier {
                Some(s) => Some(s.clone()),
                None => None,
            },
        }
    }
}

/// A fully qualified resolution query: the file it was raised in, the name
/// under the cursor, and the cursor position.
#[derive(Debug)]
pub struct SearchParameter {
    pub origin: String,
    pub name: String,
    pub pos: Point,
}

/// The mathematical value of a `SearchParameter`.
pub struct SearchParameterV {
    pub origin: Seq<char>,
    pub name: Seq<char>,
    pub pos: Point,
}

impl View for SearchParameter {
    type V = SearchParameterV;

    open spec fn view(&self) -> SearchParameterV {
        SearchParameterV { origin: self.origin@, name: self.name@, pos: self.pos }
    }
}

impl Clone for SearchParameter {
    fn clone(&self) -> (r: Self)
        ensures
            r == *self,
    {
        SearchParameter {
            origin: self.origin.clone(),
            name: self.name.clone(),
            pos: self.pos,
        }
    }
}

} // verus!
