use vstd::prelude::*;

verus! {

/// A text label placed at a world position of type `P`.
pub struct Text<P> {
    id: String,
    pos: P,
    val: String,
}

impl<P: Copy> Text<P> {
    pub closed spec fn spec_id(&self) -> Seq<char> {
        self.id@
    }

    pub closed spec fn spec_position(&self) -> P {
        self.pos
    }

    pub closed spec fn spec_content(&self) -> Seq<char> {
        self.val@
    }

    pub fn new(id: String, pos: P, val: String) -> (r: Text<P>)
        ensures
            r.spec_id() == id@,
            r.spec_position() == pos,
            r.spec_content() == val@,
    {
        Text { id, pos, val }
    }

    pub fn id(&self) -> (r: &str)
        ensures
            r@ == self.spec_id(),
    {
        self.id.as_str()
    }

    pub fn position(&self) -> (r: P)
        ensures
            r == self.spec_position(),
    {
        self.pos
    }

    pub fn content(&self) -> (r: &str)
        ensures
            r@ == self.spec_content(),
    {
        self.val.as_str()
    }
}

/// The kinds of thing that stand on the stage.
pub enum Entity<P> {
    Text(Text<P>),
}

impl<P: Copy> Entity<P> {
    pub open spec fn spec_id(&self) -> Seq<char> {
        match self {
            Entity::Text(t) => t.spec_id(),
        }
    }

    pub open spec fn spec_position(&self) -> P {
        match self {
            Entity::Text(t) => t.spec_position(),
        }
    }

    pub fn id(&self) -> (r: &str)
        ensures
            r@ == self.spec_id(),
    {
        match self {
            Entity::Text(t) => t.id(),
        }
    }

    /// Whether `self` and `other` have the same identifier.
    pub fn same_id(&self, other: &Entity<P>) -> (r: bool)
        ensures
            r == (self.spec_id() == other.spec_id()),
    {
        match (self, other) {
            (Entity::Text(a), Entity::Text(b)) => a.id == b.id,
        }
    }

    pub fn position(&self) -> (r: P)
        ensures
            r == self.spec_position(),
    {
        match self {
            Entity::Text(t) => t.position(),
        }
    }
}

impl<P: Copy> From<Text<P>> for Entity<P> {
    fn from(t: Text<P>) -> (r: Entity<P>)
        ensures
            r == Entity::Text(t),
    {
        Entity::Text(t)
    }
}

impl<P: Copy> vstd::std_specs::convert::FromSpecImpl<Text<P>> for Entity<P> {
    open spec fn obeys_from_spec() -> bool {
        true
    }

    open spec fn from_spec(t: Text<P>) -> Entity<P> {
        Entity::Text(t)
    }
}

/// A connection between entities, named by their identifiers.
pub struct LineEdge {
    pub id: String,
    pub elements: Vec<String>,
}

impl LineEdge {
    pub fn id(&self) -> (r: &str)
        ensures
            r@ == self.id@,
    {
        self.id.as_str()
    }
}

} // verus!
