use crate::entity::Entity;
use vstd::prelude::*;

verus! {

/// Some entity of `es` has identifier `id`.
pub open spec fn contains_id<P: Copy>(es: Seq<Entity<P>>, id: Seq<char>) -> bool {
    exists|i: int| 0 <= i < es.len() && (#[trigger] es[i]).spec_id() == id
}

/// Where in `es` the entity with identifier `id` stands.
pub open spec fn index_of_id<P: Copy>(es: Seq<Entity<P>>, id: Seq<char>) -> int {
    choose|i: int| 0 <= i < es.len() && (#[trigger] es[i]).spec_id() == id
}

/// No identifier occurs twice in `es`.
pub open spec fn ids_distinct<P: Copy>(es: Seq<Entity<P>>) -> bool {
    forall|i: int, j: int|
        0 <= i < es.len() && 0 <= j < es.len() && i != j ==> (#[trigger] es[i]).spec_id()
            != (#[trigger] es[j]).spec_id()
}

/// `es` after inserting `e`: an entity with the same identifier is replaced in
/// place, otherwise `e` is added.
pub open spec fn inserted<P: Copy>(es: Seq<Entity<P>>, e: Entity<P>) -> Seq<Entity<P>> {
    if contains_id(es, e.spec_id()) {
        es.update(index_of_id(es, e.spec_id()), e)
    } else {
        es.push(e)
    }
}

/// `es` after inserting each entity of `new` in turn, first to last.
pub open spec fn inserted_all<P: Copy>(es: Seq<Entity<P>>, new: Seq<Entity<P>>) -> Seq<Entity<P>>
    decreases new.len(),
{
    if new.len() == 0 {
        es
    } else {
        inserted_all(inserted(es, new[0]), new.drop_first())
    }
}

/// The entity store: owns every entity on the stage, each under its own identifier.
pub struct StageContext<P> {
    entities: Vec<Entity<P>>,
}

impl<P: Copy> View for StageContext<P> {
    type V = Seq<Entity<P>>;

    /// The entities, each once.
    closed spec fn view(&self) -> Seq<Entity<P>> {
        self.entities@
    }
}

impl<P: Copy> StageContext<P> {
    pub open spec fn wf(&self) -> bool {
        ids_distinct(self@)
    }

    pub fn new() -> (r: StageContext<P>)
        ensures
            r.wf(),
            r@ == Seq::<Entity<P>>::empty(),
    {
        StageContext { entities: Vec::new() }
    }

    /// Adds `entity` under its own identifier, replacing an entity that already has it.
    pub fn insert(&mut self, entity: Entity<P>)
        requires
            old(self).wf(),
        ensures
            final(self).wf(),
            final(self)@ == inserted(old(self)@, entity),
    {
        let n = self.entities.len();
        let mut i: usize = 0;
        while i < n
            invariant
                n == self.entities@.len(),
                0 <= i <= n,
                ids_distinct(self.entities@),
                self.entities@ == old(self).entities@,
                forall|j: int| 0 <= j < i ==> (#[trigger] self.entities@[j]).spec_id()
                    != entity.spec_id(),
            decreases n - i,
        {
            if self.entities[i].same_id(&entity) {
                proof {
                    let es = self.entities@;
                    assert(contains_id(es, entity.spec_id()));
                    let k = index_of_id(es, entity.spec_id());
                    if k != i as int {
                        assert(es[k].spec_id() != es[i as int].spec_id());
                    }
                    assert(k == i as int);
                    lemma_inserted_keeps_distinct(es, entity);
                }
                self.entities.set(i, entity);
                return;
            }
            i += 1;
        }
        proof {
            assert(!contains_id(self.entities@, entity.spec_id()));
            lemma_inserted_keeps_distinct(self.entities@, entity);
        }
        self.entities.push(entity);
    }

    /// Every entity, each once.
    pub fn entities(&self) -> (r: &Vec<Entity<P>>)
        ensures
            r@ == self@,
    {
        &self.entities
    }
}

proof fn lemma_inserted_keeps_distinct<P: Copy>(es: Seq<Entity<P>>, e: Entity<P>)
    requires
        ids_distinct(es),
    ensures
        ids_distinct(inserted(es, e)),
{
    let r = inserted(es, e);
    if contains_id(es, e.spec_id()) {
        let k = index_of_id(es, e.spec_id());
        assert forall|i: int, j: int| 0 <= i < r.len() && 0 <= j < r.len() && i != j implies
            (#[trigger] r[i]).spec_id() != (#[trigger] r[j]).spec_id() by {
            if i == k {
                assert(es[j].spec_id() != es[k].spec_id());
            } else if j == k {
                assert(es[i].spec_id() != es[k].spec_id());
            }
        }
    } else {
        assert forall|i: int, j: int| 0 <= i < r.len() && 0 <= j < r.len() && i != j implies
            (#[trigger] r[i]).spec_id() != (#[trigger] r[j]).spec_id() by {
            if i == es.len() {
                assert(es[j] == r[j]);
            } else if j == es.len() {
                assert(es[i] == r[i]);
            }
        }
    }
}

/// Inserting an entity whose identifier is already present replaces the earlier
/// one: afterwards the identifiers stay distinct, the new entity is the only one
/// with that identifier, the number of entities is unchanged, and every entity
/// with another identifier stays.
pub proof fn lemma_insert_replaces_same_id<P: Copy>(es: Seq<Entity<P>>, e: Entity<P>)
    requires
        ids_distinct(es),
        contains_id(es, e.spec_id()),
    ensures
        ids_distinct(inserted(es, e)),
        inserted(es, e).len() == es.len(),
        inserted(es, e).contains(e),
        forall|i: int|
            0 <= i < es.len() && (#[trigger] inserted(es, e)[i]).spec_id() == e.spec_id()
                ==> inserted(es, e)[i] == e,
        forall|i: int|
            0 <= i < es.len() && (#[trigger] es[i]).spec_id() != e.spec_id()
                ==> inserted(es, e)[i] == es[i],
{
    lemma_inserted_keeps_distinct(es, e);
    let r = inserted(es, e);
    let k = index_of_id(es, e.spec_id());
    assert(r[k] == e);
}

/// Of two entities inserted one after the other under the same identifier, only
/// the second stays: it is the one entity with that identifier, and the store
/// grows by at most one.
pub proof fn lemma_insert_twice_keeps_last<P: Copy>(es: Seq<Entity<P>>, a: Entity<P>, b: Entity<P>)
    requires
        ids_distinct(es),
        a.spec_id() == b.spec_id(),
    ensures
        ids_distinct(inserted(inserted(es, a), b)),
        inserted(inserted(es, a), b).contains(b),
        forall|i: int|
            0 <= i < inserted(inserted(es, a), b).len() && (#[trigger] inserted(inserted(es, a), b)[i]).spec_id()
                == b.spec_id() ==> inserted(inserted(es, a), b)[i] == b,
        inserted(inserted(es, a), b).len() == if contains_id(es, a.spec_id()) {
            es.len()
        } else {
            es.len() + 1
        },
{
    let mid = inserted(es, a);
    lemma_inserted_keeps_distinct(es, a);
    if contains_id(es, a.spec_id()) {
        let k = index_of_id(es, a.spec_id());
        assert(mid[k] == a);
    } else {
        assert(mid[es.len() as int] == a);
    }
    assert(contains_id(mid, b.spec_id()));
    lemma_insert_replaces_same_id(mid, b);
}

/// Inserting an entity with a new identifier adds it and keeps every other entity.
pub proof fn lemma_insert_adds_new_id<P: Copy>(es: Seq<Entity<P>>, e: Entity<P>)
    requires
        ids_distinct(es),
        !contains_id(es, e.spec_id()),
    ensures
        ids_distinct(inserted(es, e)),
        inserted(es, e) == es.push(e),
{
    lemma_inserted_keeps_distinct(es, e);
}

} // verus!
