use vstd::prelude::*;

verus! {

/// A store of entities addressed by their position.
pub trait Repository<Entity: Clone> {
    /// The entities held, in order.
    spec fn elements_view(&self) -> Seq<Entity>;

    /// Appends an entity.
    fn create(&mut self, entity: Entity)
        ensures
            final(self).elements_view() == old(self).elements_view().push(entity),
    ;

    /// A copy of the entity at `index`.
    fn get(&self, index: usize) -> (r: Entity)
        requires
            index < self.elements_view().len(),
        ensures
            cloned::<Entity>(self.elements_view()[index as int], r),
    ;

    /// A copy of every entity, in order.
    fn list(&self) -> (r: Vec<Entity>)
        ensures
            r@.len() == self.elements_view().len(),
            forall|i: int|
                0 <= i < r@.len() ==> cloned::<Entity>(self.elements_view()[i], #[trigger] r@[i]),
    ;

    /// Replaces the entity at `index`.
    fn update(&mut self, index: usize, entity: Entity)
        requires
            index < old(self).elements_view().len(),
        ensures
            final(self).elements_view() == old(self).elements_view().update(index as int, entity),
    ;

    /// Removes the entity at `index`; later entities move up by one.
    fn delete(&mut self, index: usize)
        requires
            index < old(self).elements_view().len(),
        ensures
            final(self).elements_view() == old(self).elements_view().remove(index as int),
    ;
}

/// Access to the repository that a value holds.
pub trait HaveRepository<Entity: Clone> {
    type REPO: Repository<Entity>;

    fn repository(&self) -> &Self::REPO;

    fn repository_mut(&mut self) -> &Self::REPO;
}

/// A value that keeps entities in a vector; every such value is a
/// `Repository` over that vector.
pub trait HaveRepositoryImpl<Entity> {
    /// The vector of entities held.
    spec fn elements_spec(&self) -> Seq<Entity>;

    fn elements(&self) -> (r: &Vec<Entity>)
        ensures
            r@ == self.elements_spec(),
    ;

    fn elements_mut(&mut self) -> (r: &mut Vec<Entity>)
        ensures
            r@ == old(self).elements_spec(),
            final(self).elements_spec() == final(r)@,
    ;
}

impl<Entity: Clone, R: HaveRepositoryImpl<Entity>> Repository<Entity> for R {
    open spec fn elements_view(&self) -> Seq<Entity> {
        self.elements_spec()
    }

    fn create(&mut self, entity: Entity) {
        self.elements_mut().push(entity);
    }

    fn get(&self, index: usize) -> (r: Entity) {
        self.elements()[index].clone()
    }

    fn list(&self) -> (r: Vec<Entity>) {
        self.elements().clone()
    }

    fn update(&mut self, index: usize, entity: Entity) {
        self.elements_mut().set(index, entity);
    }

    fn delete(&mut self, index: usize) {
        self.elements_mut().remove(index);
    }
}

} // verus!
