//! The route table of a routing handler.

use vstd::prelude::*;

verus! {

/// An ordered table of routes. What a route is, and which request it
/// matches, is the application's matter; the table keeps the routes in the
/// order in which they were added.
pub struct Router<T> {
    routes: Vec<T>,
}

impl<T> View for Router<T> {
    type V = Seq<T>;

    closed spec fn view(&self) -> Seq<T> {
        self.routes@
    }
}

impl<T> Router<T> {
    /// A table without routes.
    pub fn new() -> (router: Router<T>)
        ensures
            router@ == Seq::<T>::empty(),
    {
        Router { routes: Vec::new() }
    }

    /// Adds `route` after the routes that the table has.
    pub fn route(&mut self, route: T)
        ensures
            final(self)@ == old(self)@.push(route),
    {
        self.routes.push(route);
    }

    /// Adds `route` to the table that `access` gives access to, and says
    /// whether it did: with no access, no table changes.
    pub fn route_through(access: Option<&mut Router<T>>, route: T) -> (added: bool)
        ensures
            match access {
                Some(router) => added && final(router)@ == router@.push(route),
                None => !added,
            },
    {
        match access {
            Some(router) => {
                router.route(route);
                true
            },
            None => false,
        }
    }

    /// The number of routes.
    pub fn len(&self) -> (n: usize)
        ensures
            n == self@.len(),
    {
        self.routes.len()
    }

    /// The route at position `i`, counted from the first that was added.
    pub fn get(&self, i: usize) -> (route: Option<&T>)
        ensures
            match route {
                Some(found) => i < self@.len() && *found == self@[i as int],
                None => i >= self@.len(),
            },
    {
        if i < self.routes.len() {
            Some(&self.routes[i])
        } else {
            None
        }
    }
}

} // verus!
