//! The entry point: a handler, a number of workers, and the start of a pool.

use crate::address::{resolution, ResolvedAddresses, SocketAddress};
use crate::error::{ListenError, OsError};
use crate::pool::{Pool, PoolView};
use crate::router::Router;
use crate::service::Service;
use std::sync::Arc;
use vstd::prelude::*;

verus! {

/// The number of logical processors that this process may use, from
/// `num_cpus::get`. That crate documents that the number is never less than
/// one, and no more than that is claimed here: the number depends on the
/// machine and on the limits set for the process.
#[verifier::external_body]
fn available_processors() -> (n: usize)
    ensures
        n >= 1,
{
    num_cpus::get()
}

/// Exclusive access to what `shared` points to, from `Arc::get_mut`: granted
/// where no other handle on it exists, and refused, with nothing changed,
/// where one does. What is written through the access is what `shared`
/// points to afterwards.
#[verifier::external_body]
fn exclusive<T>(shared: &mut Arc<T>) -> (access: Option<&mut T>)
    ensures
        match access {
            Some(inner) => *inner == **old(shared) && **final(shared) == *final(inner),
            None => *final(shared) == *old(shared),
        },
{
    Arc::get_mut(shared)
}

/// A server in the making: the handler that will answer requests, and the
/// number of workers that will serve them.
pub struct Shio<H> {
    handler: Arc<H>,
    threads: usize,
}

impl<H> Shio<H> {
    /// The handler, which all workers share.
    pub closed spec fn shared(&self) -> Arc<H> {
        self.handler
    }

    /// The number of workers that a pool of this server has.
    pub closed spec fn workers(&self) -> usize {
        self.threads
    }

    /// A server for `handler` with one worker for each logical processor
    /// that this process may use, and so with at least one.
    pub fn new(handler: H) -> (shio: Shio<H>)
        ensures
            *shio.shared() == handler,
            shio.workers() >= 1,
    {
        Shio::with_threads(handler, available_processors())
    }

    /// A server for `handler` with `threads` workers.
    pub fn with_threads(handler: H, threads: usize) -> (shio: Shio<H>)
        ensures
            *shio.shared() == handler,
            shio.workers() == threads,
    {
        Shio { handler: Arc::new(handler), threads }
    }

    /// Sets the number of workers.
    pub fn threads(&mut self, threads: usize)
        ensures
            final(self).workers() == threads,
            final(self).shared() == old(self).shared(),
    {
        self.threads = threads;
    }

    /// The number of workers.
    pub fn thread_count(&self) -> (threads: usize)
        ensures
            threads == self.workers(),
    {
        self.threads
    }

    /// The handler.
    pub fn handler(&self) -> (handler: &H)
        ensures
            *handler == *self.shared(),
    {
        &*self.handler
    }

    /// A connection adapter on the handler.
    pub fn service(&self) -> (service: Service<H>)
        ensures
            service.shared() == self.shared(),
    {
        Service::new(self.handler.clone())
    }

    /// Starts a run on what the resolver returned for the address
    /// specification. Where it found no address there is no pool, and so no
    /// worker and no socket, but the resolution error. Else the pool has the
    /// addresses found, each once, and as many workers as this server is set
    /// to; none of them has been waited for, and all share this server's
    /// handler. `port_reuse` says whether the platform lets the workers'
    /// sockets share an address.
    pub fn run(&self, resolved: Result<Vec<SocketAddress>, OsError>, port_reuse: bool) -> (started:
        Result<Pool<H>, ListenError>)
        ensures
            match resolution(resolved) {
                Ok(addrs) => {
                    &&& started is Ok
                    &&& started.unwrap()@ == PoolView::fresh(addrs, port_reuse, self.workers())
                    &&& started.unwrap()@.inv()
                    &&& started.unwrap().adapter().shared() == self.shared()
                },
                Err(error) => started == Err::<Pool<H>, ListenError>(error),
            },
    {
        match ResolvedAddresses::from_resolved(resolved) {
            Ok(addrs) => Ok(Pool::new(self.service(), addrs, port_reuse, self.threads)),
            Err(error) => Err(error),
        }
    }
}

impl<T> Shio<Router<T>> {
    /// Adds a route to the router, where this server holds the only handle on
    /// it; a router that is shared, as with workers that still run, stays as
    /// it is. Which of the two holds is for `Arc::get_mut` to say; what is
    /// done with its answer is [`Router::route_through`]. Either way the
    /// number of workers is unchanged.
    pub fn route<R: Into<T>>(&mut self, route: R) -> (shio: &mut Self)
        ensures
            *final(self) == *final(shio),
            shio.workers() == old(self).workers(),
            shio.shared()@ == old(self).shared()@ || exists|added: T|
                call_ensures(R::into, (route,), added) && shio.shared()@ == old(
                    self,
                ).shared()@.push(added),
    {
        let added: T = route.into();
        Router::route_through(exclusive(&mut self.handler), added);
        self
    }
}

impl<T> Default for Shio<Router<T>> {
    /// A server for a router without routes, with one worker for each
    /// logical processor.
    fn default() -> (shio: Shio<Router<T>>)
        ensures
            shio.shared()@ == Seq::<T>::empty(),
            shio.workers() >= 1,
    {
        Shio::new(Router::new())
    }
}

} // verus!
