//! Typed get/set requests over resources, with correlation identifiers.
//!
//! A resource exposes values through [`Get`] and [`Put`]. A request names one
//! of those operations and carries a correlation [`ID`]; answering it yields
//! a response with the same identifier and the outcome of the operation.

use std::marker::PhantomData;
use vstd::prelude::*;

verus! {

/// Reason a request could not be served.
#[derive(Debug, Clone)]
pub struct Error(pub String);

/// Correlation identifier, echoed from a request to its response.
#[derive(Clone, Copy, Debug, PartialEq, Eq, Structural)]
pub struct ID(pub u128);

/// A resource that exposes a value of type `U` for reading.
pub trait Get<T, U> {
    /// The answers `get` may give in the resource's current state.
    /// An implementation narrows this to what it really answers.
    open spec fn may_get(&self, result: Result<U, Error>) -> bool {
        true
    }

    fn get(&self) -> (result: Result<U, Error>)
        ensures
            self.may_get(result),
    ;
}

/// A resource that accepts a value of type `U`.
pub trait Put<T, U> {
    /// The outcomes `set` may have: for a state `self` and a candidate
    /// `target`, the states `after` it may leave behind and the `result` it
    /// reports with each. An implementation narrows this to what it does.
    open spec fn may_set(&self, target: &U, after: &Self, result: Result<(), Error>) -> bool {
        true
    }

    fn set(&mut self, target: &U) -> (result: Result<(), Error>)
        ensures
            old(self).may_set(target, final(self), result),
    ;
}

/// A request to read a `U` from a resource `T`, answered by an `R`.
pub trait GetRequest<T, U, R> where T: Get<T, U>, R: GetResponse<T, U> {
    /// The identifier the request was minted with.
    spec fn id(&self) -> ID;

    /// Reads from `target` and wraps the outcome under the request's
    /// identifier.
    fn get_response(self, target: &T) -> (response: R)
        ensures
            response.id() == self.id(),
            target.may_get(response.result()),
    ;

    fn get_id(&self) -> (id: ID)
        ensures
            id == self.id(),
    ;
}

/// A request to store a candidate `U` in a resource `T`, answered by an `R`.
pub trait SetRequest<T, U, R> where T: Put<T, U>, R: SetResponse<T, U> {
    /// The identifier the request was minted with.
    spec fn id(&self) -> ID;

    /// The value the request asks to store.
    spec fn candidate(&self) -> U;

    fn get_candidate(&self) -> (candidate: &U)
        ensures
            *candidate == self.candidate(),
    ;

    /// Offers the candidate to `target` and wraps the outcome, together with
    /// the candidate, under the request's identifier.
    fn get_response(self, target: &mut T) -> (response: R)
        ensures
            response.id() == self.id(),
            response.candidate() == self.candidate(),
            old(target).may_set(&self.candidate(), final(target), response.result()),
    ;

    fn get_id(&self) -> (id: ID)
        ensures
            id == self.id(),
    ;
}

/// The answer to a [`GetRequest`].
pub trait GetResponse<T, U> where T: Get<T, U> {
    /// The identifier of the request this answers.
    spec fn id(&self) -> ID;

    /// What the read gave.
    spec fn result(&self) -> Result<U, Error>;

    fn get_result(self) -> (result: Result<U, Error>)
        ensures
            result == self.result(),
    ;

    fn get_id(&self) -> (id: ID)
        ensures
            id == self.id(),
    ;
}

/// The answer to a [`SetRequest`].
pub trait SetResponse<T, U> where T: Put<T, U> {
    /// The identifier of the request this answers.
    spec fn id(&self) -> ID;

    /// The value the request asked to store.
    spec fn candidate(&self) -> U;

    /// Whether the resource took the candidate.
    spec fn result(&self) -> Result<(), Error>;

    fn get_candidate(&self) -> (candidate: &U)
        ensures
            *candidate == self.candidate(),
    ;

    fn get_result(self) -> (result: Result<(), Error>)
        ensures
            result == self.result(),
    ;

    fn get_id(&self) -> (id: ID)
        ensures
            id == self.id(),
    ;
}

pub struct BasicGetResponse<T, U>(pub ID, pub Result<U, Error>, pub PhantomData<T>);

impl<T, U> GetResponse<T, U> for BasicGetResponse<T, U> where T: Get<T, U> {
    open spec fn id(&self) -> ID {
        self.0
    }

    open spec fn result(&self) -> Result<U, Error> {
        self.1
    }

    fn get_id(&self) -> (id: ID) {
        self.0
    }

    fn get_result(self) -> (result: Result<U, Error>) {
        self.1
    }
}

pub struct BasicGetRequest<T, U>(pub ID, pub PhantomData<T>, pub PhantomData<U>);

impl<T, U> GetRequest<T, U, BasicGetResponse<T, U>> for BasicGetRequest<T, U> where T: Get<T, U> {
    open spec fn id(&self) -> ID {
        self.0
    }

    fn get_response(self, target: &T) -> (response: BasicGetResponse<T, U>) {
        let result = target.get();
        BasicGetResponse(self.0, result, PhantomData)
    }

    fn get_id(&self) -> (id: ID) {
        self.0
    }
}

pub struct BasicSetResponse<T, U>(pub ID, pub U, pub Result<(), Error>, pub PhantomData<T>);

impl<T, U> SetResponse<T, U> for BasicSetResponse<T, U> where T: Put<T, U> {
    open spec fn id(&self) -> ID {
        self.0
    }

    open spec fn candidate(&self) -> U {
        self.1
    }

    open spec fn result(&self) -> Result<(), Error> {
        self.2
    }

    fn get_id(&self) -> (id: ID) {
        self.0
    }

    fn get_result(self) -> (result: Result<(), Error>) {
        self.2
    }

    fn get_candidate(&self) -> (candidate: &U) {
        &self.1
    }
}

pub struct BasicSetRequest<T, U>(pub ID, pub U, pub PhantomData<T>);

impl<T, U> SetRequest<T, U, BasicSetResponse<T, U>> for BasicSetRequest<T, U> where T: Put<T, U> {
    open spec fn id(&self) -> ID {
        self.0
    }

    open spec fn candidate(&self) -> U {
        self.1
    }

    fn get_response(self, target: &mut T) -> (response: BasicSetResponse<T, U>) {
        let result = target.set(&self.1);
        BasicSetResponse(self.0, self.1, result, PhantomData)
    }

    fn get_id(&self) -> (id: ID) {
        self.0
    }

    fn get_candidate(&self) -> (candidate: &U) {
        &self.1
    }
}

} // verus!
