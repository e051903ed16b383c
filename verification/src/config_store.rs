//! The cache coordinator: the single owner of the snapshot.
//!
//! The coordinator decides and never waits. A read is answered from the
//! snapshot. A write is handed back as the call to make on the backing
//! store; the caller makes it and reports the outcome, and the coordinator
//! says what to reply and whether a reload is due. A reload is given the rows
//! that the backing store returned. The snapshot changes in one place only,
//! and there it is replaced as a whole.

use crate::models::Pair;
use crate::pair_map::{rows_of, PairMap};
use crate::rows::{collect, map_of, select, Rows, Table};
use crate::text::names_of;
use vstd::prelude::*;

verus! {

/// Seconds between two scheduled reloads of the snapshot.
pub const REFRESH_INTERVAL_SECS: u64 = 15;

/// `r2d2::Error`, the failure to get a connection from the pool.
#[verifier::external_type_specification]
#[verifier::external_body]
pub struct ExPoolError(r2d2::Error);

/// The message that an `r2d2::Error` displays.
pub uninterp spec fn pool_error_message(err: r2d2::Error) -> String;

/// `ToString::to_string` on an `r2d2::Error`: the message that it displays.
#[verifier::external_body]
fn display_pool_error(err: &r2d2::Error) -> (message: String)
    ensures
        message == pool_error_message(*err),
{
    err.to_string()
}

/// One operation on the configuration table.
#[derive(Debug)]
pub enum Request {
    FetchPairs(Vec<String>),
    DeletePair(String),
    AddPair(String, String),
    UpdatePair(String, String),
    FetchAll(),
}

/// What a request is answered with when it succeeds.
#[derive(Debug)]
pub enum Response {
    /// The entries that a fetch found.
    Pairs(PairMap),
    /// A write went through.
    Done(()),
}

/// A failure of the backing store: no connection could be had, or the
/// operation failed. It carries the message and nothing else.
#[derive(Debug)]
pub enum ConfigStoreError {
    Custom { err_str: String },
}

impl View for ConfigStoreError {
    type V = Seq<char>;

    /// The message.
    open spec fn view(&self) -> Seq<char> {
        match *self {
            ConfigStoreError::Custom { err_str } => err_str@,
        }
    }
}

impl vstd::std_specs::convert::FromSpecImpl<r2d2::Error> for ConfigStoreError {
    open spec fn obeys_from_spec() -> bool {
        true
    }

    /// A failure to get a connection carries the message that the pool's
    /// error displays.
    open spec fn from_spec(err: r2d2::Error) -> ConfigStoreError {
        ConfigStoreError::Custom { err_str: pool_error_message(err) }
    }
}

impl From<r2d2::Error> for ConfigStoreError {
    fn from(err: r2d2::Error) -> (e: ConfigStoreError) {
        ConfigStoreError::Custom { err_str: display_pool_error(&err) }
    }
}

/// Work that the coordinator puts off until the current operation is done.
#[derive(Debug)]
pub enum DeferredWork {
    /// Reload the snapshot from the backing store.
    UpdatePairs,
}

/// A write to make on the backing store.
#[derive(Debug)]
pub enum StoreCall {
    /// Add this row.
    Insert(Pair),
    /// Give the row of `name` this value; no such row, nothing to do.
    Update { name: String, value: String },
    /// Remove the row of `name`; no such row, nothing to do.
    Delete { name: String },
}

/// What the coordinator does with a request.
#[derive(Debug)]
pub enum Step {
    /// The request is answered at once, from the snapshot.
    Reply(Response),
    /// The request is a write: make this call, then report its outcome.
    Call(StoreCall),
}

/// How a write ends.
#[derive(Debug)]
pub struct Completion {
    /// The answer to the request.
    pub reply: Result<Response, ConfigStoreError>,
    /// What to queue behind the request.
    pub deferred: Option<DeferredWork>,
}

/// What the coordinator asks for when it starts.
#[derive(Debug)]
pub struct Startup {
    /// Work to queue at once.
    pub deferred: DeferredWork,
    /// Seconds after which, again and again, the same work is queued.
    pub every_secs: u64,
}

/// How a write with the given outcome ends: success, whatever the number
/// of rows, is answered with `Response::Done` and puts a reload behind the
/// request; a failure is handed on as it came and puts off nothing.
pub open spec fn completed(outcome: Result<usize, ConfigStoreError>) -> Completion {
    match outcome {
        Ok(_) => Completion {
            reply: Ok(Response::Done(())),
            deferred: Some(DeferredWork::UpdatePairs),
        },
        Err(e) => Completion { reply: Err(e), deferred: None },
    }
}

/// The snapshot after a reload that was given `loaded`: the map of the rows,
/// or the snapshot as it was where the rows could not be had.
pub open spec fn reloaded(
    snapshot: Table,
    loaded: Result<Vec<Pair>, ConfigStoreError>,
) -> Table {
    match loaded {
        Ok(pairs) => map_of(rows_of(pairs@)),
        Err(_) => snapshot,
    }
}

/// The owner of the snapshot.
pub struct ConfigStore {
    pairs: PairMap,
}

impl View for ConfigStore {
    type V = Table;

    /// The snapshot as a map.
    open spec fn view(&self) -> Table {
        self.snapshot()@
    }
}

impl ConfigStore {
    /// The snapshot.
    pub closed spec fn snapshot(&self) -> PairMap {
        self.pairs
    }

    /// A coordinator with an empty snapshot.
    pub fn new() -> (store: ConfigStore)
        ensures
            store.snapshot().rows() == Rows::empty(),
            store@ == Table::empty(),
    {
        ConfigStore { pairs: PairMap::new() }
    }

    /// At start a reload is due at once, and then every
    /// `REFRESH_INTERVAL_SECS` seconds.
    pub fn started(&self) -> (plan: Startup)
        ensures
            plan.deferred == DeferredWork::UpdatePairs,
            plan.every_secs == REFRESH_INTERVAL_SECS,
    {
        Startup { deferred: DeferredWork::UpdatePairs, every_secs: REFRESH_INTERVAL_SECS }
    }

    /// Takes one request. A fetch is answered from the snapshot: the entries
    /// asked for that it holds, or a copy of all of it. A write becomes the
    /// call to make on the backing store. The snapshot is left as it is.
    pub fn handle(&self, msg: Request) -> (step: Step)
        ensures
            match msg {
                Request::FetchPairs(keys) => {
                    &&& step matches Step::Reply(Response::Pairs(found))
                    &&& found.rows() == select(self.snapshot().rows(), names_of(keys@))
                    &&& found@ == self@.restrict(names_of(keys@).to_set())
                },
                Request::FetchAll() => {
                    &&& step matches Step::Reply(Response::Pairs(found))
                    &&& found.rows() == self.snapshot().rows()
                    &&& found@ == self@
                },
                Request::AddPair(name, value) => step == Step::Call(
                    StoreCall::Insert(Pair { name, value }),
                ),
                Request::UpdatePair(name, value) => step == Step::Call(
                    StoreCall::Update { name, value },
                ),
                Request::DeletePair(name) => step == Step::Call(StoreCall::Delete { name }),
            },
    {
        match msg {
            Request::FetchPairs(keys) => Step::Reply(Response::Pairs(self.pairs.subset(&keys))),
            Request::AddPair(name, value) => Step::Call(StoreCall::Insert(Pair { name, value })),
            Request::FetchAll() => Step::Reply(Response::Pairs(self.pairs.clone())),
            Request::DeletePair(name) => Step::Call(StoreCall::Delete { name }),
            Request::UpdatePair(name, value) => Step::Call(StoreCall::Update { name, value }),
        }
    }

    /// Ends a write with the outcome of its call: the number of rows it
    /// touched, or the failure. Success, whatever the number, is answered
    /// with `Response::Done` and puts a reload behind the request. A failure is
    /// handed on as it came and puts off nothing. The snapshot is left as it
    /// is either way.
    pub fn complete(&self, outcome: Result<usize, ConfigStoreError>) -> (done: Completion)
        ensures
            done == completed(outcome),
    {
        match outcome {
            Ok(_) => Completion {
                reply: Ok(Response::Done(())),
                deferred: Some(DeferredWork::UpdatePairs),
            },
            Err(e) => Completion { reply: Err(e), deferred: None },
        }
    }

    /// Ends a reload with what the backing store returned. Rows replace the
    /// snapshot as a whole: it becomes the map of these rows, a later row
    /// overriding an earlier one with the same name. A failure leaves the
    /// snapshot as it was and is handed back to be logged.
    pub fn reload(&mut self, loaded: Result<Vec<Pair>, ConfigStoreError>) -> (r: Result<
        (),
        ConfigStoreError,
    >)
        ensures
            match loaded {
                Ok(pairs) => {
                    &&& r is Ok
                    &&& final(self).snapshot().rows() == collect(rows_of(pairs@))
                    &&& final(self)@ == map_of(rows_of(pairs@))
                },
                Err(e) => r == Err::<(), ConfigStoreError>(e) && *final(self) == *old(self),
            },
            final(self)@ == reloaded(old(self)@, loaded),
    {
        match loaded {
            Ok(pairs) => {
                self.pairs = PairMap::from_pairs(pairs);
                Ok(())
            },
            Err(e) => Err(e),
        }
    }
}

} // verus!
