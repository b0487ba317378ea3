//! The handler layer: maps parsed requests onto store operations, and store
//! results onto status codes and response bodies.

use crate::store::{contains_id, idx_of, lookup, unique_ids, Record, Store, StoreError};
use vstd::prelude::*;

verus! {

/// A parsed request: the method, path and body of the HTTP surface reduced
/// to plain values.
#[derive(Clone, Copy, Debug)]
pub enum Request {
    ListPrices,
    CreatePrice { price: u64 },
    GetPrice { id: u128 },
    UpdatePrice { id: u128, price: u64 },
    DeletePrice { id: u128 },
}

/// The outcome handed back to the transport: a successful body, or the
/// not-found failure.
#[derive(Clone, Debug, PartialEq, Eq)]
pub enum Response {
    OkRecords(Vec<Record>),
    OkRecord(Record),
    OkEmpty,
    NotFound,
}

impl Response {
    /// The HTTP status code this response maps to.
    pub open spec fn status_spec(&self) -> u16 {
        match self {
            Response::NotFound => 404,
            _ => 200,
        }
    }

    /// The HTTP status code this response maps to: 404 for `NotFound`, 200
    /// for every success.
    pub fn status_code(&self) -> (s: u16)
        ensures
            s == self.status_spec(),
    {
        match self {
            Response::NotFound => 404,
            _ => 200,
        }
    }
}

/// Dispatch one request to the store and shape the outcome as a response.
pub fn handle(store: &mut Store, req: Request) -> (resp: Response)
    ensures
        unique_ids(final(store)@),
        (req matches Request::ListPrices ==> {
            &&& final(store)@ == old(store)@
            &&& resp matches Response::OkRecords(rs)
            &&& rs@ == old(store)@
        }),
        (req matches Request::CreatePrice { price } ==> {
            &&& resp matches Response::OkRecord(r)
            &&& r.price == price
            &&& !contains_id(old(store)@, r.id)
            &&& final(store)@ == old(store)@.push(r)
        }),
        (req matches Request::GetPrice { id } ==> {
            &&& final(store)@ == old(store)@
            &&& (match lookup(old(store)@, id) {
                Some(rec) => resp == Response::OkRecord(rec),
                None => resp == Response::NotFound,
            })
        }),
        (req matches Request::UpdatePrice { id, price } ==> {
            &&& contains_id(old(store)@, id) ==> {
                &&& resp == Response::OkRecord((Record { id, price }))
                &&& final(store)@ == old(store)@.update(
                    idx_of(old(store)@, id),
                    (Record { id, price }),
                )
            }
            &&& !contains_id(old(store)@, id) ==> {
                &&& resp == Response::NotFound
                &&& final(store)@ == old(store)@
            }
        }),
        (req matches Request::DeletePrice { id } ==> {
            &&& contains_id(old(store)@, id) ==> {
                &&& resp == Response::OkEmpty
                &&& final(store)@ == old(store)@.remove(idx_of(old(store)@, id))
            }
            &&& !contains_id(old(store)@, id) ==> {
                &&& resp == Response::NotFound
                &&& final(store)@ == old(store)@
            }
        }),
{
    match req {
        Request::ListPrices => Response::OkRecords(store.list()),
        Request::CreatePrice { price } => Response::OkRecord(store.create(price)),
        Request::GetPrice { id } => match store.get(id) {
            Ok(rec) => Response::OkRecord(rec),
            Err(StoreError::NotFound) => Response::NotFound,
        },
        Request::UpdatePrice { id, price } => match store.update(id, price) {
            Ok(rec) => Response::OkRecord(rec),
            Err(StoreError::NotFound) => Response::NotFound,
        },
        Request::DeletePrice { id } => match store.delete(id) {
            Ok(()) => Response::OkEmpty,
            Err(StoreError::NotFound) => Response::NotFound,
        },
    }
}

} // verus!
