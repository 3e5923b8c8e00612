//! What the ledger's RPC answers when asked for the list of asset symbols.
use vstd::prelude::*;
use vstd::utf8::{decode_utf8, valid_utf8};
use std::marker::PhantomData;
use std::sync::Arc;
use crate::dispatch::AssetId;

verus! {

/// Errors the RPC reports.
#[derive(Clone, Copy, Debug, PartialEq, Eq, Structural)]
pub enum Error {
    NoAssets,
    RuntimeError,
}

impl Error {
    /// The server error code of the error.
    pub open spec fn spec_code(self) -> i64 {
        match self {
            Error::NoAssets => 1,
            Error::RuntimeError => 2,
        }
    }

    /// The message of the error.
    pub fn message(self) -> (s: String)
        ensures
            s@ == (match self {
                Error::NoAssets => "no assets found"@,
                Error::RuntimeError => "runtime trapped"@,
            }),
    {
        match self {
            Error::NoAssets => "no assets found".to_string(),
            Error::RuntimeError => "runtime trapped".to_string(),
        }
    }
}

impl From<Error> for i64 {
    fn from(e: Error) -> (c: i64) {
        match e {
            Error::NoAssets => 1,
            Error::RuntimeError => 2,
        }
    }
}

impl vstd::std_specs::convert::FromSpecImpl<Error> for i64 {
    open spec fn obeys_from_spec() -> bool {
        true
    }

    open spec fn from_spec(e: Error) -> i64 {
        e.spec_code()
    }
}

/// An error answer of the RPC: a server error code, a message and optional details.
#[derive(Clone, Debug, PartialEq, Eq)]
pub struct RpcError {
    pub code: i64,
    pub message: String,
    pub data: Option<String>,
}

/// The RPC handler of the ledger, over a client of the chain.
pub struct GenericAsset<C, B> {
    client: Arc<C>,
    _marker: PhantomData<B>,
}

impl<C, B> GenericAsset<C, B> {
    /// The client the handler asks.
    pub closed spec fn client_spec(&self) -> Arc<C> {
        self.client
    }

    /// A handler over `client`.
    pub fn new(client: Arc<C>) -> (g: Self)
        ensures
            g.client_spec() == client,
    {
        GenericAsset { client, _marker: PhantomData }
    }

    /// The client the handler asks.
    pub fn client(&self) -> (c: &Arc<C>)
        ensures
            *c == self.client_spec(),
    {
        &self.client
    }
}

/// `String::from_utf8_lossy`, owned: valid UTF-8 is decoded as it is. The replacement of
/// invalid sequences is documented by std but not stated here.
#[verifier::external_body]
fn utf8_lossy(bytes: &[u8]) -> (s: String)
    ensures
        valid_utf8(bytes@) ==> s@ == decode_utf8(bytes@),
{
    String::from_utf8_lossy(bytes).into_owned()
}

/// The list of asset symbols as the RPC answers it: each symbol decoded as UTF-8, or the
/// `NoAssets` error where the runtime has no list.
pub fn symbols_list(list: Option<Vec<(AssetId, Vec<u8>)>>) -> (r: Result<Vec<(AssetId, String)>, RpcError>)
    ensures
        match list {
            None => r is Err && r->Err_0.code == Error::NoAssets.spec_code()
                && r->Err_0.message@ == "no assets found"@ && r->Err_0.data is None,
            Some(l) => r is Ok && r->Ok_0@.len() == l@.len() && forall|i: int| 0 <= i < l@.len() ==> {
                &&& (#[trigger] r->Ok_0@[i]).0 == l@[i].0
                &&& valid_utf8(l@[i].1@) ==> r->Ok_0@[i].1@ == decode_utf8(l@[i].1@)
            },
        },
{
    match list {
        Some(list) => {
            let mut res: Vec<(AssetId, String)> = Vec::new();
            let mut i: usize = 0;
            while i < list.len()
                invariant
                    i <= list@.len(),
                    res@.len() == i,
                    forall|j: int| 0 <= j < i ==> {
                        &&& (#[trigger] res@[j]).0 == list@[j].0
                        &&& valid_utf8(list@[j].1@) ==> res@[j].1@ == decode_utf8(list@[j].1@)
                    },
                decreases list@.len() - i,
            {
                let s = utf8_lossy(list[i].1.as_slice());
                res.push((list[i].0, s));
                i = i + 1;
            }
            Ok(res)
        },
        None => Err(RpcError { code: 1, message: Error::NoAssets.message(), data: None }),
    }
}

} // verus!
