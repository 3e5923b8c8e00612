//! The price oracle: candidate prices reported by off-chain workers, the price
//! sources they read, and the current price of each known token.
use vstd::prelude::*;
use crate::dispatch::{ensure_none, ensure_signed, BlockNumber, DispatchError, Origin};
use crate::hashing::{be_u64, encode_u32_u64, le_u64, scale_u32, scale_u64, spec_twox_64, twox_64, u64_from_ne_bytes};
use crate::storage::StorageMap;

verus! {

/// Bytes of a symbol, a URL or a JSON field name.
pub type StrBytes = Vec<u8>;

/// A price in USDT, scaled by ten thousand.
pub type PriceInUSDT = u64;

/// The key type of the oracle's signing keys.
pub const KEY_TYPE: [u8; 4] = [111u8, 114u8, 99u8, 108u8];

/// Why a price could not be read from a JSON answer.
#[derive(Clone, Copy, Debug, PartialEq, Eq, Structural)]
pub enum Error {
    /// A field named in the path is missing.
    FieldMissing,
    /// A value on the path is not an object.
    NotAnObject,
}

impl Error {
    /// The error's text.
    pub fn as_str(&self) -> (s: &'static str)
        ensures
            s@ == (match *self {
                Error::FieldMissing => "fetch_price: JSON does not conform to expectation"@,
                Error::NotAnObject => "JSON does not confirm to expectation"@,
            }),
    {
        match *self {
            Error::FieldMissing => "fetch_price: JSON does not conform to expectation",
            Error::NotAnObject => "JSON does not confirm to expectation",
        }
    }
}

/// A JSON number as written: integer part, fraction digits and their count, exponent.
#[derive(Clone, Copy, Debug, PartialEq, Eq, Structural)]
pub struct NumberValue {
    pub integer: i64,
    pub fraction: u64,
    pub fraction_length: u32,
    pub exponent: i32,
}

/// A JSON value; object members keep their order.
#[derive(Debug)]
pub enum JsonValue {
    Object(Vec<(Vec<char>, JsonValue)>),
    Array(Vec<JsonValue>),
    String(Vec<char>),
    Number(NumberValue),
    Boolean(bool),
    Null,
}

/// Each character cut to its low byte.
pub open spec fn chars_to_bytes(s: Seq<char>) -> Seq<u8> {
    Seq::new(s.len(), |i: int| (s[i] as u32 % 256) as u8)
}

/// The members of an object.
pub open spec fn members(j: JsonValue) -> Seq<(Vec<char>, JsonValue)> {
    match j {
        JsonValue::Object(v) => v@,
        _ => Seq::empty(),
    }
}

/// The first member whose name, cut to bytes, is `f`.
pub open spec fn first_member(m: Seq<(Vec<char>, JsonValue)>, f: Seq<u8>) -> Option<int> {
    if exists|i: int| 0 <= i < m.len() && chars_to_bytes(m[i].0@) == f {
        let k = choose|k: int| 0 <= k < m.len() && chars_to_bytes(m[k].0@) == f
            && forall|j: int| 0 <= j < k ==> chars_to_bytes(m[j].0@) != f;
        Some(k)
    } else {
        None
    }
}

/// The value that the path `path[i..]` leads to from `j`: each step enters the first
/// member of an object whose name is the step.
pub open spec fn walk(j: JsonValue, path: Seq<Seq<u8>>, i: int) -> Result<JsonValue, Error>
    decreases path.len() - i,
{
    if i >= path.len() {
        Ok(j)
    } else {
        match j {
            JsonValue::Object(v) => match first_member(v@, path[i]) {
                Some(k) => walk(v@[k].1, path, i + 1),
                None => Err(Error::FieldMissing),
            },
            _ => Err(Error::NotAnObject),
        }
    }
}

/// A source of a token's price: its name, the URL to fetch and the JSON path to the price.
pub struct PriceSource {
    pub name: StrBytes,
    pub url: StrBytes,
    pub json_path: Vec<StrBytes>,
}

/// The abstract state of the oracle.
pub struct OracleState {
    pub sources: Map<Seq<u8>, Seq<PriceSource>>,
    pub price_candidates: Seq<PriceInUSDT>,
    pub current_price: PriceInUSDT,
    pub next_aggregate_at: BlockNumber,
    pub token_prices: Map<Seq<u8>, PriceInUSDT>,
}

/// The oracle module.
pub struct Module {
    /// Where the price of each token is read from.
    pub crypto_price_sources: StorageMap<StrBytes, Vec<PriceSource>>,
    /// Prices reported since the last aggregation.
    pub price_candidates: Vec<PriceInUSDT>,
    /// The aggregated price.
    pub current_price: PriceInUSDT,
    /// The block at which candidates are aggregated next.
    pub next_aggregate_at: BlockNumber,
    /// The current price of each token the oracle knows, by symbol.
    pub token_prices: StorageMap<StrBytes, PriceInUSDT>,
}

impl View for PriceSource {
    type V = (Seq<u8>, Seq<u8>, Seq<Seq<u8>>);

    open spec fn view(&self) -> (Seq<u8>, Seq<u8>, Seq<Seq<u8>>) {
        (self.name@, self.url@, self.json_path@.map_values(|p: StrBytes| p@))
    }
}

impl View for Module {
    type V = OracleState;

    open spec fn view(&self) -> OracleState {
        OracleState {
            sources: self.crypto_price_sources@,
            price_candidates: self.price_candidates@,
            current_price: self.current_price,
            next_aggregate_at: self.next_aggregate_at,
            token_prices: self.token_prices@,
        }
    }
}

impl Module {
    /// An oracle that knows no token and has no price source.
    pub fn new() -> (m: Self)
        ensures
            m@.sources == Map::<Seq<u8>, Seq<PriceSource>>::empty(),
            m@.price_candidates == Seq::<PriceInUSDT>::empty(),
            m@.current_price == 0,
            m@.next_aggregate_at == 0,
            m@.token_prices == Map::<Seq<u8>, PriceInUSDT>::empty(),
    {
        Module {
            crypto_price_sources: StorageMap::new(),
            price_candidates: Vec::new(),
            current_price: 0,
            next_aggregate_at: 0,
            token_prices: StorageMap::new(),
        }
    }

    /// Whether the oracle has a price for the token.
    pub fn is_token_known(&self, token: &StrBytes) -> (b: bool)
        ensures
            b == self@.token_prices.contains_key(token@),
    {
        self.token_prices.contains_key(token)
    }

    /// The price of the token, zero where the oracle has none.
    pub fn current_price(&self, token: &StrBytes) -> (p: PriceInUSDT)
        ensures
            p == (if self@.token_prices.contains_key(token@) {
                self@.token_prices[token@]
            } else {
                0
            }),
    {
        match self.token_prices.get(token) {
            Some(p) => *p,
            None => 0,
        }
    }

    /// Sets the price of a token.
    pub fn set_token_price(&mut self, token: StrBytes, price: PriceInUSDT)
        ensures
            final(self)@ == (OracleState {
                token_prices: old(self)@.token_prices.insert(token@, price),
                ..old(self)@
            }),
    {
        self.token_prices.insert(token, price);
    }

    /// Adds a price to the candidates.
    pub fn stack_price(&mut self, price: PriceInUSDT) -> (r: Result<(), DispatchError>)
        ensures
            r is Ok,
            final(self)@ == (OracleState {
                price_candidates: old(self)@.price_candidates.push(price),
                ..old(self)@
            }),
    {
        self.price_candidates.push(price);
        Ok(())
    }

    /// An unsigned report of a price: added to the candidates.
    pub fn stack_price_unsigned(&mut self, origin: Origin, block_number: BlockNumber, price: PriceInUSDT) -> (r: Result<(), DispatchError>)
        ensures
            origin == Origin::Unsigned ==> r is Ok && final(self)@ == (OracleState {
                price_candidates: old(self)@.price_candidates.push(price),
                ..old(self)@
            }),
            origin != Origin::Unsigned ==> r == Err::<(), DispatchError>(DispatchError::BadOrigin) && final(self)@ == old(self)@,
    {
        match ensure_none(origin) {
            Ok(()) => {},
            Err(e) => { return Err(e); },
        }
        self.stack_price(price)
    }

    /// A signed report of a price: accepted from a signed origin and not recorded.
    pub fn stack_price_signed(&mut self, origin: Origin, block_number: BlockNumber, price: PriceInUSDT) -> (r: Result<(), DispatchError>)
        ensures
            final(self)@ == old(self)@,
            r is Ok <==> origin is Signed,
            !(origin is Signed) ==> r == Err::<(), DispatchError>(DispatchError::BadOrigin),
    {
        match ensure_signed(origin) {
            Ok(_) => Ok(()),
            Err(e) => Err(e),
        }
    }
}

/// Each character cut to its low byte.
pub fn vecchars_to_vecbytes(chars: &Vec<char>) -> (r: Vec<u8>)
    ensures
        r@ == chars_to_bytes(chars@),
{
    let mut r: Vec<u8> = Vec::new();
    let mut i: usize = 0;
    while i < chars.len()
        invariant
            i <= chars@.len(),
            r@.len() == i,
            forall|k: int| 0 <= k < i ==> r@[k] == (chars@[k] as u32 % 256) as u8,
        decreases chars@.len() - i,
    {
        let c = chars[i] as u32;
        r.push((c % 256) as u8);
        i = i + 1;
    }
    assert(r@ =~= chars_to_bytes(chars@));
    r
}

/// Whether the two byte strings are equal.
fn same_bytes(a: &Vec<u8>, b: &Vec<u8>) -> (r: bool)
    ensures
        r == (a@ == b@),
{
    let r = crate::storage::bytes_equal(a.as_slice(), b.as_slice());
    proof {
        if r {
            assert(a@ =~= b@);
        }
    }
    r
}

/// The value the path leads to: each step enters the first member of an object whose
/// name, each character cut to its low byte, is the step.
pub fn select_price_field<'a>(json: &'a JsonValue, path: &Vec<Vec<u8>>) -> (r: Result<&'a JsonValue, Error>)
    ensures
        match walk(*json, path@.map_values(|p: Vec<u8>| p@), 0) {
            Ok(v) => r is Ok && *(r->Ok_0) == v,
            Err(e) => r == Err::<&JsonValue, Error>(e),
        },
{
    let ghost p = path@.map_values(|q: Vec<u8>| q@);
    let mut cur: &JsonValue = json;
    let mut i: usize = 0;
    while i < path.len()
        invariant
            i <= path@.len(),
            p == path@.map_values(|q: Vec<u8>| q@),
            walk(*json, p, 0) == walk(*cur, p, i as int),
        decreases path@.len() - i,
    {
        let f = &path[i];
        match cur {
            JsonValue::Object(entries) => {
                let mut k: usize = 0;
                let mut found: Option<usize> = None;
                while k < entries.len()
                    invariant_except_break
                        found is None,
                    invariant
                        k <= entries@.len(),
                        forall|j: int| 0 <= j < k ==> chars_to_bytes(entries@[j].0@) != f@,
                    ensures
                        match found {
                            Some(c) => c < entries@.len() && c == k && chars_to_bytes(entries@[c as int].0@) == f@,
                            None => k == entries@.len(),
                        },
                    decreases entries@.len() - k,
                {
                    let name = vecchars_to_vecbytes(&entries[k].0);
                    if same_bytes(&name, f) {
                        found = Some(k);
                        break;
                    }
                    k = k + 1;
                }
                proof {
                    assert(p[i as int] == f@);
                }
                match found {
                    Some(k) => {
                        proof {
                            let m = entries@;
                            assert(chars_to_bytes(m[k as int].0@) == f@);
                            assert(first_member(m, f@) == Some(k as int));
                        }
                        cur = &entries[k].1;
                    },
                    None => {
                        return Err(Error::FieldMissing);
                    },
                }
            },
            _ => {
                return Err(Error::NotAnObject);
            },
        }
        i = i + 1;
    }
    Ok(cur)
}

/// A call of the oracle, as an unsigned transaction carries it.
#[allow(non_camel_case_types)]
#[derive(Clone, Copy, Debug, PartialEq, Eq, Structural)]
pub enum Call {
    stack_price_unsigned(BlockNumber, PriceInUSDT),
    stack_price_signed(BlockNumber, PriceInUSDT),
}

/// Why an unsigned transaction is refused.
#[derive(Clone, Copy, Debug, PartialEq, Eq, Structural)]
pub enum InvalidTransaction {
    Call,
}

/// How an accepted unsigned transaction is pooled.
#[derive(Clone, Debug, PartialEq, Eq)]
pub struct ValidTransaction {
    pub priority: u64,
    pub requires: Vec<Vec<u8>>,
    pub provides: Vec<Vec<u8>>,
    pub longevity: u64,
    pub propagate: bool,
}

/// Accepts an unsigned price report, providing the encoding of its block and price, for
/// three blocks; refuses every other call.
pub fn validate_unsigned(call: &Call) -> (r: Result<ValidTransaction, InvalidTransaction>)
    ensures
        match *call {
            Call::stack_price_unsigned(block, price) => r is Ok && ({
                let v = r->Ok_0;
                &&& v.priority == 0
                &&& v.requires@.len() == 0
                &&& v.provides@.len() == 1
                &&& v.provides@[0]@ == scale_u32(block) + scale_u64(price)
                &&& v.longevity == 3
                &&& v.propagate
            }),
            _ => r == Err::<ValidTransaction, InvalidTransaction>(InvalidTransaction::Call),
        },
{
    match *call {
        Call::stack_price_unsigned(block, price) => {
            let mut provides: Vec<Vec<u8>> = Vec::new();
            provides.push(encode_u32_u64(block, price));
            Ok(ValidTransaction { priority: 0, requires: Vec::new(), provides, longevity: 3, propagate: true })
        },
        _ => Err(InvalidTransaction::Call),
    }
}

/// The index of the source to read among `n`: the random value modulo `n`.
pub fn source_index(r: u64, n: usize) -> (i: usize)
    requires
        n > 0,
    ensures
        i == (r as usize) % n,
        i < n,
{
    #[verifier::truncate]
    let r2 = r as usize;
    r2 % n
}

/// The index of the source to read among `n`, from a random seed: the seed's 64-bit xx
/// hash, read as a number in the machine's byte order, modulo `n`.
pub fn source_index_from_seed(seed: &Vec<u8>, n: usize) -> (i: usize)
    requires
        n > 0,
    ensures
        i < n,
        i == (le_u64(spec_twox_64(seed@)) as usize) % n || i == (be_u64(spec_twox_64(seed@)) as usize) % n,
{
    let hash = twox_64(seed.as_slice());
    let r = u64_from_ne_bytes(hash);
    source_index(r, n)
}

/// A copy of a price source.
fn copy_source(s: &PriceSource) -> (c: PriceSource)
    ensures
        c@ == s@,
{
    let mut path: Vec<StrBytes> = Vec::new();
    let mut i: usize = 0;
    while i < s.json_path.len()
        invariant
            i <= s.json_path@.len(),
            path@.len() == i,
            forall|k: int| 0 <= k < i ==> (#[trigger] path@[k])@ == s.json_path@[k]@,
        decreases s.json_path@.len() - i,
    {
        path.push(crate::storage::copy_bytes(s.json_path[i].as_slice()));
        i = i + 1;
    }
    let c = PriceSource {
        name: crate::storage::copy_bytes(s.name.as_slice()),
        url: crate::storage::copy_bytes(s.url.as_slice()),
        json_path: path,
    };
    assert(c.json_path@.map_values(|p: StrBytes| p@) =~= s.json_path@.map_values(|p: StrBytes| p@));
    c
}

/// The settings the oracle starts from: where each token's price is read.
pub struct GenesisConfig {
    pub crypto_price_sources: Vec<(StrBytes, Vec<PriceSource>)>,
}

/// The sources of each token as the settings list them: a later entry for a token wins.
pub open spec fn sources_of(s: Seq<(StrBytes, Vec<PriceSource>)>) -> Map<Seq<u8>, Seq<(Seq<u8>, Seq<u8>, Seq<Seq<u8>>)>>
    decreases s.len(),
{
    if s.len() == 0 {
        Map::empty()
    } else {
        sources_of(s.drop_last()).insert(s.last().0@, s.last().1@.map_values(|p: PriceSource| p@))
    }
}

/// The sources of each token as stored, each source by its view.
pub open spec fn stored_sources(m: Map<Seq<u8>, Seq<PriceSource>>) -> Map<Seq<u8>, Seq<(Seq<u8>, Seq<u8>, Seq<Seq<u8>>)>> {
    m.map_values(|v: Seq<PriceSource>| v.map_values(|p: PriceSource| p@))
}

impl GenesisConfig {
    /// The oracle these settings make: it knows the sources and no price yet.
    pub fn build(&self) -> (m: Module)
        ensures
            stored_sources(m@.sources) == sources_of(self.crypto_price_sources@),
            m@.price_candidates == Seq::<PriceInUSDT>::empty(),
            m@.current_price == 0,
            m@.next_aggregate_at == 0,
            m@.token_prices == Map::<Seq<u8>, PriceInUSDT>::empty(),
    {
        let mut m = Module::new();
        let mut i: usize = 0;
        while i < self.crypto_price_sources.len()
            invariant
                i <= self.crypto_price_sources@.len(),
                stored_sources(m@.sources) == sources_of(self.crypto_price_sources@.take(i as int)),
                m@.price_candidates == Seq::<PriceInUSDT>::empty(),
                m@.current_price == 0,
                m@.next_aggregate_at == 0,
                m@.token_prices == Map::<Seq<u8>, PriceInUSDT>::empty(),
            decreases self.crypto_price_sources@.len() - i,
        {
            let entry = &self.crypto_price_sources[i];
            let token = crate::storage::copy_bytes(entry.0.as_slice());
            let mut list: Vec<PriceSource> = Vec::new();
            let mut j: usize = 0;
            while j < entry.1.len()
                invariant
                    j <= entry.1@.len(),
                    list@.len() == j,
                    forall|k: int| 0 <= k < j ==> (#[trigger] list@[k])@ == entry.1@[k]@,
                decreases entry.1@.len() - j,
            {
                list.push(copy_source(&entry.1[j]));
                j = j + 1;
            }
            let ghost before = m@.sources;
            m.crypto_price_sources.insert(token, list);
            proof {
                let t = self.crypto_price_sources@.take(i + 1);
                assert(t.drop_last() =~= self.crypto_price_sources@.take(i as int));
                assert(list@.map_values(|p: PriceSource| p@) =~= entry.1@.map_values(|p: PriceSource| p@));
                assert(stored_sources(m@.sources) =~= stored_sources(before).insert(entry.0@, entry.1@.map_values(|p: PriceSource| p@)));
            }
            i = i + 1;
        }
        assert(self.crypto_price_sources@.take(self.crypto_price_sources@.len() as int) =~= self.crypto_price_sources@);
        m
    }
}

impl Module {
    /// The sources of a token's price, if any are listed.
    pub fn crypto_price_sources(&self, token: &StrBytes) -> (v: Option<&Vec<PriceSource>>)
        ensures
            match v {
                Some(v) => self@.sources.contains_key(token@) && v@ == self@.sources[token@],
                None => !self@.sources.contains_key(token@),
            },
    {
        self.crypto_price_sources.get(token)
    }
}

} // verus!
