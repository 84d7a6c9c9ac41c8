//! The collections of the Soroban SDK that governance keeps its numbers in.
//!
//! Their items live in the contract host, out of the verifier's sight. This module gives the
//! contents a name, states for each SDK call what it does to them, and offers the calls on lists and
//! amounts as methods with a view; [`crate::tables`] does so for records. As every allocation may, a call can end the invocation where the host runs out of
//! metered resources; nothing is claimed of an invocation that ended so.

use soroban_sdk::Env;
use vstd::prelude::*;

use crate::bytes::ByteString;

verus! {

/// The handle to the contract host.
#[verifier::external_type_specification]
#[verifier::external_body]
pub struct ExEnv(soroban_sdk::Env);

/// A vector held by the host.
#[verifier::external_type_specification]
#[verifier::external_body]
#[verifier::reject_recursive_types(T)]
pub struct ExVec<T>(soroban_sdk::Vec<T>);

/// An ordered map held by the host.
#[verifier::external_type_specification]
#[verifier::external_body]
#[verifier::reject_recursive_types(K)]
#[verifier::reject_recursive_types(V)]
pub struct ExMap<K, V>(soroban_sdk::Map<K, V>);

/// A string held by the host.
#[verifier::external_type_specification]
#[verifier::external_body]
pub struct ExString(soroban_sdk::String);

/// A byte string held by the host.
#[verifier::external_type_specification]
#[verifier::external_body]
pub struct ExBytes(soroban_sdk::Bytes);

/// The items of the vector, first to last.
pub uninterp spec fn listed(v: soroban_sdk::Vec<u64>) -> Seq<u64>;

/// The pairs of the map.
pub uninterp spec fn amounts(m: soroban_sdk::Map<u64, i128>) -> Map<u64, i128>;

/// The pairs of the map, each key by its bytes.
pub uninterp spec fn parameter_values(m: soroban_sdk::Map<soroban_sdk::String, i128>) -> Map<
    Seq<u8>,
    i128,
>;

/// The pairs of the map, each key by its bytes.
pub uninterp spec fn feature_flags(m: soroban_sdk::Map<soroban_sdk::String, bool>) -> Map<
    Seq<u8>,
    bool,
>;

/// The pairs of the map, each key and each value by its bytes.
pub uninterp spec fn upgrade_hashes(
    m: soroban_sdk::Map<soroban_sdk::String, soroban_sdk::Bytes>,
) -> Map<Seq<u8>, Seq<u8>>;

/// The pairs of the map.
pub uninterp spec fn threshold_entries(m: soroban_sdk::Map<u32, (u32, u32)>) -> Map<
    u32,
    (u32, u32),
>;

/// The pairs of the map.
pub uninterp spec fn delegation_entries(m: soroban_sdk::Map<u64, (u64, u64, i128, bool)>) -> Map<
    u64,
    (u64, u64, i128, bool),
>;

/// The pairs of the map.
pub uninterp spec fn ballot_entries(m: soroban_sdk::Map<u64, (u64, u32, i128, u64)>) -> Map<
    u64,
    (u64, u32, i128, u64),
>;

/// `soroban_sdk::Vec::new`: a vector without items.
#[verifier::external_body]
fn vec_new(env: &Env) -> (v: soroban_sdk::Vec<u64>)
    ensures
        listed(v) == Seq::<u64>::empty(),
{
    soroban_sdk::Vec::new(env)
}

/// `soroban_sdk::Vec::clone`: another handle to the same items.
#[verifier::external_body]
fn vec_clone(v: &soroban_sdk::Vec<u64>) -> (w: soroban_sdk::Vec<u64>)
    ensures
        listed(w) == listed(*v),
{
    v.clone()
}

/// `soroban_sdk::Vec::len`: the number of items, which the host reports as a `u32`.
#[verifier::external_body]
fn vec_len(v: &soroban_sdk::Vec<u64>) -> (n: u32)
    requires
        listed(*v).len() <= u32::MAX,
    ensures
        n == listed(*v).len(),
{
    v.len()
}

/// `soroban_sdk::Vec::get`: the item at `i`, or `None` past the end.
#[verifier::external_body]
fn vec_get(v: &soroban_sdk::Vec<u64>, i: u32) -> (item: Option<u64>)
    requires
        listed(*v).len() <= u32::MAX,
    ensures
        item == if i < listed(*v).len() {
            Some(listed(*v)[i as int])
        } else {
            None
        },
{
    v.get(i)
}

/// `soroban_sdk::Vec::push_back`: the item comes after all others.
#[verifier::external_body]
fn vec_push_back(v: &mut soroban_sdk::Vec<u64>, item: u64)
    requires
        listed(*old(v)).len() < u32::MAX,
    ensures
        listed(*final(v)) == listed(*old(v)).push(item),
{
    v.push_back(item)
}

/// `soroban_sdk::Map::new`: a map without pairs.
#[verifier::external_body]
fn map_new(env: &Env) -> (m: soroban_sdk::Map<u64, i128>)
    ensures
        (amounts(m) == Map::<u64, i128>::empty()),
{
    soroban_sdk::Map::new(env)
}

/// `soroban_sdk::Map::get`: the value paired with the key, or `None` where the key is absent.
#[verifier::external_body]
fn map_get(m: &soroban_sdk::Map<u64, i128>, key: u64) -> (value: Option<i128>)
    ensures
        value == if amounts(*m).contains_key(key) {
            Some(amounts(*m)[key])
        } else {
            None
        },
{
    m.get(key)
}

/// `soroban_sdk::Map::set`: the key is paired with the value, and with no other.
#[verifier::external_body]
fn map_set(m: &mut soroban_sdk::Map<u64, i128>, key: u64, value: i128)
    ensures
        amounts(*final(m)) == amounts(*old(m)).insert(key, value),
{
    m.set(key, value)
}

/// `soroban_sdk::Map::set` on the governance parameters, the name turned into an SDK string.
#[verifier::external_body]
fn parameters_set(m: &mut soroban_sdk::Map<soroban_sdk::String, i128>, name: &[u8], value: i128)
    requires
        name@.len() <= u32::MAX,
    ensures
        parameter_values(*final(m)) == parameter_values(*old(m)).insert(name@, value),
{
    let key = soroban_sdk::String::from_bytes(m.env(), name);
    m.set(key, value)
}

/// `soroban_sdk::Map::set` on the feature flags, the name turned into an SDK string.
#[verifier::external_body]
fn features_set(m: &mut soroban_sdk::Map<soroban_sdk::String, bool>, name: &[u8], enabled: bool)
    requires
        name@.len() <= u32::MAX,
    ensures
        feature_flags(*final(m)) == feature_flags(*old(m)).insert(name@, enabled),
{
    let key = soroban_sdk::String::from_bytes(m.env(), name);
    m.set(key, enabled)
}

/// `soroban_sdk::Map::set` on the approved upgrades, name and hash turned into SDK values.
#[verifier::external_body]
fn upgrades_set(
    m: &mut soroban_sdk::Map<soroban_sdk::String, soroban_sdk::Bytes>,
    name: &[u8],
    hash: &[u8],
)
    requires
        name@.len() <= u32::MAX,
        hash@.len() <= u32::MAX,
    ensures
        upgrade_hashes(*final(m)) == upgrade_hashes(*old(m)).insert(name@, hash@),
{
    let key = soroban_sdk::String::from_bytes(m.env(), name);
    let value = soroban_sdk::Bytes::from_slice(m.env(), hash);
    m.set(key, value)
}

/// `soroban_sdk::Map::new` for thresholds: a map without pairs.
#[verifier::external_body]
pub(crate) fn thresholds_new(env: &Env) -> (m: soroban_sdk::Map<u32, (u32, u32)>)
    ensures
        (threshold_entries(m) == Map::<u32, (u32, u32)>::empty()),
{
    soroban_sdk::Map::new(env)
}

/// `soroban_sdk::Map::get` for thresholds: the value paired with the key, or `None` where the key is
/// absent.
#[verifier::external_body]
pub(crate) fn thresholds_get(
    m: &soroban_sdk::Map<u32, (u32, u32)>,
    key: u32,
) -> (value: Option<(u32, u32)>)
    ensures
        value == if threshold_entries(*m).contains_key(key) {
            Some(threshold_entries(*m)[key])
        } else {
            None
        },
{
    m.get(key)
}

/// `soroban_sdk::Map::set` for thresholds: the key is paired with the value, and with no other.
#[verifier::external_body]
pub(crate) fn thresholds_set(
    m: &mut soroban_sdk::Map<u32, (u32, u32)>,
    key: u32,
    value: (u32, u32),
)
    ensures
        threshold_entries(*final(m)) == threshold_entries(*old(m)).insert(key, value),
{
    m.set(key, value)
}

/// `soroban_sdk::Map::new` for delegations: a map without pairs.
#[verifier::external_body]
pub(crate) fn delegations_new(env: &Env) -> (m: soroban_sdk::Map<u64, (u64, u64, i128, bool)>)
    ensures
        (delegation_entries(m) == Map::<u64, (u64, u64, i128, bool)>::empty()),
{
    soroban_sdk::Map::new(env)
}

/// `soroban_sdk::Map::get` for delegations: the value paired with the key, or `None` where the key is
/// absent.
#[verifier::external_body]
pub(crate) fn delegations_get(
    m: &soroban_sdk::Map<u64, (u64, u64, i128, bool)>,
    key: u64,
) -> (value: Option<(u64, u64, i128, bool)>)
    ensures
        value == if delegation_entries(*m).contains_key(key) {
            Some(delegation_entries(*m)[key])
        } else {
            None
        },
{
    m.get(key)
}

/// `soroban_sdk::Map::set` for delegations: the key is paired with the value, and with no other.
#[verifier::external_body]
pub(crate) fn delegations_set(
    m: &mut soroban_sdk::Map<u64, (u64, u64, i128, bool)>,
    key: u64,
    value: (u64, u64, i128, bool),
)
    ensures
        delegation_entries(*final(m)) == delegation_entries(*old(m)).insert(key, value),
{
    m.set(key, value)
}

/// `soroban_sdk::Map::new` for votes: a map without pairs.
#[verifier::external_body]
pub(crate) fn ballots_new(env: &Env) -> (m: soroban_sdk::Map<u64, (u64, u32, i128, u64)>)
    ensures
        (ballot_entries(m) == Map::<u64, (u64, u32, i128, u64)>::empty()),
{
    soroban_sdk::Map::new(env)
}

/// `soroban_sdk::Map::get` for votes: the value paired with the key, or `None` where the key is
/// absent.
#[verifier::external_body]
pub(crate) fn ballots_get(
    m: &soroban_sdk::Map<u64, (u64, u32, i128, u64)>,
    key: u64,
) -> (value: Option<(u64, u32, i128, u64)>)
    ensures
        value == if ballot_entries(*m).contains_key(key) {
            Some(ballot_entries(*m)[key])
        } else {
            None
        },
{
    m.get(key)
}

/// `soroban_sdk::Map::set` for votes: the key is paired with the value, and with no other.
#[verifier::external_body]
pub(crate) fn ballots_set(
    m: &mut soroban_sdk::Map<u64, (u64, u32, i128, u64)>,
    key: u64,
    value: (u64, u32, i128, u64),
)
    ensures
        ballot_entries(*final(m)) == ballot_entries(*old(m)).insert(key, value),
{
    m.set(key, value)
}

/// `soroban_sdk::Map::contains_key` for votes: whether the key is paired with a value.
#[verifier::external_body]
pub(crate) fn ballots_contains_key(
    m: &soroban_sdk::Map<u64, (u64, u32, i128, u64)>,
    key: u64,
) -> (found: bool)
    ensures
        found == ballot_entries(*m).contains_key(key),
{
    m.contains_key(key)
}

/// `soroban_sdk::Map::clone` for votes: another handle to the same pairs.
#[verifier::external_body]
pub(crate) fn ballots_clone(m: &soroban_sdk::Map<u64, (u64, u32, i128, u64)>) -> (w:
    soroban_sdk::Map<u64, (u64, u32, i128, u64)>)
    ensures
        ballot_entries(w) == ballot_entries(*m),
{
    m.clone()
}

/// A list of numbers held by the host: proposal numbers, or accounts.
#[derive(Debug, PartialEq, Eq)]
pub struct IdList {
    items: soroban_sdk::Vec<u64>,
}

impl View for IdList {
    type V = Seq<u64>;

    closed spec fn view(&self) -> Seq<u64> {
        listed(self.items)
    }
}

impl Clone for IdList {
    fn clone(&self) -> (copy: Self)
        ensures
            copy@ == self@,
    {
        proof {
            use_type_invariant(self);
        }
        IdList { items: vec_clone(&self.items) }
    }
}

impl IdList {
    #[verifier::type_invariant]
    spec fn length_is_u32(self) -> bool {
        listed(self.items).len() <= u32::MAX
    }

    /// An empty list.
    pub fn new(env: &Env) -> (list: IdList)
        ensures
            list@ == Seq::<u64>::empty(),
    {
        IdList { items: vec_new(env) }
    }

    /// The number of items.
    pub fn len(&self) -> (n: u32)
        ensures
            n == self@.len(),
    {
        proof {
            use_type_invariant(self);
        }
        vec_len(&self.items)
    }

    /// Whether there are no items.
    pub fn is_empty(&self) -> (empty: bool)
        ensures
            empty == (self@.len() == 0),
    {
        self.len() == 0
    }

    /// The item at `i`, or `None` past the end.
    pub fn get(&self, i: u32) -> (item: Option<u64>)
        ensures
            item == if i < self@.len() {
                Some(self@[i as int])
            } else {
                None
            },
    {
        proof {
            use_type_invariant(self);
        }
        vec_get(&self.items, i)
    }

    /// Puts an item after all others.
    pub fn push_back(&mut self, item: u64)
        requires
            old(self)@.len() < u32::MAX,
        ensures
            final(self)@ == old(self)@.push(item),
    {
        let mut items = vec_clone(&self.items);
        vec_push_back(&mut items, item);
        self.items = items;
    }
}

/// An amount for each of a number of accounts or assets, held by the host.
#[derive(Debug, PartialEq, Eq)]
pub struct Amounts {
    entries: soroban_sdk::Map<u64, i128>,
}

impl View for Amounts {
    type V = Map<u64, i128>;

    closed spec fn view(&self) -> Map<u64, i128> {
        amounts(self.entries)
    }
}

/// The amount under `key`, zero where there is none.
pub open spec fn amount_of(m: Map<u64, i128>, key: u64) -> i128 {
    if m.contains_key(key) {
        m[key]
    } else {
        0
    }
}

impl Amounts {
    /// No amounts.
    pub fn new(env: &Env) -> (amounts: Amounts)
        ensures
            amounts@ == Map::<u64, i128>::empty(),
    {
        Amounts { entries: map_new(env) }
    }

    /// The amount under `key`, or `None` where there is none.
    pub fn get(&self, key: u64) -> (value: Option<i128>)
        ensures
            value == if self@.contains_key(key) {
                Some(self@[key])
            } else {
                None
            },
    {
        map_get(&self.entries, key)
    }

    /// The amount under `key`, zero where there is none.
    pub fn amount(&self, key: u64) -> (value: i128)
        ensures
            value == amount_of(self@, key),
    {
        match self.get(key) {
            Some(value) => value,
            None => 0,
        }
    }

    /// Puts `value` under `key`, in place of what was there.
    pub fn set(&mut self, key: u64, value: i128)
        ensures
            final(self)@ == old(self)@.insert(key, value),
    {
        map_set(&mut self.entries, key, value);
    }
}

/// Gives the parameter `name` the value `value`.
pub fn set_parameter(
    parameters: &mut soroban_sdk::Map<soroban_sdk::String, i128>,
    name: &ByteString,
    value: i128,
)
    ensures
        parameter_values(*final(parameters)) == parameter_values(*old(parameters)).insert(
            name@,
            value,
        ),
{
    parameters_set(parameters, name.as_slice(), value);
}

/// Switches the feature `name` on or off.
pub fn set_feature(
    features: &mut soroban_sdk::Map<soroban_sdk::String, bool>,
    name: &ByteString,
    enabled: bool,
)
    ensures
        feature_flags(*final(features)) == feature_flags(*old(features)).insert(name@, enabled),
{
    features_set(features, name.as_slice(), enabled);
}

/// Records the approved code hash of the contract `name`.
pub fn set_upgrade(
    upgrades: &mut soroban_sdk::Map<soroban_sdk::String, soroban_sdk::Bytes>,
    name: &ByteString,
    hash: &ByteString,
)
    ensures
        upgrade_hashes(*final(upgrades)) == upgrade_hashes(*old(upgrades)).insert(name@, hash@),
{
    upgrades_set(upgrades, name.as_slice(), hash.as_slice());
}

} // verus!
