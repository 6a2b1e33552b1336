//! The persistent hash maps that the ledger and the sums of redemptions are kept in.
//!
//! The maps are those of the `im` crate. Nothing in this file is proved: each function makes
//! one call into that crate and states what the call does, over the mappings that a map
//! holds. The rest of the library is proved from these statements.

use vstd::prelude::*;

verus! {

/// `im::HashMap`, the persistent hash map. Nothing is known of what lies inside a value of it
/// but what the functions below say.
#[verifier::external_type_specification]
#[verifier::external_body]
#[verifier::reject_recursive_types(K)]
#[verifier::reject_recursive_types(V)]
#[verifier::reject_recursive_types(S)]
pub struct ExPersistentMap<K, V, S>(im::HashMap<K, V, S>);

/// Epoch index to executed flag: the innermost level.
pub type EpochMap = im::HashMap<u64, bool>;

/// Input index to the epochs under it: the middle level.
pub type InputMap = im::HashMap<u64, im::HashMap<u64, bool>>;

/// Voucher index to the inputs under it: the outermost level.
pub type VoucherMap = im::HashMap<u64, im::HashMap<u64, im::HashMap<u64, bool>>>;

/// The mappings held by an innermost map.
pub uninterp spec fn epoch_entries(m: im::HashMap<u64, bool>) -> Map<u64, bool>;

/// The mappings held by a middle map, each inner map taken by its own mappings.
pub uninterp spec fn input_entries(m: im::HashMap<u64, im::HashMap<u64, bool>>) -> Map<
    u64,
    Map<u64, bool>,
>;

/// The mappings held by an outermost map, each inner map taken by its own mappings.
pub uninterp spec fn voucher_entries(
    m: im::HashMap<u64, im::HashMap<u64, im::HashMap<u64, bool>>>,
) -> Map<u64, Map<u64, Map<u64, bool>>>;

/// `im::HashMap::new` at the innermost level: the map it returns holds no mapping.
#[verifier::external_body]
pub(crate) fn epochs_new() -> (out: EpochMap)
    ensures
        epoch_entries(out) =~= Map::empty(),
{
    im::HashMap::new()
}

/// `im::HashMap::new` at the middle level: the map it returns holds no mapping.
#[verifier::external_body]
pub(crate) fn inputs_new() -> (out: InputMap)
    ensures
        input_entries(out) =~= Map::empty(),
{
    im::HashMap::new()
}

/// `im::HashMap::new` at the outermost level: the map it returns holds no mapping.
#[verifier::external_body]
pub(crate) fn vouchers_new() -> (out: VoucherMap)
    ensures
        voucher_entries(out) =~= Map::empty(),
{
    im::HashMap::new()
}

/// `im::HashMap::get` at the innermost level: the flag stored under `epoch`, if there is one.
#[verifier::external_body]
pub(crate) fn epochs_get(m: &EpochMap, epoch: u64) -> (found: Option<&bool>)
    ensures
        found.is_some() == epoch_entries(*m).contains_key(epoch),
        found.is_some() ==> *found.unwrap() == epoch_entries(*m)[epoch],
{
    m.get(&epoch)
}

/// `im::HashMap::get` at the middle level: the epochs stored under `input`, if there are any.
#[verifier::external_body]
pub(crate) fn inputs_get(m: &InputMap, input: u64) -> (found: Option<&EpochMap>)
    ensures
        found.is_some() == input_entries(*m).contains_key(input),
        found.is_some() ==> epoch_entries(*found.unwrap()) == input_entries(*m)[input],
{
    m.get(&input)
}

/// `im::HashMap::get` at the outermost level: the inputs stored under `voucher`, if there are
/// any.
#[verifier::external_body]
pub(crate) fn vouchers_get(m: &VoucherMap, voucher: u64) -> (found: Option<&InputMap>)
    ensures
        found.is_some() == voucher_entries(*m).contains_key(voucher),
        found.is_some() ==> input_entries(*found.unwrap()) == voucher_entries(*m)[voucher],
{
    m.get(&voucher)
}

/// `im::HashMap::update` at the innermost level: a new map that holds the mappings of `m` and
/// the given one, which replaces an earlier mapping of the same key. `m` itself is untouched.
#[verifier::external_body]
pub(crate) fn epochs_update(m: &EpochMap, epoch: u64, executed: bool) -> (out: EpochMap)
    ensures
        epoch_entries(out) == epoch_entries(*m).insert(epoch, executed),
{
    m.update(epoch, executed)
}

/// `im::HashMap::update` at the middle level: a new map that holds the mappings of `m` and the
/// given one, which replaces an earlier mapping of the same key. `m` itself is untouched.
#[verifier::external_body]
pub(crate) fn inputs_update(m: &InputMap, input: u64, epochs: EpochMap) -> (out: InputMap)
    ensures
        input_entries(out) == input_entries(*m).insert(input, epoch_entries(epochs)),
{
    m.update(input, epochs)
}

/// `im::HashMap::update` at the outermost level: a new map that holds the mappings of `m` and
/// the given one, which replaces an earlier mapping of the same key. `m` itself is untouched.
#[verifier::external_body]
pub(crate) fn vouchers_update(m: &VoucherMap, voucher: u64, inputs: InputMap) -> (out: VoucherMap)
    ensures
        voucher_entries(out) == voucher_entries(*m).insert(voucher, input_entries(inputs)),
{
    m.update(voucher, inputs)
}

/// `Clone::clone` of `im::HashMap`: the copy holds the mappings of the map it was taken from.
#[verifier::external_body]
pub(crate) fn vouchers_clone(m: &VoucherMap) -> (out: VoucherMap)
    ensures
        voucher_entries(out) == voucher_entries(*m),
{
    m.clone()
}

/// Validator to total: keyed by the top 32 and the low 128 bits of the address, and holding
/// the four limbs of the total, least significant first.
pub type SumMap = im::HashMap<(u32, u128), [u64; 4]>;

/// The mappings held by a map of sums.
pub uninterp spec fn sum_entries(m: im::HashMap<(u32, u128), [u64; 4]>) -> Map<
    (u32, u128),
    [u64; 4],
>;

/// Whether `pairs` lists each mapping of `entries` once, and nothing else, in some order.
pub open spec fn lists_each_once(
    pairs: Seq<((u32, u128), [u64; 4])>,
    entries: Map<(u32, u128), [u64; 4]>,
) -> bool {
    &&& forall|i: int|
        0 <= i < pairs.len() ==> entries.contains_pair((#[trigger] pairs[i]).0, pairs[i].1)
    &&& forall|key: (u32, u128)| #[trigger]
        entries.contains_key(key) ==> exists|i: int|
            0 <= i < pairs.len() && (#[trigger] pairs[i]).0 == key
    &&& forall|i: int, j: int|
        0 <= i < j < pairs.len() ==> (#[trigger] pairs[i]).0 != (#[trigger] pairs[j]).0
}

/// `im::HashMap::new` for the sums: the map it returns holds no mapping.
#[verifier::external_body]
pub(crate) fn sums_new() -> (out: SumMap)
    ensures
        sum_entries(out) =~= Map::empty(),
{
    im::HashMap::new()
}

/// `im::HashMap::get` for the sums: the limbs stored under `key`, if there are any.
#[verifier::external_body]
pub(crate) fn sums_get(m: &SumMap, key: (u32, u128)) -> (found: Option<&[u64; 4]>)
    ensures
        found.is_some() == sum_entries(*m).contains_key(key),
        found.is_some() ==> *found.unwrap() == sum_entries(*m)[key],
{
    m.get(&key)
}

/// `im::HashMap::insert` for the sums: the map then holds the given mapping, which replaces
/// an earlier mapping of the same key, and the mappings it held of other keys.
#[verifier::external_body]
pub(crate) fn sums_insert(m: &mut SumMap, key: (u32, u128), limbs: [u64; 4])
    ensures
        sum_entries(*final(m)) == sum_entries(*old(m)).insert(key, limbs),
{
    m.insert(key, limbs);
}

/// `im::HashMap::iter`, walked to its end: it hands out each mapping of the map once. In which
/// order is not told, and nothing is claimed of it.
#[verifier::external_body]
pub(crate) fn sums_walk(m: &SumMap) -> (out: Vec<((u32, u128), [u64; 4])>)
    ensures
        lists_each_once(out@, sum_entries(*m)),
{
    m.iter().map(|(key, limbs)| (*key, *limbs)).collect()
}

} // verus!
