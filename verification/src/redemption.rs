//! Fee redemptions: what each validator has redeemed in all, in a table of eight slots.

use crate::error::FoldError;
use crate::events::FeeRedeemed;
use crate::persistent::{sum_entries, sums_get, sums_insert, sums_new, sums_walk, SumMap};
use crate::word::{pow2_256, Address, Uint256};
use vstd::prelude::*;

verus! {

/// The number of validators that the contract has slots for.
pub const MAX_VALIDATORS: usize = 8;

/// What one validator has redeemed in all.
#[derive(Clone, Copy, Debug, PartialEq, Eq)]
pub struct ValidatorRedemption {
    pub validator: Address,
    pub amount: Uint256,
}

/// What `validator` has redeemed in the first `n` events.
pub open spec fn redeemed_before(events: Seq<FeeRedeemed>, n: nat, validator: Address) -> nat
    decreases n,
{
    if n == 0 {
        0
    } else {
        let last = events[n - 1];
        redeemed_before(events, (n - 1) as nat, validator) + if last.validator == validator {
            last.amount.value()
        } else {
            0
        }
    }
}

/// What `validator` has redeemed in all the events.
pub open spec fn redeemed_total(events: Seq<FeeRedeemed>, validator: Address) -> nat {
    redeemed_before(events, events.len(), validator)
}

/// Whether one of the first `n` events is a redemption by `validator`.
pub open spec fn redeems_before(events: Seq<FeeRedeemed>, n: int, validator: Address) -> bool {
    exists|k: int| 0 <= k < n && k < events.len() && #[trigger] events[k].validator == validator
}

/// The validators that have redeemed.
pub open spec fn validators_of(events: Seq<FeeRedeemed>) -> Set<Address> {
    events.map_values(|event: FeeRedeemed| event.validator).to_set()
}

/// Whether more validators have redeemed than there are slots.
pub open spec fn too_many_validators(events: Seq<FeeRedeemed>) -> bool {
    validators_of(events).len() > MAX_VALIDATORS
}

/// Whether what some validator has redeemed in all does not fit in 256 bits.
pub open spec fn total_overflows(events: Seq<FeeRedeemed>) -> bool {
    exists|validator: Address| #[trigger] redeemed_total(events, validator) >= pow2_256()
}

/// Whether one of the first `used` slots is that of `validator`.
pub open spec fn has_slot(
    slots: Seq<Option<ValidatorRedemption>>,
    used: int,
    validator: Address,
) -> bool {
    exists|j: int|
        0 <= j < used && j < slots.len() && (#[trigger] slots[j]).is_some()
            && slots[j].unwrap().validator == validator
}

/// Whether `slots` is the table of the events: one slot for each validator that has redeemed,
/// with what it has redeemed in all, in ascending order of the addresses from the first slot
/// on, and the slots after them empty.
pub open spec fn is_redemption_table(
    slots: Seq<Option<ValidatorRedemption>>,
    events: Seq<FeeRedeemed>,
) -> bool {
    let used = validators_of(events).len();
    &&& slots.len() == MAX_VALIDATORS
    &&& used <= MAX_VALIDATORS
    &&& forall|j: int| 0 <= j < slots.len() ==> ((#[trigger] slots[j]).is_some() <==> j < used)
    &&& forall|j: int|
        0 <= j < used ==> {
            let slot = (#[trigger] slots[j]).unwrap();
            &&& validators_of(events).contains(slot.validator)
            &&& slot.amount.value() == redeemed_total(events, slot.validator)
        }
    &&& forall|validator: Address| #[trigger]
        validators_of(events).contains(validator) ==> has_slot(slots, used as int, validator)
    &&& forall|i: int, j: int|
        0 <= i < j < used ==> (#[trigger] slots[i]).unwrap().validator.below(
            (#[trigger] slots[j]).unwrap().validator,
        )
}

/// The events have one table only.
pub proof fn lemma_table_unique(
    one: Seq<Option<ValidatorRedemption>>,
    other: Seq<Option<ValidatorRedemption>>,
    events: Seq<FeeRedeemed>,
)
    requires
        is_redemption_table(one, events),
        is_redemption_table(other, events),
    ensures
        one == other,
{
    let used = validators_of(events).len() as int;
    lemma_same_validators(one, other, events, used);
    assert forall|j: int| 0 <= j < one.len() implies one[j] == other[j] by {
        if j < used {
            let a = one[j].unwrap();
            let b = other[j].unwrap();
            assert(a.validator == b.validator);
            crate::word::lemma_value_injective(a.amount, b.amount);
        }
    }
    assert(one =~= other);
}

/// Two tables of the same events hold the same validator in each of the first `n` slots.
proof fn lemma_same_validators(
    one: Seq<Option<ValidatorRedemption>>,
    other: Seq<Option<ValidatorRedemption>>,
    events: Seq<FeeRedeemed>,
    n: int,
)
    requires
        is_redemption_table(one, events),
        is_redemption_table(other, events),
        0 <= n <= validators_of(events).len(),
    ensures
        forall|j: int|
            0 <= j < n ==> (#[trigger] one[j]).unwrap().validator == other[j].unwrap().validator,
    decreases n,
{
    if n > 0 {
        lemma_same_validators(one, other, events, n - 1);
        let used = validators_of(events).len() as int;
        let j = n - 1;
        let a = one[j].unwrap().validator;
        let b = other[j].unwrap().validator;
        assert(validators_of(events).contains(a));
        assert(validators_of(events).contains(b));
        assert(has_slot(other, used, a));
        assert(has_slot(one, used, b));
        let k = choose|k: int|
            0 <= k < used && k < other.len() && (#[trigger] other[k]).is_some()
                && other[k].unwrap().validator == a;
        let m = choose|m: int|
            0 <= m < used && m < one.len() && (#[trigger] one[m]).is_some()
                && one[m].unwrap().validator == b;
        if k < j {
            assert(one[k].unwrap().validator == other[k].unwrap().validator);
            assert(one[k].unwrap().validator.below(one[j].unwrap().validator));
        }
        if m < j {
            assert(one[m].unwrap().validator == other[m].unwrap().validator);
            assert(other[m].unwrap().validator.below(other[j].unwrap().validator));
        }
        if k > j {
            assert(other[j].unwrap().validator.below(other[k].unwrap().validator));
        }
        if m > j {
            assert(one[j].unwrap().validator.below(one[m].unwrap().validator));
        }
    }
}

/// Whether the entries stand in strictly ascending order of their addresses.
pub open spec fn ascending(table: Seq<ValidatorRedemption>) -> bool {
    forall|i: int, j: int|
        0 <= i < j < table.len() ==> (#[trigger] table[i]).validator.below(
            (#[trigger] table[j]).validator,
        )
}

/// A validator is among those that have redeemed exactly if one of the events is its own.
pub proof fn lemma_validators_of(events: Seq<FeeRedeemed>, validator: Address)
    ensures
        validators_of(events).contains(validator) <==> redeems_before(
            events,
            events.len() as int,
            validator,
        ),
        validators_of(events).finite(),
{
    let mapped = events.map_values(|event: FeeRedeemed| event.validator);
    vstd::seq_lib::seq_to_set_is_finite(mapped);
    if validators_of(events).contains(validator) {
        let k = choose|k: int| 0 <= k < mapped.len() && mapped[k] == validator;
        assert(events[k].validator == validator);
    }
    if redeems_before(events, events.len() as int, validator) {
        let k = choose|k: int|
            0 <= k < events.len() && k < events.len() && #[trigger] events[k].validator
                == validator;
        assert(mapped[k] == validator);
        assert(mapped.contains(validator));
    }
}

/// What a validator has redeemed never shrinks as more events are counted.
pub proof fn lemma_redeemed_grows(events: Seq<FeeRedeemed>, m: nat, n: nat, validator: Address)
    requires
        m <= n,
    ensures
        redeemed_before(events, m, validator) <= redeemed_before(events, n, validator),
    decreases n,
{
    if m < n {
        lemma_redeemed_grows(events, m, (n - 1) as nat, validator);
    }
}

/// A validator that has redeemed nothing yet has a total of zero.
pub proof fn lemma_redeemed_nothing(events: Seq<FeeRedeemed>, n: nat, validator: Address)
    requires
        n <= events.len(),
        !redeems_before(events, n as int, validator),
    ensures
        redeemed_before(events, n, validator) == 0,
    decreases n,
{
    if n > 0 {
        assert(events[n - 1].validator != validator);
        assert forall|k: int| 0 <= k < n - 1 && k < events.len() implies #[trigger] events[
            k
        ].validator != validator by {}
        lemma_redeemed_nothing(events, (n - 1) as nat, validator);
    }
}

/// Whether one of the first `n + 1` events is a redemption by `validator`: whether one of the
/// first `n` is, or the one after them.
proof fn lemma_redeems_step(events: Seq<FeeRedeemed>, n: int, validator: Address)
    requires
        0 <= n < events.len(),
    ensures
        redeems_before(events, n + 1, validator) <==> redeems_before(events, n, validator)
            || events[n].validator == validator,
{
    if redeems_before(events, n, validator) {
        let k = choose|k: int|
            0 <= k < n && k < events.len() && #[trigger] events[k].validator == validator;
        assert(0 <= k < n + 1 && events[k].validator == validator);
    }
    if events[n].validator == validator {
        assert(0 <= n < n + 1 && events[n].validator == validator);
    }
}

/// A listing without repetitions of exactly the validators that have redeemed is as long as
/// there are such validators.
proof fn lemma_count_listing(listing: Seq<Address>, events: Seq<FeeRedeemed>)
    requires
        listing.no_duplicates(),
        forall|i: int|
            0 <= i < listing.len() ==> validators_of(events).contains(#[trigger] listing[i]),
        forall|validator: Address| #[trigger]
            validators_of(events).contains(validator) ==> listing.contains(validator),
    ensures
        validators_of(events).len() == listing.len(),
{
    listing.unique_seq_to_set();
    assert(listing.to_set() =~= validators_of(events));
}

/// Whether what some validator has redeemed in the first `n` events does not fit in 256 bits.
pub open spec fn overflows_before(events: Seq<FeeRedeemed>, n: int) -> bool {
    exists|validator: Address| #[trigger]
        redeemed_before(events, n as nat, validator) >= pow2_256()
}

/// Counting one more event keeps an overflow.
proof fn lemma_overflow_stays(events: Seq<FeeRedeemed>, n: int)
    requires
        0 <= n,
        overflows_before(events, n),
    ensures
        overflows_before(events, n + 1),
{
    let validator = choose|validator: Address| #[trigger]
        redeemed_before(events, n as nat, validator) >= pow2_256();
    lemma_redeemed_grows(events, n as nat, (n + 1) as nat, validator);
}

/// The key under which the sums hold the total of `validator`.
pub open spec fn key_of(validator: Address) -> (u32, u128) {
    (validator.high, validator.low)
}

/// The validator whose total the sums hold under `key`.
pub open spec fn validator_of(key: (u32, u128)) -> Address {
    Address { high: key.0, low: key.1 }
}

/// The entry of the table that a mapping of the sums stands for.
pub open spec fn redemption_of(pair: ((u32, u128), [u64; 4])) -> ValidatorRedemption {
    ValidatorRedemption { validator: validator_of(pair.0), amount: Uint256 { limbs: pair.1 } }
}

/// Whether the sums have a mapping for exactly the validators of the first `n` events.
pub open spec fn sums_cover(
    sums: Map<(u32, u128), [u64; 4]>,
    events: Seq<FeeRedeemed>,
    n: int,
) -> bool {
    forall|key: (u32, u128)| #[trigger]
        sums.contains_key(key) <==> redeems_before(events, n, validator_of(key))
}

/// Whether each mapping of the sums holds what its validator has redeemed in the first `n`
/// events.
pub open spec fn sums_hold(
    sums: Map<(u32, u128), [u64; 4]>,
    events: Seq<FeeRedeemed>,
    n: int,
) -> bool {
    forall|key: (u32, u128)| #[trigger]
        sums.contains_key(key) ==> (Uint256 { limbs: sums[key] }).value() == redeemed_before(
            events,
            n as nat,
            validator_of(key),
        )
}

/// Adds up, validator by validator, what the events redeem. The flag says whether one of the
/// totals does not fit in 256 bits; the sums are good only where it is not set.
fn sum_redemptions(events: &Vec<FeeRedeemed>) -> (out: (SumMap, bool))
    ensures
        sums_cover(sum_entries(out.0), events@, events@.len() as int),
        !out.1 ==> sums_hold(sum_entries(out.0), events@, events@.len() as int),
        out.1 <==> total_overflows(events@),
{
    let mut sums = sums_new();
    let mut overflowed = false;
    let mut n: usize = 0;
    while n < events.len()
        invariant
            n <= events.len(),
            sums_cover(sum_entries(sums), events@, n as int),
            !overflowed ==> sums_hold(sum_entries(sums), events@, n as int),
            overflowed <==> overflows_before(events@, n as int),
        decreases events.len() - n,
    {
        let event = events[n];
        let key = (event.validator.high, event.validator.low);
        let ghost before = sum_entries(sums);
        let held = match sums_get(&sums, key) {
            Some(limbs) => Some(Uint256 { limbs: *limbs }),
            None => None,
        };
        proof {
            assert(validator_of(key) == event.validator);
            if held.is_none() {
                lemma_redeemed_nothing(events@, n as nat, event.validator);
            }
            if overflows_before(events@, n as int) {
                lemma_overflow_stays(events@, n as int);
            }
            assert(redeemed_before(events@, (n + 1) as nat, event.validator) == redeemed_before(
                events@,
                n as nat,
                event.validator,
            ) + event.amount.value());
        }
        match held {
            Some(total) => match total.checked_add(&event.amount) {
                Some(sum) => {
                    sums_insert(&mut sums, key, sum.limbs);
                },
                None => {
                    overflowed = true;
                },
            },
            None => {
                sums_insert(&mut sums, key, event.amount.limbs);
            },
        }
        proof {
            let after = sum_entries(sums);
            assert forall|other: (u32, u128)| #[trigger]
                after.contains_key(other) <==> redeems_before(
                    events@,
                    n + 1,
                    validator_of(other),
                ) by {
                lemma_redeems_step(events@, n as int, validator_of(other));
                assert(before.contains_key(other) <==> redeems_before(
                    events@,
                    n as int,
                    validator_of(other),
                ));
            }
            if !overflowed {
                assert forall|other: (u32, u128)| #[trigger] after.contains_key(other) implies (
                Uint256 { limbs: after[other] }).value() == redeemed_before(
                    events@,
                    (n + 1) as nat,
                    validator_of(other),
                ) by {
                    if other != key {
                        assert(before.contains_key(other));
                        assert(validator_of(other) != event.validator);
                    }
                }
                assert(!overflows_before(events@, n + 1)) by {
                    assert forall|validator: Address| #[trigger]
                        redeemed_before(events@, (n + 1) as nat, validator) < pow2_256() by {
                        if validator != event.validator {
                            assert(redeemed_before(events@, (n + 1) as nat, validator)
                                == redeemed_before(events@, n as nat, validator));
                        } else {
                            assert(after.contains_key(key));
                        }
                    }
                }
            }
        }
        n += 1;
    }
    proof {
        if overflowed {
            let validator = choose|validator: Address| #[trigger]
                redeemed_before(events@, n as nat, validator) >= pow2_256();
            assert(redeemed_total(events@, validator) >= pow2_256());
        }
    }
    (sums, overflowed)
}

/// The first place in the table whose address is not below `validator`: where its entry
/// stands, or where it would have to go.
fn place_of(table: &Vec<ValidatorRedemption>, validator: &Address) -> (place: usize)
    ensures
        place <= table.len(),
        forall|j: int| 0 <= j < place ==> (#[trigger] table[j]).validator.below(*validator),
        place < table.len() ==> !table[place as int].validator.below(*validator),
{
    let mut place: usize = 0;
    while place < table.len() && table[place].validator.precedes(validator)
        invariant
            place <= table.len(),
            forall|j: int| 0 <= j < place ==> (#[trigger] table[j]).validator.below(*validator),
        decreases table.len() - place,
    {
        place += 1;
    }
    place
}

/// Whether `entry` stands in the table.
pub open spec fn stands_in(table: Seq<ValidatorRedemption>, entry: ValidatorRedemption) -> bool {
    exists|j: int| 0 <= j < table.len() && #[trigger] table[j] == entry
}

/// Whether one of the first `n` pairs stands for `entry`.
pub open spec fn stood_for(
    pairs: Seq<((u32, u128), [u64; 4])>,
    n: int,
    entry: ValidatorRedemption,
) -> bool {
    exists|i: int| 0 <= i < n && i < pairs.len() && redemption_of(#[trigger] pairs[i]) == entry
}

/// Whether the table holds the entries that the first `n` pairs stand for, and no others.
pub open spec fn holds_pairs(
    table: Seq<ValidatorRedemption>,
    pairs: Seq<((u32, u128), [u64; 4])>,
    n: int,
) -> bool {
    &&& forall|j: int| 0 <= j < table.len() ==> stood_for(pairs, n, #[trigger] table[j])
    &&& forall|i: int|
        0 <= i < n && i < pairs.len() ==> stands_in(table, redemption_of(#[trigger] pairs[i]))
}

/// Lays the sums out in ascending order of the validators' addresses.
fn sorted_table(pairs: &Vec<((u32, u128), [u64; 4])>) -> (table: Vec<ValidatorRedemption>)
    requires
        forall|i: int, j: int|
            0 <= i < j < pairs@.len() ==> (#[trigger] pairs@[i]).0 != (#[trigger] pairs@[j]).0,
    ensures
        table@.len() == pairs@.len(),
        ascending(table@),
        holds_pairs(table@, pairs@, pairs@.len() as int),
{
    let mut table: Vec<ValidatorRedemption> = Vec::new();
    let mut n: usize = 0;
    while n < pairs.len()
        invariant
            n <= pairs.len(),
            table@.len() == n,
            ascending(table@),
            holds_pairs(table@, pairs@, n as int),
            forall|i: int, j: int|
                0 <= i < j < pairs@.len() ==> (#[trigger] pairs@[i]).0 != (#[trigger] pairs@[j]).0,
        decreases pairs.len() - n,
    {
        let pair = pairs[n];
        let entry = ValidatorRedemption {
            validator: Address { high: pair.0.0, low: pair.0.1 },
            amount: Uint256 { limbs: pair.1 },
        };
        let place = place_of(&table, &entry.validator);
        let ghost before = table@;
        proof {
            assert(entry == redemption_of(pairs@[n as int]));
            assert forall|j: int| 0 <= j < before.len() implies (#[trigger] before[j]).validator
                != entry.validator by {
                assert(stood_for(pairs@, n as int, before[j]));
                let i = choose|i: int|
                    0 <= i < n && i < pairs@.len() && redemption_of(#[trigger] pairs@[i])
                        == before[j];
                assert(pairs@[i].0 != pairs@[n as int].0);
            }
        }
        table.insert(place, entry);
        proof {
            assert forall|i: int, j: int| 0 <= i < j < table@.len() implies (
            #[trigger] table@[i]).validator.below((#[trigger] table@[j]).validator) by {
                if j < place {
                    assert(before[i].validator.below(before[j].validator));
                } else if j == place {
                    assert(before[i].validator.below(entry.validator));
                } else if i < place {
                    assert(before[i].validator.below(before[j - 1].validator));
                } else if i == place {
                    assert(!before[place as int].validator.below(entry.validator));
                    assert(before[place as int].validator != entry.validator);
                    if j - 1 > place {
                        assert(before[place as int].validator.below(before[j - 1].validator));
                    }
                } else {
                    assert(before[i - 1].validator.below(before[j - 1].validator));
                }
            }
            assert forall|j: int| 0 <= j < table@.len() implies stood_for(
                pairs@,
                n + 1,
                #[trigger] table@[j],
            ) by {
                if j == place {
                    assert(redemption_of(pairs@[n as int]) == table@[j]);
                } else {
                    let old_j = if j < place {
                        j
                    } else {
                        j - 1
                    };
                    assert(stood_for(pairs@, n as int, before[old_j]));
                    let i = choose|i: int|
                        0 <= i < n && i < pairs@.len() && redemption_of(#[trigger] pairs@[i])
                            == before[old_j];
                    assert(redemption_of(pairs@[i]) == table@[j]);
                }
            }
            assert forall|i: int| 0 <= i < n + 1 && i < pairs@.len() implies stands_in(
                table@,
                redemption_of(#[trigger] pairs@[i]),
            ) by {
                if i == n {
                    assert(table@[place as int] == redemption_of(pairs@[i]));
                } else {
                    assert(stands_in(before, redemption_of(pairs@[i])));
                    let old_j = choose|j: int|
                        0 <= j < before.len() && #[trigger] before[j] == redemption_of(pairs@[i]);
                    if old_j < place {
                        assert(table@[old_j] == redemption_of(pairs@[i]));
                    } else {
                        assert(table@[old_j + 1] == redemption_of(pairs@[i]));
                    }
                }
            }
        }
        n += 1;
    }
    table
}

/// Adds up the redemptions of each validator and lays the totals out in the table of eight
/// slots, in ascending order of the validators' addresses.
///
/// Fails with `TooManyValidators` where more than eight validators have redeemed, and
/// otherwise with `AmountOverflow` where the total of one of them does not fit in 256 bits.
pub fn aggregate_redemptions(events: &Vec<FeeRedeemed>) -> (out: Result<
    [Option<ValidatorRedemption>; 8],
    FoldError,
>)
    ensures
        too_many_validators(events@) ==> out matches Err(FoldError::TooManyValidators),
        !too_many_validators(events@) && total_overflows(events@) ==> out matches Err(
            FoldError::AmountOverflow,
        ),
        !too_many_validators(events@) && !total_overflows(events@) ==> (out matches Ok(slots)
            && is_redemption_table(slots@, events@)),
{
    let (sums, overflowed) = sum_redemptions(events);
    let pairs = sums_walk(&sums);
    proof {
        let listing = pairs@.map_values(|pair: ((u32, u128), [u64; 4])| validator_of(pair.0));
        assert forall|i: int, j: int|
            0 <= i < listing.len() && 0 <= j < listing.len() && i != j implies listing[i]
            != listing[j] by {
            if i < j {
                assert(pairs@[i].0 != pairs@[j].0);
            } else {
                assert(pairs@[j].0 != pairs@[i].0);
            }
        }
        assert forall|i: int| 0 <= i < listing.len() implies validators_of(events@).contains(
            #[trigger] listing[i],
        ) by {
            assert(sum_entries(sums).contains_key(pairs@[i].0));
            lemma_validators_of(events@, listing[i]);
        }
        assert forall|validator: Address| #[trigger]
            validators_of(events@).contains(validator) implies listing.contains(validator) by {
            lemma_validators_of(events@, validator);
            assert(validator_of(key_of(validator)) == validator);
            assert(sum_entries(sums).contains_key(key_of(validator)));
            let i = choose|i: int|
                0 <= i < pairs@.len() && (#[trigger] pairs@[i]).0 == key_of(validator);
            assert(listing[i] == validator);
        }
        lemma_count_listing(listing, events@);
    }
    if pairs.len() > MAX_VALIDATORS {
        return Err(FoldError::TooManyValidators);
    }
    if overflowed {
        return Err(FoldError::AmountOverflow);
    }
    let table = sorted_table(&pairs);
    let mut slots: [Option<ValidatorRedemption>; 8] = [None;8];
    let mut j: usize = 0;
    while j < table.len()
        invariant
            j <= table.len() <= MAX_VALIDATORS,
            forall|i: int| 0 <= i < j ==> slots@[i] == Some(table@[i]),
            forall|i: int| j <= i < MAX_VALIDATORS ==> slots@[i].is_none(),
        decreases table.len() - j,
    {
        slots[j] = Some(table[j]);
        j += 1;
    }
    proof {
        let used = table@.len() as int;
        assert forall|j: int| 0 <= j < used implies {
            let slot = (#[trigger] slots@[j]).unwrap();
            &&& validators_of(events@).contains(slot.validator)
            &&& slot.amount.value() == redeemed_total(events@, slot.validator)
        } by {
            assert(stood_for(pairs@, pairs@.len() as int, table@[j]));
            let i = choose|i: int|
                0 <= i < pairs@.len() && i < pairs@.len() && redemption_of(#[trigger] pairs@[i])
                    == table@[j];
            assert(sum_entries(sums).contains_pair(pairs@[i].0, pairs@[i].1));
            assert(sum_entries(sums).contains_key(pairs@[i].0));
            lemma_validators_of(events@, validator_of(pairs@[i].0));
        }
        assert forall|validator: Address| #[trigger]
            validators_of(events@).contains(validator) implies has_slot(
            slots@,
            used,
            validator,
        ) by {
            lemma_validators_of(events@, validator);
            assert(validator_of(key_of(validator)) == validator);
            assert(sum_entries(sums).contains_key(key_of(validator)));
            let i = choose|i: int|
                0 <= i < pairs@.len() && (#[trigger] pairs@[i]).0 == key_of(validator);
            assert(stands_in(table@, redemption_of(pairs@[i])));
            let j = choose|j: int|
                0 <= j < table@.len() && #[trigger] table@[j] == redemption_of(pairs@[i]);
            assert(slots@[j] == Some(table@[j]));
        }
        assert forall|i: int, j: int| 0 <= i < j < used implies (
        #[trigger] slots@[i]).unwrap().validator.below(
            (#[trigger] slots@[j]).unwrap().validator,
        ) by {
            assert(table@[i].validator.below(table@[j].validator));
        }
    }
    Ok(slots)
}

} // verus!
