//! The picker: a pool of candidate values with persisted usage counts.
//!
//! A [`RandomPicker`] is built from the candidate values, a weight policy
//! and the entries read back from the persisted log.  Reconciliation merges
//! the two: a candidate keeps its persisted count, a candidate absent from
//! the log starts at the initial count that [`InitialCountType`] prescribes,
//! and a log entry whose value is no longer a candidate is dropped.  After a
//! draw, [`RandomPicker::record_pick`] raises the chosen candidate's count
//! by exactly one and changes nothing else.
//!
//! Reading and writing the log file, evaluating the binary64 weight
//! expressions and drawing the random index are the caller's side; every
//! decision about the state itself is made and verified here.

use vstd::prelude::*;

use crate::weight::{max_of, min_of, WeightType};
use crate::weight::{max_count, min_count};

verus! {

/// One candidate value together with its usage count.
#[derive(Clone, PartialEq, Eq, Debug)]
pub struct RandomPickerItem {
    pub value: String,
    pub count: u32,
}

/// The mathematical shape of an item: the character sequence of its value
/// and its count.
#[verifier::ext_equal]
pub ghost struct ItemModel {
    pub value: Seq<char>,
    pub count: u32,
}

impl View for RandomPickerItem {
    type V = ItemModel;

    open spec fn view(&self) -> ItemModel {
        ItemModel { value: self.value@, count: self.count }
    }
}

/// The models of a sequence of items, in order.
pub open spec fn model_of(items: Seq<RandomPickerItem>) -> Seq<ItemModel> {
    items.map_values(|it: RandomPickerItem| it@)
}

/// The character sequences of a sequence of strings, in order.
pub open spec fn values_model(values: Seq<String>) -> Seq<Seq<char>> {
    values.map_values(|s: String| s@)
}

/// The counts of a sequence of item models, in order.
pub open spec fn counts_of(items: Seq<ItemModel>) -> Seq<u32> {
    items.map_values(|it: ItemModel| it.count)
}

/// The values of a sequence of item models, in order.
pub open spec fn values_of(items: Seq<ItemModel>) -> Seq<Seq<char>> {
    items.map_values(|it: ItemModel| it.value)
}

/// No two item models share a value.
pub open spec fn distinct_values(items: Seq<ItemModel>) -> bool {
    forall|i: int, j: int| 0 <= i < j < items.len() ==> items[i].value != items[j].value
}

/// The count persisted for `value`, taken from the last log entry with that
/// value, or `None` when the log holds no such entry.
pub open spec fn log_lookup(log: Seq<ItemModel>, value: Seq<char>) -> Option<u32>
    decreases log.len(),
{
    if log.len() == 0 {
        None
    } else if log.last().value == value {
        Some(log.last().count)
    } else {
        log_lookup(log.drop_last(), value)
    }
}

/// The count given to a candidate that is absent from the persisted log:
/// zero, or the least or greatest count across the log's entries.  An empty
/// log resolves to zero under every policy.
#[derive(Clone, Copy, PartialEq, Eq, Structural, Debug)]
pub enum InitialCountType {
    Zero,
    Min,
    Max,
}

impl InitialCountType {
    /// The policy used when none is configured.
    pub fn default() -> (r: InitialCountType)
        ensures
            r == InitialCountType::Zero,
    {
        InitialCountType::Zero
    }
}

/// The initial count that a policy resolves to on a given log.
pub open spec fn initial_count_of(t: InitialCountType, log: Seq<ItemModel>) -> u32 {
    match t {
        InitialCountType::Zero => 0u32,
        InitialCountType::Min => min_of(counts_of(log)),
        InitialCountType::Max => max_of(counts_of(log)),
    }
}

/// Every initial-count policy resolves an empty log to zero.
pub proof fn lemma_empty_log_initial_count(t: InitialCountType)
    ensures
        initial_count_of(t, Seq::<ItemModel>::empty()) == 0,
{
    assert(counts_of(Seq::<ItemModel>::empty()).len() == 0);
}

/// The item sequence that reconciliation returns: one item per candidate
/// value, in candidate order, carrying its persisted count where the log has
/// one and `initial` where it has none.
pub open spec fn reconciled(values: Seq<Seq<char>>, log: Seq<ItemModel>, initial: u32) -> Seq<
    ItemModel,
> {
    Seq::new(
        values.len(),
        |i: int|
            ItemModel {
                value: values[i],
                count: match log_lookup(log, values[i]) {
                    Some(c) => c,
                    None => initial,
                },
            },
    )
}

/// Looking up the value of entry `i` in a log of pairwise distinct values
/// finds exactly that entry's count.
proof fn lemma_log_lookup_at(log: Seq<ItemModel>, i: int)
    requires
        distinct_values(log),
        0 <= i < log.len(),
    ensures
        log_lookup(log, log[i].value) == Some(log[i].count),
    decreases log.len(),
{
    if i < log.len() - 1 {
        assert(log.last().value != log[i].value);
        assert(distinct_values(log.drop_last())) by {
            assert(forall|k: int|
                0 <= k < log.len() - 1 ==> log.drop_last()[k] == log[k]);
        }
        lemma_log_lookup_at(log.drop_last(), i);
        assert(log.drop_last()[i] == log[i]);
    }
}

/// Reconciling a persisted item sequence against its own values returns it
/// unchanged, whatever the initial count: persisting and reloading an
/// unchanged candidate set is a round trip.
pub proof fn lemma_reconcile_round_trip(items: Seq<ItemModel>, initial: u32)
    requires
        distinct_values(items),
    ensures
        reconciled(values_of(items), items, initial) == items,
{
    let r = reconciled(values_of(items), items, initial);
    assert forall|i: int| 0 <= i < items.len() implies r[i] =~= items[i] by {
        lemma_log_lookup_at(items, i);
    }
    assert(r =~~= items);
}

/// Why a picker could not be built or its log could not be moved.
#[derive(Clone, PartialEq, Eq, Debug)]
pub enum PickerError {
    /// Construction was attempted with no candidate values at all.
    EmptyCandidateSet,
    /// The weight policy's parameter failed validation.
    InvalidWeightPolicy { reason: String },
    /// The persisted log exists but could not be parsed.
    LogCorrupt { reason: String },
    /// The persisted log exists but could not be opened.
    LogOpenFailed { reason: String },
    /// The current state could not be written back.
    LogWriteFailed { reason: String },
}

impl PickerError {
    /// The human-readable account of the error.
    pub fn message(&self) -> (r: String)
        ensures
            self matches PickerError::EmptyCandidateSet ==> r@ == "values is empty"@,
            self matches PickerError::InvalidWeightPolicy { reason } ==> r@ == reason@,
            self matches PickerError::LogCorrupt { reason } ==> r@ == reason@,
            self matches PickerError::LogOpenFailed { reason } ==> r@ == reason@,
            self matches PickerError::LogWriteFailed { reason } ==> r@ == reason@,
    {
        match self {
            PickerError::EmptyCandidateSet => "values is empty".to_owned(),
            PickerError::InvalidWeightPolicy { reason } => reason.clone(),
            PickerError::LogCorrupt { reason } => reason.clone(),
            PickerError::LogOpenFailed { reason } => reason.clone(),
            PickerError::LogWriteFailed { reason } => reason.clone(),
        }
    }
}

/// The message that construction reports for an invalid policy parameter.
pub open spec fn policy_refusal(t: WeightType) -> Seq<char> {
    match t {
        WeightType::Linear { .. } => "bias must be positive"@,
        WeightType::Boltzmann { .. } => "beta must not be NaN"@,
        _ => Seq::<char>::empty(),
    }
}

/// The entries of an optional persisted log; a missing log reads as empty.
pub open spec fn log_model(log: Option<Vec<RandomPickerItem>>) -> Seq<ItemModel> {
    match log {
        None => Seq::<ItemModel>::empty(),
        Some(entries) => model_of(entries@),
    }
}

/// The candidate pool with its usage counts and its weight policy.
#[derive(Clone, Debug)]
pub struct RandomPicker {
    items: Vec<RandomPickerItem>,
    weight_type: WeightType,
}

impl View for RandomPicker {
    type V = Seq<ItemModel>;

    closed spec fn view(&self) -> Seq<ItemModel> {
        model_of(self.items@)
    }
}

/// The counts of the entries of an item vector.
fn collect_counts(entries: &Vec<RandomPickerItem>) -> (r: Vec<u32>)
    ensures
        r@ == counts_of(model_of(entries@)),
{
    let mut r: Vec<u32> = Vec::new();
    let mut i: usize = 0;
    while i < entries.len()
        invariant
            i <= entries@.len(),
            r@.len() == i,
            forall|j: int| 0 <= j < i ==> r@[j] == entries@[j].count,
        decreases entries@.len() - i,
    {
        r.push(entries[i].count);
        i = i + 1;
    }
    assert(r@ =~= counts_of(model_of(entries@)));
    r
}

/// The initial count that `t` resolves to on the given log entries.
fn compute_initial(t: InitialCountType, entries: &Vec<RandomPickerItem>) -> (r: u32)
    ensures
        r == initial_count_of(t, model_of(entries@)),
{
    match t {
        InitialCountType::Zero => 0,
        InitialCountType::Min => {
            if entries.len() == 0 {
                assert(counts_of(model_of(entries@)).len() == 0);
                0
            } else {
                let counts = collect_counts(entries);
                min_count(&counts)
            }
        },
        InitialCountType::Max => {
            if entries.len() == 0 {
                assert(counts_of(model_of(entries@)).len() == 0);
                0
            } else {
                let counts = collect_counts(entries);
                max_count(&counts)
            }
        },
    }
}

/// The persisted count of `value` among the log entries, if any: the last
/// entry with that value wins, as it would when the log is poured into a
/// map.
fn lookup_count(entries: &Vec<RandomPickerItem>, value: &String) -> (r: Option<u32>)
    ensures
        r == log_lookup(model_of(entries@), value@),
{
    let ghost log = model_of(entries@);
    let mut found: Option<u32> = None;
    let mut i: usize = 0;
    while i < entries.len()
        invariant
            i <= entries@.len(),
            log == model_of(entries@),
            found == log_lookup(log.subrange(0, i as int), value@),
        decreases entries@.len() - i,
    {
        assert(log.subrange(0, i + 1).drop_last() =~= log.subrange(0, i as int));
        assert(log.subrange(0, i + 1).last() == log[i as int]);
        if entries[i].value == *value {
            found = Some(entries[i].count);
        }
        i = i + 1;
    }
    assert(log.subrange(0, log.len() as int) =~= log);
    found
}

impl RandomPicker {
    /// The weight policy the picker was built with.
    pub closed spec fn policy(&self) -> WeightType {
        self.weight_type
    }

    /// Builds the picker from the candidate values, the entries read back
    /// from the persisted log (`None` when no log exists yet), the weight
    /// policy and the initial-count policy.
    ///
    /// Construction fails exactly when the candidate set is empty or the
    /// policy parameter is invalid; otherwise the items are the
    /// reconciliation of the candidates with the log.
    pub fn from_log(
        values: Vec<String>,
        log: Option<Vec<RandomPickerItem>>,
        weight_type: WeightType,
        initial_count_type: InitialCountType,
    ) -> (r: Result<RandomPicker, PickerError>)
        ensures
            r is Err <==> (values@.len() == 0 || !weight_type.valid()),
            values@.len() == 0 ==> r matches Err(PickerError::EmptyCandidateSet),
            values@.len() > 0 && !weight_type.valid() ==> (r matches Err(
                PickerError::InvalidWeightPolicy { reason },
            ) && reason@ == policy_refusal(weight_type)),
            r matches Ok(p) ==> (p@ == reconciled(
                values_model(values@),
                log_model(log),
                initial_count_of(initial_count_type, log_model(log)),
            ) && p.policy() == weight_type),
    {
        if values.len() == 0 {
            return Err(PickerError::EmptyCandidateSet);
        }
        if let Err(message) = weight_type.validate() {
            return Err(PickerError::InvalidWeightPolicy { reason: message.to_owned() });
        }

        let entries: Vec<RandomPickerItem> = match log {
            None => Vec::new(),
            Some(entries) => entries,
        };
        assert(model_of(entries@) =~= log_model(log));

        let initial = compute_initial(initial_count_type, &entries);
        let ghost target = reconciled(
            values_model(values@),
            model_of(entries@),
            initial_count_of(initial_count_type, model_of(entries@)),
        );

        let mut items: Vec<RandomPickerItem> = Vec::new();
        let mut i: usize = 0;
        while i < values.len()
            invariant
                i <= values@.len(),
                initial == initial_count_of(initial_count_type, model_of(entries@)),
                target == reconciled(
                    values_model(values@),
                    model_of(entries@),
                    initial_count_of(initial_count_type, model_of(entries@)),
                ),
                model_of(items@) =~= target.subrange(0, i as int),
            decreases values@.len() - i,
        {
            let count = match lookup_count(&entries, &values[i]) {
                Some(c) => c,
                None => initial,
            };
            let item = RandomPickerItem { value: values[i].clone(), count };
            assert(item@ =~= target[i as int]);
            let ghost prev = items@;
            items.push(item);
            proof {
                assert(model_of(prev.push(item)) =~= model_of(prev).push(item@));
                assert(target.subrange(0, i + 1) =~= target.subrange(0, i as int).push(
                    target[i as int],
                ));
                assert(model_of(items@) =~= target.subrange(0, i + 1));
            }
            i = i + 1;
        }
        assert(target.subrange(0, target.len() as int) =~= target);
        let picker = RandomPicker { items, weight_type };
        assert(picker@ == target);
        Ok(picker)
    }

    /// The items in candidate order.
    pub fn items(&self) -> (r: &Vec<RandomPickerItem>)
        ensures
            model_of(r@) == self@,
    {
        &self.items
    }

    /// The weight policy in use.
    pub fn weight_type(&self) -> (r: &WeightType)
        ensures
            *r == self.policy(),
    {
        &self.weight_type
    }

    /// The usage counts in candidate order.
    pub fn counts(&self) -> (r: Vec<u32>)
        ensures
            r@ == counts_of(self@),
    {
        let mut r: Vec<u32> = Vec::new();
        let mut i: usize = 0;
        while i < self.items.len()
            invariant
                i <= self.items@.len(),
                r@.len() == i,
                forall|j: int| 0 <= j < i ==> r@[j] == self.items@[j].count,
            decreases self.items@.len() - i,
        {
            r.push(self.items[i].count);
            i = i + 1;
        }
        assert(r@ =~= counts_of(self@));
        r
    }

    /// The value of the candidate at `index`.
    pub fn value_at(&self, index: usize) -> (r: &String)
        requires
            index < self@.len(),
        ensures
            r@ == self@[index as int].value,
    {
        &self.items[index].value
    }

    /// Records that the candidate at `index` was chosen: its count goes up
    /// by exactly one, and no other item, value or the policy changes.
    pub fn record_pick(&mut self, index: usize)
        requires
            index < old(self)@.len(),
            old(self)@[index as int].count < u32::MAX,
        ensures
            final(self)@.len() == old(self)@.len(),
            final(self)@[index as int].value == old(self)@[index as int].value,
            final(self)@[index as int].count == old(self)@[index as int].count + 1,
            forall|j: int|
                0 <= j < old(self)@.len() && j != index ==> final(self)@[j] == old(self)@[j],
            final(self).policy() == old(self).policy(),
    {
        let value = self.items[index].value.clone();
        let count = self.items[index].count;
        self.items.set(index, RandomPickerItem { value, count: count + 1 });
        assert(self@[index as int] =~= ItemModel {
            value: old(self)@[index as int].value,
            count: (old(self)@[index as int].count + 1) as u32,
        });
    }
}

} // verus!
