//! Where and whether a ledger is saved: a bounded pool of numbered file names,
//! the choice of the first free one, and the errors of saving and loading.
use vstd::prelude::*;
use vstd::string::StringExecFns;
use crate::decimal::{decimal_of, decimal_text};

verus! {

/// The number of file names that a save tries.
pub const SAVE_SLOT_COUNT: u32 = 20;

/// What a look at one candidate file name found.
#[derive(Debug, Clone, Copy, PartialEq, Eq, Structural)]
pub enum SlotProbe {
    /// A file of that name exists.
    Taken,
    /// No file of that name exists.
    Free,
    /// Whether a file of that name exists could not be told.
    Unreadable,
}

/// Why a save did not happen.
#[derive(Debug, Clone, Copy, PartialEq, Eq, Structural)]
pub enum SaveError {
    /// Every candidate name was taken or could not be checked.
    NoSlotAvailable,
    /// Creating or writing the file failed.
    IoError,
}

/// Why a load did not happen. In every case the session is left as it was.
#[derive(Debug, Clone, Copy, PartialEq, Eq, Structural)]
pub enum LoadError {
    /// No file at the given path.
    NotFound,
    /// The content is not a record of two parallel sequences.
    InvalidData,
    /// Reading the file failed.
    IoError,
}

/// The index of the first free slot among `probes`, if any.
pub open spec fn first_free(probes: Seq<SlotProbe>) -> Option<nat>
    decreases probes.len(),
{
    if probes.len() == 0 {
        None
    } else {
        match first_free(probes.drop_last()) {
            Some(i) => Some(i),
            None => if probes.last() is Free {
                Some((probes.len() - 1) as nat)
            } else {
                None
            },
        }
    }
}

/// `first_free` finds the earliest free slot, and none only when no slot is
/// free.
pub proof fn lemma_first_free(probes: Seq<SlotProbe>)
    ensures
        first_free(probes) matches Some(i) ==> i < probes.len() && probes[i as int] is Free
            && forall|j: int| 0 <= j < i ==> !(#[trigger] probes[j] is Free),
        first_free(probes) is None ==> forall|j: int|
            0 <= j < probes.len() ==> !(#[trigger] probes[j] is Free),
    decreases probes.len(),
{
    if probes.len() > 0 {
        lemma_first_free(probes.drop_last());
        let init = probes.drop_last();
        assert forall|j: int| 0 <= j < init.len() implies init[j] == probes[j] by {}
    }
}

/// Picks the slot to save into: the first one found free.
pub fn first_free_slot(probes: &Vec<SlotProbe>) -> (r: Option<usize>)
    ensures
        r matches Some(i) ==> first_free(probes@) == Some(i as nat),
        r is None ==> first_free(probes@) is None,
{
    proof {
        lemma_first_free(probes@);
    }
    let mut i: usize = 0;
    while i < probes.len()
        invariant
            i <= probes@.len(),
            forall|j: int| 0 <= j < i ==> !(#[trigger] probes@[j] is Free),
        decreases probes@.len() - i,
    {
        if probes[i] == SlotProbe::Free {
            proof {
                lemma_first_free(probes@);
                assert(probes@[i as int] is Free);
                if first_free(probes@) is Some {
                    let k = first_free(probes@)->Some_0;
                    if k < i {
                        assert(!(probes@[k as int] is Free));
                    }
                }
            }
            return Some(i);
        }
        i = i + 1;
    }
    None
}

/// A bounded pool of file names: a stem, a slot number and an extension.
pub struct SlotPool {
    stem: String,
    extension: String,
    count: u32,
}

impl SlotPool {
    pub closed spec fn stem_view(&self) -> Seq<char> {
        self.stem@
    }

    pub closed spec fn extension_view(&self) -> Seq<char> {
        self.extension@
    }

    pub closed spec fn size(&self) -> nat {
        self.count as nat
    }

    /// The name of slot `i`.
    pub open spec fn name_of(&self, i: nat) -> Seq<char> {
        self.stem_view() + decimal_of(i) + self.extension_view()
    }

    /// A pool of `count` names `<stem><n><extension>`, for `n` from zero.
    pub fn new(stem: &str, extension: &str, count: u32) -> (r: Self)
        ensures
            r.stem_view() == stem@,
            r.extension_view() == extension@,
            r.size() == count,
    {
        SlotPool { stem: String::from_str(stem), extension: String::from_str(extension), count }
    }

    /// The pool of session files: `data0.ron` to `data19.ron`.
    pub fn session_files() -> (r: Self)
        ensures
            r.stem_view() == "data"@,
            r.extension_view() == ".ron"@,
            r.size() == SAVE_SLOT_COUNT,
    {
        SlotPool::new("data", ".ron", SAVE_SLOT_COUNT)
    }

    pub fn count(&self) -> (r: u32)
        ensures
            r == self.size(),
    {
        self.count
    }

    /// The name of slot `index`.
    pub fn slot_name(&self, index: u32) -> (r: String)
        ensures
            r@ == self.name_of(index as nat),
    {
        let digits = decimal_text(index);
        let name = self.stem.clone().concat(digits.as_str()).concat(self.extension.as_str());
        name
    }

    /// Every name of the pool, in slot order.
    pub fn slot_names(&self) -> (r: Vec<String>)
        ensures
            r@.len() == self.size(),
            forall|i: int| 0 <= i < r@.len() ==> (#[trigger] r@[i])@ == self.name_of(i as nat),
    {
        let mut names: Vec<String> = Vec::new();
        let mut i: u32 = 0;
        while i < self.count
            invariant
                i <= self.size(),
                names@.len() == i,
                forall|j: int| 0 <= j < names@.len() ==> (#[trigger] names@[j])@ == self.name_of(
                    j as nat,
                ),
            decreases self.size() - i,
        {
            names.push(self.slot_name(i));
            i = i + 1;
        }
        names
    }
}

/// What the probes of a pool show when the files in `taken` exist.
pub open spec fn probes_of(taken: Seq<bool>) -> Seq<SlotProbe> {
    Seq::new(taken.len(), |i: int| if taken[i] { SlotProbe::Taken } else { SlotProbe::Free })
}

/// The files that exist after one more save.
pub open spec fn after_save(taken: Seq<bool>) -> Seq<bool> {
    match first_free(probes_of(taken)) {
        Some(i) => taken.update(i as int, true),
        None => taken,
    }
}

/// The files that exist after `k` more saves.
pub open spec fn after_saves(taken: Seq<bool>, k: nat) -> Seq<bool>
    decreases k,
{
    if k == 0 {
        taken
    } else {
        after_save(after_saves(taken, (k - 1) as nat))
    }
}

/// The number of slots taken.
pub open spec fn taken_count(taken: Seq<bool>) -> nat
    decreases taken.len(),
{
    if taken.len() == 0 {
        0
    } else {
        taken_count(taken.drop_last()) + if taken.last() {
            1nat
        } else {
            0nat
        }
    }
}

proof fn lemma_taken_count_bound(taken: Seq<bool>)
    ensures
        taken_count(taken) <= taken.len(),
        taken_count(taken) == taken.len() ==> forall|j: int| 0 <= j < taken.len() ==> #[trigger] taken[j],
    decreases taken.len(),
{
    if taken.len() > 0 {
        let init = taken.drop_last();
        lemma_taken_count_bound(init);
        assert forall|j: int| 0 <= j < init.len() implies init[j] == taken[j] by {}
    }
}

proof fn lemma_taken_count_update(taken: Seq<bool>, i: int)
    requires
        0 <= i < taken.len(),
        !taken[i],
    ensures
        taken_count(taken.update(i, true)) == taken_count(taken) + 1,
    decreases taken.len(),
{
    let u = taken.update(i, true);
    if i == taken.len() - 1 {
        assert(u.drop_last() =~= taken.drop_last());
    } else {
        assert(u.drop_last() =~= taken.drop_last().update(i, true));
        lemma_taken_count_update(taken.drop_last(), i);
    }
}

proof fn lemma_saves_fill(taken: Seq<bool>, k: nat)
    ensures
        after_saves(taken, k).len() == taken.len(),
        taken_count(after_saves(taken, k)) >= if taken_count(taken) + k <= taken.len() {
            (taken_count(taken) + k) as int
        } else {
            taken.len() as int
        },
    decreases k,
{
    if k > 0 {
        let prev = after_saves(taken, (k - 1) as nat);
        lemma_saves_fill(taken, (k - 1) as nat);
        lemma_first_free(probes_of(prev));
        lemma_taken_count_bound(prev);
        match first_free(probes_of(prev)) {
            Some(i) => {
                lemma_taken_count_update(prev, i as int);
            },
            None => {
                assert forall|j: int| 0 <= j < prev.len() implies #[trigger] prev[j] by {
                    assert(!(probes_of(prev)[j] is Free));
                }
                assert(taken_count(prev) == prev.len()) by {
                    lemma_all_taken_count(prev);
                }
            },
        }
        lemma_taken_count_bound(after_saves(taken, k));
    }
}

proof fn lemma_all_taken_count(taken: Seq<bool>)
    requires
        forall|j: int| 0 <= j < taken.len() ==> #[trigger] taken[j],
    ensures
        taken_count(taken) == taken.len(),
    decreases taken.len(),
{
    if taken.len() > 0 {
        let init = taken.drop_last();
        assert forall|j: int| 0 <= j < init.len() implies #[trigger] init[j] by {
            assert(init[j] == taken[j]);
        }
        lemma_all_taken_count(init);
    }
}

/// Saving again and again without removing files runs out of slots: after as
/// many saves as the pool has slots, whatever existed before, no slot is
/// free and the next save finds none.
pub proof fn lemma_repeated_saves_exhaust_pool(taken: Seq<bool>, k: nat)
    requires
        k >= taken.len(),
    ensures
        first_free(probes_of(after_saves(taken, k))) is None,
{
    let last = after_saves(taken, k);
    lemma_saves_fill(taken, k);
    lemma_taken_count_bound(taken);
    lemma_taken_count_bound(last);
    lemma_first_free(probes_of(last));
    if first_free(probes_of(last)) is Some {
        let i = first_free(probes_of(last))->Some_0;
        assert(last[i as int]);
    }
}

} // verus!
