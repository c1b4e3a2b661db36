//! The targets of a run, and how the tool's input resolves to them.
//!
//! A run is described either by one device index and one request taken from
//! the command line, or by a configuration file that maps device indices to
//! requests. Either way the outcome is a [`Configuration`]: the devices to
//! visit and what to ask of each.
//!
//! Two choices are made here and kept throughout. Devices are visited in
//! ascending order of their index. And a request that changes nothing is an
//! error on the command line only: in a configuration file such an entry is
//! accepted, and its device is looked up without any setter being called.

use crate::error::Error;
use crate::params::Sets;
use vstd::prelude::*;

verus! {

/// One device and the changes requested for it.
#[derive(Clone, Copy, Debug, PartialEq, Eq)]
pub struct Target {
    /// Zero-based index of the device.
    pub index: u32,
    /// The changes to apply to it.
    pub sets: Sets,
}

/// Targets in strictly ascending order of their index, so that no device
/// occurs twice.
pub open spec fn ascending(entries: Seq<Target>) -> bool {
    forall|i: int, j: int| 0 <= i < j < entries.len() ==> entries[i].index < entries[j].index
}

/// The request that a list of entries holds for a device: that of the last
/// entry with the device's index, if there is one.
pub open spec fn last_for(list: Seq<Target>, index: u32) -> Option<Sets>
    decreases list.len(),
{
    if list.len() == 0 {
        None
    } else if list.last().index == index {
        Some(list.last().sets)
    } else {
        last_for(list.drop_last(), index)
    }
}

/// A mapping from device index to request, kept in ascending order of the
/// index.
#[derive(Debug, PartialEq, Eq)]
pub struct Configuration {
    targets: Vec<Target>,
}

/// What reading the configuration file came to.
#[derive(Debug, PartialEq, Eq)]
pub enum ConfigFile {
    /// There is no file at the path.
    Missing,
    /// There is a file, but it does not hold the expected mapping.
    Malformed,
    /// The entries of the file, in the order in which they were read.
    Parsed(Vec<Target>),
}

impl Configuration {
    #[verifier::type_invariant]
    spec fn sorted(&self) -> bool {
        ascending(self.targets@)
    }

    /// The targets in the order in which they are visited.
    pub closed spec fn entries(&self) -> Seq<Target> {
        self.targets@
    }

    /// The request held for a device, if the device is a target.
    pub open spec fn spec_get(&self, index: u32) -> Option<Sets> {
        last_for(self.entries(), index)
    }

    /// A configuration without targets.
    pub fn new() -> (config: Configuration)
        ensures
            config.entries() == Seq::<Target>::empty(),
    {
        Configuration { targets: Vec::new() }
    }

    /// The number of targets.
    pub fn len(&self) -> (count: usize)
        ensures
            count == self.entries().len(),
    {
        self.targets.len()
    }

    /// The targets in the order in which they are visited, which is
    /// ascending by index.
    pub fn targets(&self) -> (targets: &Vec<Target>)
        ensures
            targets@ == self.entries(),
            ascending(targets@),
    {
        proof {
            use_type_invariant(self);
        }
        &self.targets
    }

    /// The request held for a device, if the device is a target.
    pub fn get(&self, index: u32) -> (found: Option<Sets>)
        ensures
            found == self.spec_get(index),
            found matches Some(sets) ==> self.entries().contains(Target { index, sets }),
            found is None ==> forall|k: int|
                0 <= k < self.entries().len() ==> self.entries()[k].index != index,
    {
        proof {
            use_type_invariant(self);
            lemma_last_for(self.targets@, index);
        }
        let mut found: Option<Sets> = None;
        let mut at: usize = 0;
        while at < self.targets.len() && found.is_none()
            invariant
                at <= self.targets.len(),
                found is None ==> forall|k: int| 0 <= k < at ==> self.targets@[k].index != index,
                found matches Some(sets) ==> self.targets@.contains(Target { index, sets }),
            decreases self.targets.len() - at,
        {
            if self.targets[at].index == index {
                found = Some(self.targets[at].sets);
                assert(self.targets@[at as int] == (Target { index, sets: found->Some_0 }));
            }
            at += 1;
        }
        proof {
            if let Some(sets) = found {
                let k = choose|k: int|
                    0 <= k < self.targets@.len() && self.targets@[k] == (Target { index, sets });
                assert(self.targets@[k].index == index);
            }
        }
        found
    }

    /// Sets the request for a device. A request that the device already had
    /// is replaced; every other target stays as it was.
    pub fn insert(&mut self, index: u32, sets: Sets)
        ensures
            ascending(final(self).entries()),
            forall|target: Target| #[trigger]
                final(self).entries().contains(target) <==> (target == (Target { index, sets })
                    || (old(self).entries().contains(target) && target.index != index)),
    {
        proof {
            use_type_invariant(&*self);
        }
        let ghost before = self.targets@;
        let count = self.targets.len();
        let mut merged: Vec<Target> = Vec::new();
        let mut at: usize = 0;
        while at < count && self.targets[at].index < index
            invariant
                count == before.len(),
                self.targets@ == before,
                at <= count,
                merged@ == before.take(at as int),
                forall|k: int| 0 <= k < at ==> before[k].index < index,
            decreases count - at,
        {
            merged.push(self.targets[at]);
            at += 1;
            assert(merged@ =~= before.take(at as int));
        }
        let low = at;
        merged.push(Target { index, sets });
        if at < count && self.targets[at].index == index {
            at += 1;
        }
        let high = at;
        while at < count
            invariant
                count == before.len(),
                self.targets@ == before,
                low <= high <= at <= count,
                merged@ == before.take(low as int).push(Target { index, sets }) + before.subrange(
                    high as int,
                    at as int,
                ),
            decreases count - at,
        {
            merged.push(self.targets[at]);
            at += 1;
            assert(merged@ =~= before.take(low as int).push(Target { index, sets })
                + before.subrange(high as int, at as int));
        }
        proof {
            let after = merged@;
            let added = Target { index, sets };
            assert(after.len() == low + 1 + (count - high));
            assert(forall|k: int| 0 <= k < low ==> after[k] == before[k]);
            assert(after[low as int] == added);
            assert(forall|k: int| low < k < after.len() ==> after[k] == before[k - low - 1 + high]);
            assert(forall|k: int| high <= k < count ==> before[k].index > index);
            assert(ascending(after));
            assert forall|target: Target| #[trigger]
                after.contains(target) <==> (target == added || (before.contains(target)
                    && target.index != index)) by {
                if after.contains(target) {
                    let k = choose|k: int| 0 <= k < after.len() && after[k] == target;
                    if k < low {
                        assert(before[k] == target);
                    } else if k > low {
                        assert(before[k - low - 1 + high] == target);
                    }
                }
                if before.contains(target) && target.index != index {
                    let k = choose|k: int| 0 <= k < before.len() && before[k] == target;
                    if k < low {
                        assert(after[k] == target);
                    } else {
                        assert(k >= high);
                        assert(after[k - high + low + 1] == target);
                    }
                }
                if target == added {
                    assert(after[low as int] == target);
                }
            }
        }
        self.targets = merged;
    }

    /// The configuration that a list of entries stands for. Where a device
    /// occurs more than once in the list, its last entry counts.
    pub fn from_entries(list: &Vec<Target>) -> (config: Configuration)
        ensures
            ascending(config.entries()),
            forall|target: Target| #[trigger]
                config.entries().contains(target) <==> last_for(list@, target.index) == Some(
                    target.sets,
                ),
    {
        let mut config = Configuration::new();
        let mut at: usize = 0;
        while at < list.len()
            invariant
                at <= list.len(),
                ascending(config.entries()),
                forall|target: Target| #[trigger]
                    config.entries().contains(target) <==> last_for(
                        list@.take(at as int),
                        target.index,
                    ) == Some(target.sets),
            decreases list.len() - at,
        {
            let ghost seen = list@.take(at as int);
            let ghost held = config.entries();
            config.insert(list[at].index, list[at].sets);
            at += 1;
            proof {
                let now = list@.take(at as int);
                assert(now.drop_last() =~= seen);
                assert(now.last() == list@[at - 1]);
                assert forall|target: Target| #[trigger]
                    config.entries().contains(target) <==> last_for(now, target.index) == Some(
                        target.sets,
                    ) by {
                    assert(held.contains(target) <==> last_for(seen, target.index) == Some(
                        target.sets,
                    ));
                }
            }
        }
        assert(list@.take(at as int) =~= list@);
        config
    }
}

/// In a list in ascending order each device has one entry at most, so the
/// request held for a device is that of its one entry.
pub proof fn lemma_last_for(entries: Seq<Target>, index: u32)
    requires
        ascending(entries),
    ensures
        last_for(entries, index) matches Some(sets) ==> entries.contains(Target { index, sets }),
        last_for(entries, index) is None ==> forall|k: int|
            0 <= k < entries.len() ==> entries[k].index != index,
        forall|k: int|
            0 <= k < entries.len() && entries[k].index == index ==> last_for(entries, index)
                == Some(entries[k].sets),
    decreases entries.len(),
{
    if entries.len() > 0 {
        let rest = entries.drop_last();
        if entries.last().index == index {
            assert(entries[entries.len() - 1] == (Target { index, sets: entries.last().sets }));
        } else {
            lemma_last_for(rest, index);
            if let Some(sets) = last_for(rest, index) {
                let k = choose|k: int| 0 <= k < rest.len() && rest[k] == (Target { index, sets });
                assert(entries[k] == (Target { index, sets }));
            }
            assert forall|k: int| 0 <= k < entries.len() && entries[k].index == index implies last_for(
                entries,
                index,
            ) == Some(entries[k].sets) by {
                assert(rest[k] == entries[k]);
            }
        }
    }
}

/// Two configurations that hold the same targets visit them in the same
/// order: the targets determine the sequence.
pub proof fn lemma_ascending_unique(left: Seq<Target>, right: Seq<Target>)
    requires
        ascending(left),
        ascending(right),
        forall|target: Target| left.contains(target) <==> right.contains(target),
    ensures
        left == right,
    decreases left.len(),
{
    if left.len() == 0 {
        if right.len() > 0 {
            assert(right.contains(right[0]));
        }
        assert(left =~= right);
    } else {
        let top = left.last();
        assert(left.contains(top));
        assert(right.contains(top));
        let at = choose|k: int| 0 <= k < right.len() && right[k] == top;
        if at < right.len() - 1 {
            let above = right.last();
            assert(right.contains(above));
            let back = choose|k: int| 0 <= k < left.len() && left[k] == above;
            assert(left[back].index <= top.index);
        }
        let left_rest = left.drop_last();
        let right_rest = right.drop_last();
        assert forall|target: Target| left_rest.contains(target) <==> right_rest.contains(
            target,
        ) by {
            if left_rest.contains(target) {
                let k = choose|k: int| 0 <= k < left_rest.len() && left_rest[k] == target;
                assert(left[k] == target);
                assert(left.contains(target));
                let m = choose|m: int| 0 <= m < right.len() && right[m] == target;
                assert(right_rest[m] == target);
            }
            if right_rest.contains(target) {
                let k = choose|k: int| 0 <= k < right_rest.len() && right_rest[k] == target;
                assert(right[k] == target);
                assert(right.contains(target));
                let m = choose|m: int| 0 <= m < left.len() && left[m] == target;
                assert(left_rest[m] == target);
            }
        }
        lemma_ascending_unique(left_rest, right_rest);
        assert(left =~= left_rest.push(top));
        assert(right =~= right_rest.push(top));
    }
}

/// Resolves a command line that names one device and its request. A request
/// that changes nothing is refused as a usage error; any other becomes the
/// only target of the run, with its values as given.
pub fn resolve_direct(index: u32, sets: Sets) -> (resolved: Result<Configuration, Error>)
    ensures
        sets.spec_is_empty() ==> resolved == Err::<Configuration, Error>(Error::Usage),
        !sets.spec_is_empty() ==> resolved is Ok && resolved->Ok_0.entries() == seq![
            Target { index, sets },
        ],
{
    if sets.is_empty() {
        return Err(Error::Usage);
    }
    let mut targets: Vec<Target> = Vec::new();
    targets.push(Target { index, sets });
    let config = Configuration { targets };
    assert(config.entries() =~= seq![Target { index, sets }]);
    Ok(config)
}

/// Resolves a run without a command: the configuration file decides. A
/// missing file and a malformed one are told apart; the entries of a well
/// formed one are all accepted, also those that change nothing.
pub fn resolve_config(file: ConfigFile) -> (resolved: Result<Configuration, Error>)
    ensures
        file is Missing ==> resolved == Err::<Configuration, Error>(Error::ConfigNotFound),
        file is Malformed ==> resolved == Err::<Configuration, Error>(Error::ConfigParse),
        file matches ConfigFile::Parsed(list) ==> {
            &&& resolved matches Ok(config)
            &&& ascending(config.entries())
            &&& forall|target: Target| #[trigger]
                config.entries().contains(target) <==> last_for(list@, target.index) == Some(
                    target.sets,
                )
        },
{
    match file {
        ConfigFile::Missing => Err(Error::ConfigNotFound),
        ConfigFile::Malformed => Err(Error::ConfigParse),
        ConfigFile::Parsed(list) => Ok(Configuration::from_entries(&list)),
    }
}

} // verus!
