//! Describing sets of cloud machines to launch, and turning the
//! description into spot-instance requests.
use vstd::pervasive::VecAdditionalExecFns;
use vstd::prelude::*;

verus! {

/// How to bring up one kind of machine: its instance type, its image, and a
/// setup step to run on it.
pub struct MachineSetup<F> {
    instance_type: String,
    ami: String,
    setup: F,
}

impl<F> MachineSetup<F> {
    /// The instance type.
    pub closed spec fn kind(self) -> Seq<char> {
        self.instance_type@
    }

    /// The machine image.
    pub closed spec fn image(self) -> Seq<char> {
        self.ami@
    }

    /// The setup step.
    pub closed spec fn step(self) -> F {
        self.setup
    }

    /// A setup for machines of `instance_type` booted from `ami`.
    pub fn new(instance_type: String, ami: String, setup: F) -> (m: Self)
        ensures
            m.kind() == instance_type@,
            m.image() == ami@,
            m.step() == setup,
    {
        MachineSetup { instance_type, ami, setup }
    }

    /// The instance type.
    pub fn instance_type(&self) -> (s: &String)
        ensures
            s@ == self.kind(),
    {
        &self.instance_type
    }

    /// The machine image.
    pub fn ami(&self) -> (s: &String)
        ensures
            s@ == self.image(),
    {
        &self.ami
    }

    /// The setup step.
    pub fn setup(&self) -> (f: &F)
        ensures
            *f == self.step(),
    {
        &self.setup
    }
}

/// One named set: its name, its setup, and how many machines it has.
pub type SetEntry<F> = (String, (MachineSetup<F>, u32));

/// The sets of `entries` by name; a later entry wins over an earlier one.
pub open spec fn sets_of<F>(entries: Seq<SetEntry<F>>) -> Map<Seq<char>, (MachineSetup<F>, u32)>
    decreases entries.len(),
{
    if entries.len() == 0 {
        Map::empty()
    } else {
        sets_of(entries.drop_last()).insert(entries.last().0@, entries.last().1)
    }
}

/// No two entries share a name.
pub open spec fn names_unique<F>(entries: Seq<SetEntry<F>>) -> bool {
    forall|i: int, j: int|
        0 <= i < j < entries.len() ==> #[trigger] entries[i].0@ != #[trigger] entries[j].0@
}

/// With unique names, the map of the entries holds exactly their names,
/// each with its own setup and count.
pub proof fn lemma_sets_of<F>(entries: Seq<SetEntry<F>>)
    requires
        names_unique(entries),
    ensures
        forall|i: int|
            0 <= i < entries.len() ==> sets_of(entries).contains_key(#[trigger] entries[i].0@)
                && sets_of(entries)[entries[i].0@] == entries[i].1,
        forall|name: Seq<char>|
            #[trigger] sets_of(entries).contains_key(name) ==> exists|i: int|
                0 <= i < entries.len() && #[trigger] entries[i].0@ == name,
        sets_of(entries).len() == entries.len(),
        sets_of(entries).dom().finite(),
    decreases entries.len(),
{
    if entries.len() > 0 {
        let init = entries.drop_last();
        assert forall|i: int, j: int| 0 <= i < j < init.len() implies #[trigger] init[i].0@
            != #[trigger] init[j].0@ by {
            assert(init[i] == entries[i] && init[j] == entries[j]);
        }
        lemma_sets_of(init);
        let last = entries.last();
        assert forall|i: int| 0 <= i < entries.len() implies sets_of(entries).contains_key(
            #[trigger] entries[i].0@,
        ) && sets_of(entries)[entries[i].0@] == entries[i].1 by {
            if i < entries.len() - 1 {
                assert(entries[i] == init[i]);
                assert(entries[i].0@ != entries[entries.len() - 1].0@);
            }
        }
        assert forall|name: Seq<char>| #[trigger] sets_of(entries).contains_key(name) implies exists|
            i: int,
        | 0 <= i < entries.len() && #[trigger] entries[i].0@ == name by {
            if name != last.0@ {
                let i = choose|i: int| 0 <= i < init.len() && #[trigger] init[i].0@ == name;
                assert(entries[i] == init[i]);
            } else {
                assert(entries[entries.len() - 1].0@ == name);
            }
        }
        if sets_of(init).contains_key(last.0@) {
            let i = choose|i: int| 0 <= i < init.len() && #[trigger] init[i].0@ == last.0@;
            assert(entries[i] == init[i]);
            assert(entries[i].0@ != entries[entries.len() - 1].0@);
        }
    }
}

/// Replacing the entry at `i` by one with the same name replaces its value
/// in the map.
pub proof fn lemma_sets_of_update<F>(entries: Seq<SetEntry<F>>, i: int, e: SetEntry<F>)
    requires
        names_unique(entries),
        0 <= i < entries.len(),
        e.0@ == entries[i].0@,
    ensures
        sets_of(entries.update(i, e)) == sets_of(entries).insert(e.0@, e.1),
    decreases entries.len(),
{
    let updated = entries.update(i, e);
    let init = entries.drop_last();
    if i == entries.len() - 1 {
        assert(updated.drop_last() =~= init);
        assert(sets_of(init).insert(entries.last().0@, entries.last().1).insert(e.0@, e.1)
            =~= sets_of(init).insert(e.0@, e.1));
    } else {
        assert forall|a: int, b: int| 0 <= a < b < init.len() implies #[trigger] init[a].0@
            != #[trigger] init[b].0@ by {
            assert(init[a] == entries[a] && init[b] == entries[b]);
        }
        lemma_sets_of_update(init, i, e);
        assert(updated.drop_last() =~= init.update(i, e));
        assert(updated.last() == entries.last());
        assert(entries[i].0@ != entries[entries.len() - 1].0@);
        assert(sets_of(updated) =~= sets_of(entries).insert(e.0@, e.1));
    }
}

/// What a spot-instance request asks for, per set.
#[derive(Debug)]
pub struct SpotRequest {
    /// The machine image to boot.
    pub image_id: String,
    /// The instance type to run.
    pub instance_type: String,
    /// How many instances to launch.
    pub instance_count: i64,
    /// How long the instances may run, in minutes.
    pub block_duration_minutes: i64,
}

/// The request for `number` machines set up by `setup`, for at most
/// `max_duration` minutes, as (image, type, count, duration).
pub open spec fn request_for<F>(setup: MachineSetup<F>, number: u32, max_duration: i64) -> (
    Seq<char>,
    Seq<char>,
    i64,
    i64,
) {
    (setup.image(), setup.kind(), number as i64, max_duration)
}

impl SpotRequest {
    /// The request as (image, type, count, duration).
    pub open spec fn fields(&self) -> (Seq<char>, Seq<char>, i64, i64) {
        (self.image_id@, self.instance_type@, self.instance_count, self.block_duration_minutes)
    }
}

/// Named sets of machines to launch together.
pub struct RallyBuilder<F> {
    descriptors: Vec<SetEntry<F>>,
    max_duration: i64,
}

impl<F> Default for RallyBuilder<F> {
    fn default() -> (b: Self)
        ensures
            b.sets() == Map::<Seq<char>, (MachineSetup<F>, u32)>::empty(),
            b.entries() == Seq::<SetEntry<F>>::empty(),
            b.duration() == 0,
    {
        RallyBuilder { descriptors: Vec::new(), max_duration: 0 }
    }
}

impl<F> RallyBuilder<F> {
    #[verifier::type_invariant]
    spec fn inv(self) -> bool {
        names_unique(self.descriptors@)
    }

    /// The sets, in the order they were first added.
    pub closed spec fn entries(self) -> Seq<SetEntry<F>> {
        self.descriptors@
    }

    /// The sets by name.
    pub open spec fn sets(self) -> Map<Seq<char>, (MachineSetup<F>, u32)> {
        sets_of(self.entries())
    }

    /// How long machines may run, in minutes.
    pub closed spec fn duration(self) -> i64 {
        self.max_duration
    }

    /// How long machines may run, in minutes.
    pub fn max_duration(&self) -> (d: i64)
        ensures
            d == self.duration(),
    {
        self.max_duration
    }

    /// Number of sets.
    pub fn len(&self) -> (n: usize)
        ensures
            n == self.entries().len(),
    {
        self.descriptors.len()
    }

    /// Adds a set of `number` machines named `name`; a set of the same name
    /// is replaced.
    pub fn add_set(&mut self, name: String, number: u32, setup: MachineSetup<F>)
        ensures
            final(self).sets() == old(self).sets().insert(name@, (setup, number)),
            final(self).duration() == old(self).duration(),
    {
        proof {
            use_type_invariant(&*self);
        }
        let mut descriptors: Vec<SetEntry<F>> = Vec::new();
        std::mem::swap(&mut descriptors, &mut self.descriptors);
        let ghost old_entries = descriptors@;
        let mut i: usize = 0;
        let mut found = false;
        while !found && i < descriptors.len()
            invariant
                descriptors@ == old_entries,
                i <= descriptors@.len(),
                found ==> i < descriptors@.len() && descriptors@[i as int].0@ == name@,
                forall|j: int| 0 <= j < i ==> #[trigger] descriptors@[j].0@ != name@,
            decreases descriptors@.len() - i + (if found { 0int } else { 1int }),
        {
            if descriptors[i].0 == name {
                found = true;
            } else {
                i = i + 1;
            }
        }
        if found {
            let ghost e = (name, (setup, number));
            proof {
                lemma_sets_of_update(old_entries, i as int, e);
            }
            descriptors.set(i, (name, (setup, number)));
            assert forall|a: int, b: int| 0 <= a < b < descriptors@.len() implies #[trigger] descriptors@[a].0@
                != #[trigger] descriptors@[b].0@ by {
                if a != i && b != i {
                    assert(descriptors@[a] == old_entries[a]);
                    assert(descriptors@[b] == old_entries[b]);
                }
            }
        } else {
            let ghost e = (name, (setup, number));
            descriptors.push((name, (setup, number)));
            assert(descriptors@.drop_last() =~= old_entries);
            assert forall|a: int, b: int| 0 <= a < b < descriptors@.len() implies #[trigger] descriptors@[a].0@
                != #[trigger] descriptors@[b].0@ by {
                assert(descriptors@[a] == old_entries[a]);
                if b < old_entries.len() {
                    assert(descriptors@[b] == old_entries[b]);
                }
            }
        }
        self.descriptors = descriptors;
    }

    /// One spot-instance request per set, in the order of [`Self::entries`].
    pub fn spot_requests(&self) -> (r: Vec<SpotRequest>)
        ensures
            names_unique(self.entries()),
            r@.len() == self.entries().len(),
            r@.len() == self.sets().len(),
            forall|i: int|
                0 <= i < r@.len() ==> self.sets().contains_key(#[trigger] self.entries()[i].0@)
                    && r@[i].fields() == request_for(
                    self.sets()[self.entries()[i].0@].0,
                    self.sets()[self.entries()[i].0@].1,
                    self.duration(),
                ),
            forall|name: Seq<char>|
                #[trigger] self.sets().contains_key(name) ==> exists|i: int|
                    0 <= i < r@.len() && #[trigger] self.entries()[i].0@ == name,
            forall|i: int|
                0 <= i < r@.len() ==> (#[trigger] r@[i]).fields() == request_for(
                    self.entries()[i].1.0,
                    self.entries()[i].1.1,
                    self.duration(),
                ),
            forall|i: int|
                0 <= i < r@.len() ==> {
                    &&& (#[trigger] r@[i]).instance_count == self.entries()[i].1.1 as i64
                    &&& r@[i].image_id@ == self.entries()[i].1.0.image()
                    &&& r@[i].instance_type@ == self.entries()[i].1.0.kind()
                    &&& r@[i].block_duration_minutes == self.duration()
                },
    {
        proof {
            use_type_invariant(self);
            lemma_sets_of(self.descriptors@);
        }
        let mut out: Vec<SpotRequest> = Vec::new();
        let mut i: usize = 0;
        while i < self.descriptors.len()
            invariant
                i <= self.descriptors@.len(),
                out@.len() == i,
                forall|j: int|
                    0 <= j < i ==> (#[trigger] out@[j]).fields() == request_for(
                        self.descriptors@[j].1.0,
                        self.descriptors@[j].1.1,
                        self.max_duration,
                    ),
            decreases self.descriptors@.len() - i,
        {
            let entry = &self.descriptors[i];
            let request = SpotRequest {
                image_id: entry.1.0.ami.clone(),
                instance_type: entry.1.0.instance_type.clone(),
                instance_count: entry.1.1 as i64,
                block_duration_minutes: self.max_duration,
            };
            out.push(request);
            i = i + 1;
        }
        out
    }
}

/// The ids present among `ids`, in order.
pub open spec fn present_ids(ids: Seq<Option<String>>) -> Seq<String>
    decreases ids.len(),
{
    if ids.len() == 0 {
        Seq::empty()
    } else {
        match ids.last() {
            Some(id) => present_ids(ids.drop_last()).push(id),
            None => present_ids(ids.drop_last()),
        }
    }
}

/// Appends to `ids` the request ids a launch answered with, skipping
/// requests that came back without one.
pub fn collect_request_ids(ids: &mut Vec<String>, answered: &Vec<Option<String>>)
    ensures
        final(ids)@ == old(ids)@ + present_ids(answered@),
{
    let mut i: usize = 0;
    while i < answered.len()
        invariant
            i <= answered@.len(),
            ids@ == old(ids)@ + present_ids(answered@.take(i as int)),
        decreases answered@.len() - i,
    {
        assert(answered@.take(i + 1).drop_last() =~= answered@.take(i as int));
        match &answered[i] {
            Some(id) => {
                ids.push(id.clone());
            },
            None => {},
        }
        i = i + 1;
        assert(ids@ =~= old(ids)@ + present_ids(answered@.take(i as int)));
    }
    assert(answered@.take(answered@.len() as int) =~= answered@);
}

/// The request for a set asks for exactly as many instances as the set has
/// machines, of the set's image and instance type, for the builder's
/// duration.
pub proof fn law_request_matches_set<F>(setup: MachineSetup<F>, number: u32, max_duration: i64)
    ensures
        request_for(setup, number, max_duration).0 == setup.image(),
        request_for(setup, number, max_duration).1 == setup.kind(),
        request_for(setup, number, max_duration).2 == number as int,
        request_for(setup, number, max_duration).3 == max_duration,
{
}

} // verus!
