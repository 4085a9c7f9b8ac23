//! The job registry: per-pollen state, the event transition rules, and the
//! optional attach mode that restricts processing to one pollen at a time.
//!
//! The registry is a value owned by the event loop. Every incoming event goes
//! through [`Registry::upsert`], whose whole effect is pinned down by the
//! mathematical transition function [`spec_upsert`]. Persisting an artifact is
//! acknowledged afterwards through [`Registry::record_persisted`], so a status
//! only ever advances once the artifact really reached storage.

use vstd::prelude::*;

verus! {

/// Classification of the channel a message arrived on.
#[derive(Debug, Clone, Copy, PartialEq, Eq, Structural)]
pub enum Topic {
    ProcessingPollen,
    DonePollen,
    Unknown,
}

/// Lifecycle status of a tracked pollen.
#[derive(Debug, Clone, Copy, PartialEq, Eq, Structural)]
pub enum PollenStatus {
    Processing,
    Done,
    OnceSetAsWallpaper,
}

/// The generator model announced for a pollen.
#[derive(Debug, Clone, Copy, PartialEq, Eq, Structural)]
pub enum Model {
    WikiArt,
    VitB32,
    GuidedDiffusion,
    Unknown,
}

/// One named artifact from a pollen's output listing.
#[derive(Debug, Clone)]
pub struct PolledEvolutionInfo {
    pub hash: String,
    pub name: String,
    pub size: u64,
}

/// Mathematical image of a [`PolledEvolutionInfo`].
#[verifier::ext_equal]
pub struct PolledEvolutionView {
    pub hash: Seq<char>,
    pub name: Seq<char>,
    pub size: u64,
}

impl View for PolledEvolutionInfo {
    type V = PolledEvolutionView;

    open spec fn view(&self) -> PolledEvolutionView {
        PolledEvolutionView { hash: self.hash@, name: self.name@, size: self.size }
    }
}

impl PolledEvolutionInfo {
    pub fn new(hash: String, name: String, size: u64) -> (r: Self)
        ensures
            r@ == (PolledEvolutionView { hash: hash@, name: name@, size }),
    {
        PolledEvolutionInfo { hash, name, size }
    }
}

/// Everything the registry tracks about one pollen.
#[derive(Debug)]
pub struct PollenInfo {
    pub id: String,
    pub topic: Topic,
    pub model_type: Option<Model>,
    pub text_input: Option<String>,
    pub hash_of_current_iteration: String,
    pub last_polled_evolution: Option<PolledEvolutionInfo>,
    pub status: PollenStatus,
}

/// Mathematical image of a [`PollenInfo`].
#[verifier::ext_equal]
pub struct PollenInfoView {
    pub id: Seq<char>,
    pub topic: Topic,
    pub model_type: Option<Model>,
    pub text_input: Option<Seq<char>>,
    pub hash_of_current_iteration: Seq<char>,
    pub last_polled_evolution: Option<PolledEvolutionView>,
    pub status: PollenStatus,
}

/// View of an optional owned string.
pub open spec fn opt_string_view(o: Option<String>) -> Option<Seq<char>> {
    match o {
        Some(s) => Some(s@),
        None => None,
    }
}

/// View of an optional artifact record.
pub open spec fn opt_evolution_view(o: Option<PolledEvolutionInfo>) -> Option<PolledEvolutionView> {
    match o {
        Some(a) => Some(a@),
        None => None,
    }
}

impl View for PollenInfo {
    type V = PollenInfoView;

    open spec fn view(&self) -> PollenInfoView {
        PollenInfoView {
            id: self.id@,
            topic: self.topic,
            model_type: self.model_type,
            text_input: opt_string_view(self.text_input),
            hash_of_current_iteration: self.hash_of_current_iteration@,
            last_polled_evolution: opt_evolution_view(self.last_polled_evolution),
            status: self.status,
        }
    }
}

impl Default for PollenInfo {
    fn default() -> (r: Self)
        ensures
            r@ == (PollenInfoView {
                id: Seq::<char>::empty(),
                topic: Topic::Unknown,
                model_type: None::<Model>,
                text_input: None::<Seq<char>>,
                hash_of_current_iteration: Seq::<char>::empty(),
                last_polled_evolution: None::<PolledEvolutionView>,
                status: PollenStatus::Processing,
            }),
    {
        PollenInfo {
            id: String::new(),
            topic: Topic::Unknown,
            model_type: None,
            text_input: None,
            hash_of_current_iteration: String::new(),
            last_polled_evolution: None,
            status: PollenStatus::Processing,
        }
    }
}

impl PollenInfo {
    pub fn new(
        id: String,
        topic: Topic,
        hash_of_current_iteration: String,
        model_type: Option<Model>,
        text_input: Option<String>,
    ) -> (r: Self)
        ensures
            r@ == (PollenInfoView {
                id: id@,
                topic,
                model_type,
                text_input: opt_string_view(text_input),
                hash_of_current_iteration: hash_of_current_iteration@,
                last_polled_evolution: None::<PolledEvolutionView>,
                status: PollenStatus::Processing,
            }),
    {
        Self {
            id,
            topic,
            hash_of_current_iteration,
            last_polled_evolution: None,
            model_type,
            text_input,
            status: PollenStatus::Processing,
        }
    }

    pub fn with_status(
        id: String,
        topic: Topic,
        hash_of_current_iteration: String,
        model_type: Option<Model>,
        text_input: Option<String>,
        status: PollenStatus,
    ) -> (r: Self)
        ensures
            r@ == (PollenInfoView {
                id: id@,
                topic,
                model_type,
                text_input: opt_string_view(text_input),
                hash_of_current_iteration: hash_of_current_iteration@,
                last_polled_evolution: None::<PolledEvolutionView>,
                status,
            }),
    {
        Self {
            id,
            topic,
            hash_of_current_iteration,
            last_polled_evolution: None,
            model_type,
            text_input,
            status,
        }
    }
}

/// One classified message, as the transition function sees it.
#[verifier::ext_equal]
pub struct JobEvent {
    pub id: Seq<char>,
    pub topic: Topic,
    pub hash: Seq<char>,
    pub model_type: Option<Model>,
    pub text_input: Option<Seq<char>>,
}

/// What [`Registry::upsert`] did with an event.
#[derive(Debug, Clone, Copy, PartialEq, Eq, Structural)]
pub enum UpsertOutcome {
    /// The channel was not one of the two known topics: dropped.
    IgnoredUnknownTopic,
    /// Attach mode follows another pollen: dropped without any change.
    IgnoredNotAttached,
    /// A repeated done signal for an already applied pollen: dropped.
    IgnoredDuplicateDone,
    /// A processing signal for an applied pollen outside attach mode:
    /// bookkeeping fields were refreshed, nothing further to do.
    RefreshedAfterApply,
    /// The event was accepted and this round may go on to resolve an artifact.
    Accepted,
}

/// Mathematical image of a [`Registry`].
#[verifier::ext_equal]
pub struct RegistryView {
    pub jobs: Seq<PollenInfoView>,
    pub attach_enabled: bool,
    pub attached: Option<Seq<char>>,
}

impl RegistryView {
    /// No two entries share an identifier.
    pub open spec fn well_formed(self) -> bool {
        forall|p: int, q: int|
            0 <= p < q < self.jobs.len() ==> self.jobs[p].id != self.jobs[q].id
    }
}

/// Index of the first entry with this identifier, or -1 if none has it.
pub open spec fn find_job(jobs: Seq<PollenInfoView>, id: Seq<char>) -> int
    decreases jobs.len(),
{
    if jobs.len() == 0 {
        -1
    } else if jobs[0].id == id {
        0
    } else {
        let rest = find_job(jobs.subrange(1, jobs.len() as int), id);
        if rest == -1 {
            -1
        } else {
            rest + 1
        }
    }
}

pub proof fn lemma_find_job(jobs: Seq<PollenInfoView>, id: Seq<char>)
    ensures
        find_job(jobs, id) == -1 ==> forall|k: int| 0 <= k < jobs.len() ==> jobs[k].id != id,
        find_job(jobs, id) != -1 ==> 0 <= find_job(jobs, id) < jobs.len() && jobs[find_job(
            jobs,
            id,
        )].id == id && forall|k: int| 0 <= k < find_job(jobs, id) ==> jobs[k].id != id,
    decreases jobs.len(),
{
    if jobs.len() > 0 && jobs[0].id != id {
        let sub = jobs.subrange(1, jobs.len() as int);
        lemma_find_job(sub, id);
        assert(forall|k: int| 1 <= k < jobs.len() ==> #[trigger] jobs[k] == sub[k - 1]);
    }
}

/// An existing entry after an event touched it: the current iteration
/// reference and topic are refreshed, metadata is filled in once and then
/// cached, and the status becomes `status`.
pub open spec fn refreshed_job(j: PollenInfoView, e: JobEvent, status: PollenStatus) -> PollenInfoView {
    PollenInfoView {
        id: j.id,
        topic: e.topic,
        model_type: if j.model_type is Some {
            j.model_type
        } else {
            e.model_type
        },
        text_input: if j.text_input is Some {
            j.text_input
        } else {
            e.text_input
        },
        hash_of_current_iteration: e.hash,
        last_polled_evolution: j.last_polled_evolution,
        status,
    }
}

/// A freshly sighted pollen: `Done` if the triggering topic was the done
/// channel, else `Processing`.
pub open spec fn new_job(e: JobEvent) -> PollenInfoView {
    PollenInfoView {
        id: e.id,
        topic: e.topic,
        model_type: e.model_type,
        text_input: e.text_input,
        hash_of_current_iteration: e.hash,
        last_polled_evolution: None,
        status: if e.topic is DonePollen {
            PollenStatus::Done
        } else {
            PollenStatus::Processing
        },
    }
}

/// In attach mode an empty slot is taken by the first pollen observed.
pub open spec fn capture_attach(r: RegistryView, id: Seq<char>) -> Option<Seq<char>> {
    if r.attach_enabled && r.attached is None {
        Some(id)
    } else {
        r.attached
    }
}

/// The transition function: what one classified event does to the registry.
///
/// Unknown topics are dropped. While attach mode follows a pollen, events for
/// every other pollen are dropped without any change. A done signal for a
/// pollen that was already applied is dropped, so repeated done deliveries
/// are idempotent. A processing signal for an applied pollen re-primes it in
/// attach mode and is a plain refresh otherwise. Every other event refreshes
/// the entry (or creates it) and moves the status by the transition table:
/// a processing topic yields `Processing`, a done topic yields `Done`.
pub open spec fn spec_upsert(r: RegistryView, e: JobEvent) -> (RegistryView, UpsertOutcome) {
    if e.topic is Unknown {
        (r, UpsertOutcome::IgnoredUnknownTopic)
    } else if r.attach_enabled && (r.attached matches Some(a) && a != e.id) {
        (r, UpsertOutcome::IgnoredNotAttached)
    } else {
        let i = find_job(r.jobs, e.id);
        if i == -1 {
            let nr = RegistryView {
                jobs: r.jobs.push(new_job(e)),
                attach_enabled: r.attach_enabled,
                attached: capture_attach(r, e.id),
            };
            (nr, UpsertOutcome::Accepted)
        } else {
            let j = r.jobs[i];
            if j.status is OnceSetAsWallpaper && e.topic is DonePollen {
                (r, UpsertOutcome::IgnoredDuplicateDone)
            } else if j.status is OnceSetAsWallpaper && !r.attach_enabled {
                let nr = RegistryView {
                    jobs: r.jobs.update(i, refreshed_job(j, e, PollenStatus::OnceSetAsWallpaper)),
                    attach_enabled: r.attach_enabled,
                    attached: r.attached,
                };
                (nr, UpsertOutcome::RefreshedAfterApply)
            } else {
                let status = if e.topic is DonePollen {
                    PollenStatus::Done
                } else {
                    PollenStatus::Processing
                };
                let nr = RegistryView {
                    jobs: r.jobs.update(i, refreshed_job(j, e, status)),
                    attach_enabled: r.attach_enabled,
                    attached: capture_attach(r, e.id),
                };
                (nr, UpsertOutcome::Accepted)
            }
        }
    }
}

/// Whether this round's resolved artifact should be persisted and applied:
/// on a done pollen always, on a processing pollen only while attach mode
/// follows exactly this pollen.
pub open spec fn spec_should_persist(r: RegistryView, id: Seq<char>) -> bool {
    let i = find_job(r.jobs, id);
    i != -1 && (r.jobs[i].status is Done || (r.jobs[i].status is Processing && r.attach_enabled
        && r.attached == Some(id)))
}

/// Acknowledging a successful persist: the artifact is recorded, a done
/// pollen becomes applied, and an attached pollen that completed this way
/// frees the attach slot.
pub open spec fn spec_record_persisted(
    r: RegistryView,
    id: Seq<char>,
    a: PolledEvolutionView,
) -> RegistryView {
    let i = find_job(r.jobs, id);
    if i == -1 {
        r
    } else {
        let j = r.jobs[i];
        let was_done = j.status is Done;
        RegistryView {
            jobs: r.jobs.update(
                i,
                PollenInfoView {
                    id: j.id,
                    topic: j.topic,
                    model_type: j.model_type,
                    text_input: j.text_input,
                    hash_of_current_iteration: j.hash_of_current_iteration,
                    last_polled_evolution: Some(a),
                    status: if was_done {
                        PollenStatus::OnceSetAsWallpaper
                    } else {
                        j.status
                    },
                },
            ),
            attach_enabled: r.attach_enabled,
            attached: if was_done && r.attached == Some(id) {
                None
            } else {
                r.attached
            },
        }
    }
}

/// Removing a pollen whose lifecycle concluded.
pub open spec fn spec_remove(r: RegistryView, id: Seq<char>) -> RegistryView {
    let i = find_job(r.jobs, id);
    if i == -1 {
        r
    } else {
        RegistryView {
            jobs: r.jobs.remove(i),
            attach_enabled: r.attach_enabled,
            attached: r.attached,
        }
    }
}

/// In-memory mapping from pollen identifier to its tracked state.
pub struct Registry {
    jobs: Vec<PollenInfo>,
    attach_enabled: bool,
    attached: Option<String>,
}

impl View for Registry {
    type V = RegistryView;

    closed spec fn view(&self) -> RegistryView {
        RegistryView {
            jobs: self.jobs@.map_values(|j: PollenInfo| j@),
            attach_enabled: self.attach_enabled,
            attached: match self.attached {
                Some(s) => Some(s@),
                None => None,
            },
        }
    }
}

/// String equality, pinned to the views.
fn string_eq(a: &String, b: &String) -> (r: bool)
    ensures
        r == (a@ == b@),
{
    *a == *b
}

impl Registry {
    pub fn new(attach_enabled: bool) -> (r: Registry)
        ensures
            r@ == (RegistryView {
                jobs: Seq::<PollenInfoView>::empty(),
                attach_enabled,
                attached: None::<Seq<char>>,
            }),
            r@.well_formed(),
    {
        let r = Registry { jobs: Vec::new(), attach_enabled, attached: None };
        proof {
            assert(r@.jobs =~= Seq::<PollenInfoView>::empty());
        }
        r
    }

    /// Index of the entry with this identifier, if one exists.
    fn find_index(&self, id: &String) -> (r: Option<usize>)
        ensures
            match r {
                Some(k) => find_job(self@.jobs, id@) == k,
                None => find_job(self@.jobs, id@) == -1,
            },
    {
        let n = self.jobs.len();
        let mut k: usize = 0;
        while k < n
            invariant
                0 <= k <= n,
                n == self.jobs.len(),
                self@.jobs.len() == n,
                forall|p: int| 0 <= p < k ==> self@.jobs[p].id != id@,
            decreases n - k,
        {
            let job = &self.jobs[k];
            if string_eq(&job.id, id) {
                proof {
                    lemma_find_job(self@.jobs, id@);
                }
                return Some(k);
            }
            proof {
                assert(self@.jobs[k as int].id == self.jobs@[k as int]@.id);
            }
            k = k + 1;
        }
        proof {
            lemma_find_job(self@.jobs, id@);
        }
        None
    }

    /// Applies one classified event, per the transition table.
    pub fn upsert(
        &mut self,
        id: String,
        topic: Topic,
        hash: String,
        model_type: Option<Model>,
        text_input: Option<String>,
    ) -> (r: UpsertOutcome)
        requires
            old(self)@.well_formed(),
        ensures
            ({
                let e = JobEvent {
                    id: id@,
                    topic,
                    hash: hash@,
                    model_type,
                    text_input: opt_string_view(text_input),
                };
                &&& final(self)@ == spec_upsert(old(self)@, e).0
                &&& r == spec_upsert(old(self)@, e).1
            }),
            final(self)@.well_formed(),
    {
        let ghost e = JobEvent {
            id: id@,
            topic,
            hash: hash@,
            model_type,
            text_input: opt_string_view(text_input),
        };
        if let Topic::Unknown = topic {
            return UpsertOutcome::IgnoredUnknownTopic;
        }
        if self.attach_enabled {
            if let Some(attached_id) = &self.attached {
                if !string_eq(attached_id, &id) {
                    return UpsertOutcome::IgnoredNotAttached;
                }
            }
        }
        proof {
            lemma_find_job(self@.jobs, id@);
        }
        match self.find_index(&id) {
            None => {
                if self.attach_enabled && self.attached.is_none() {
                    self.attached = Some(id.clone());
                }
                let nj = PollenInfo {
                    id,
                    topic,
                    model_type,
                    text_input,
                    hash_of_current_iteration: hash,
                    last_polled_evolution: None,
                    status: match topic {
                        Topic::DonePollen => PollenStatus::Done,
                        _ => PollenStatus::Processing,
                    },
                };
                proof {
                    assert(nj@ == new_job(e));
                }
                self.jobs.push(nj);
                proof {
                    assert(self@.jobs =~= old(self)@.jobs.push(new_job(e)));
                    assert(self@ =~= spec_upsert(old(self)@, e).0);
                }
                UpsertOutcome::Accepted
            },
            Some(i) => {
                let ghost iv = i as int;
                let ghost jv = old(self)@.jobs[iv];
                let j = self.jobs.remove(i);
                let duplicate_done = match (j.status, topic) {
                    (PollenStatus::OnceSetAsWallpaper, Topic::DonePollen) => true,
                    _ => false,
                };
                if duplicate_done {
                    self.jobs.insert(i, j);
                    proof {
                        assert(self.jobs@ =~= old(self).jobs@);
                        assert(self@ =~= old(self)@);
                    }
                    return UpsertOutcome::IgnoredDuplicateDone;
                }
                let refresh_only = match j.status {
                    PollenStatus::OnceSetAsWallpaper => !self.attach_enabled,
                    _ => false,
                };
                let status = if refresh_only {
                    PollenStatus::OnceSetAsWallpaper
                } else {
                    match topic {
                        Topic::DonePollen => PollenStatus::Done,
                        _ => PollenStatus::Processing,
                    }
                };
                let nj = PollenInfo {
                    id: j.id,
                    topic,
                    model_type: if j.model_type.is_some() {
                        j.model_type
                    } else {
                        model_type
                    },
                    text_input: if j.text_input.is_some() {
                        j.text_input
                    } else {
                        text_input
                    },
                    hash_of_current_iteration: hash,
                    last_polled_evolution: j.last_polled_evolution,
                    status,
                };
                proof {
                    assert(nj@ == refreshed_job(jv, e, status));
                }
                self.jobs.insert(i, nj);
                proof {
                    assert(self.jobs@ =~= old(self).jobs@.update(iv, nj));
                    assert(self@.jobs =~= old(self)@.jobs.update(iv, nj@));
                }
                if refresh_only {
                    proof {
                        assert(self@ =~= spec_upsert(old(self)@, e).0);
                    }
                    UpsertOutcome::RefreshedAfterApply
                } else {
                    if self.attach_enabled && self.attached.is_none() {
                        self.attached = Some(nj_id_clone(&self.jobs, i));
                    }
                    proof {
                        assert(self@ =~= spec_upsert(old(self)@, e).0);
                    }
                    UpsertOutcome::Accepted
                }
            },
        }
    }

    /// Whether this round's resolved artifact is to be persisted and applied.
    pub fn should_persist(&self, id: &String) -> (r: bool)
        ensures
            r == spec_should_persist(self@, id@),
    {
        match self.find_index(id) {
            None => false,
            Some(i) => {
                proof {
                    lemma_find_job(self@.jobs, id@);
                    assert(self@.jobs[i as int] == self.jobs@[i as int]@);
                }
                let job = &self.jobs[i];
                match job.status {
                    PollenStatus::Done => true,
                    PollenStatus::Processing => {
                        if self.attach_enabled {
                            match &self.attached {
                                Some(a) => string_eq(a, id),
                                None => false,
                            }
                        } else {
                            false
                        }
                    },
                    PollenStatus::OnceSetAsWallpaper => false,
                }
            },
        }
    }

    /// Records that this artifact was persisted for the pollen.
    pub fn record_persisted(&mut self, id: &String, artifact: PolledEvolutionInfo)
        requires
            old(self)@.well_formed(),
        ensures
            final(self)@ == spec_record_persisted(old(self)@, id@, artifact@),
            final(self)@.well_formed(),
    {
        match self.find_index(id) {
            None => {},
            Some(i) => {
                proof {
                    lemma_find_job(old(self)@.jobs, id@);
                }
                let ghost iv = i as int;
                let j = self.jobs.remove(i);
                let was_done = match j.status {
                    PollenStatus::Done => true,
                    _ => false,
                };
                let nj = PollenInfo {
                    id: j.id,
                    topic: j.topic,
                    model_type: j.model_type,
                    text_input: j.text_input,
                    hash_of_current_iteration: j.hash_of_current_iteration,
                    last_polled_evolution: Some(artifact),
                    status: if was_done {
                        PollenStatus::OnceSetAsWallpaper
                    } else {
                        j.status
                    },
                };
                self.jobs.insert(i, nj);
                if was_done {
                    let clear = match &self.attached {
                        Some(a) => string_eq(a, id),
                        None => false,
                    };
                    if clear {
                        self.attached = None;
                    }
                }
                proof {
                    assert(self.jobs@ =~= old(self).jobs@.update(iv, nj));
                    assert(self@.jobs =~= old(self)@.jobs.update(iv, nj@));
                    assert(self@ =~= spec_record_persisted(old(self)@, id@, artifact@));
                }
            },
        }
    }

    /// Removes a pollen from the registry.
    pub fn remove(&mut self, id: &String) -> (r: bool)
        requires
            old(self)@.well_formed(),
        ensures
            final(self)@ == spec_remove(old(self)@, id@),
            final(self)@.well_formed(),
            r == (find_job(old(self)@.jobs, id@) != -1),
    {
        match self.find_index(id) {
            None => false,
            Some(i) => {
                proof {
                    lemma_find_job(old(self)@.jobs, id@);
                }
                let ghost iv = i as int;
                self.jobs.remove(i);
                proof {
                    assert(self@.jobs =~= old(self)@.jobs.remove(iv));
                    assert(self@ =~= spec_remove(old(self)@, id@));
                }
                true
            },
        }
    }

    /// The tracked state of a pollen, if it is known.
    pub fn get_pollen(&self, id: &String) -> (r: Option<&PollenInfo>)
        ensures
            match r {
                Some(p) => find_job(self@.jobs, id@) != -1 && p@ == self@.jobs[find_job(
                    self@.jobs,
                    id@,
                )],
                None => find_job(self@.jobs, id@) == -1,
            },
    {
        match self.find_index(id) {
            None => None,
            Some(i) => {
                proof {
                    lemma_find_job(self@.jobs, id@);
                }
                Some(&self.jobs[i])
            },
        }
    }

    /// How many tracked pollens are currently in `Processing`.
    pub fn processing_count(&self) -> (r: usize)
        ensures
            r == count_processing(self@.jobs),
    {
        let n = self.jobs.len();
        let mut c: usize = 0;
        let mut k: usize = 0;
        while k < n
            invariant
                0 <= k <= n,
                n == self.jobs.len(),
                self@.jobs.len() == n,
                c == count_processing(self@.jobs.take(k as int)),
                c <= k,
            decreases n - k,
        {
            let is_processing = match self.jobs[k].status {
                PollenStatus::Processing => true,
                _ => false,
            };
            proof {
                assert(self@.jobs.take(k + 1 as int).drop_last() =~= self@.jobs.take(k as int));
                assert(self@.jobs.take(k + 1 as int).last() == self@.jobs[k as int]);
            }
            if is_processing {
                c = c + 1;
            }
            k = k + 1;
        }
        proof {
            assert(self@.jobs.take(n as int) =~= self@.jobs);
        }
        c
    }

    /// Number of tracked pollens.
    pub fn len(&self) -> (r: usize)
        ensures
            r == self@.jobs.len(),
    {
        self.jobs.len()
    }

    /// Whether attach mode currently follows this pollen.
    pub fn is_attached_to(&self, id: &String) -> (r: bool)
        ensures
            r == (self@.attached == Some(id@)),
    {
        match &self.attached {
            Some(a) => string_eq(a, id),
            None => false,
        }
    }

    /// Whether attach mode currently follows any pollen.
    pub fn has_attached(&self) -> (r: bool)
        ensures
            r == (self@.attached is Some),
    {
        self.attached.is_some()
    }
}

/// Clones the identifier of the entry at `i`.
fn nj_id_clone(jobs: &Vec<PollenInfo>, i: usize) -> (r: String)
    requires
        i < jobs@.len(),
    ensures
        r@ == jobs@[i as int]@.id,
{
    jobs[i].id.clone()
}

/// Pollens in `Processing` among a job sequence.
pub open spec fn count_processing(jobs: Seq<PollenInfoView>) -> nat
    decreases jobs.len(),
{
    if jobs.len() == 0 {
        0
    } else {
        count_processing(jobs.drop_last()) + (if jobs.last().status is Processing {
            1nat
        } else {
            0nat
        })
    }
}

/// Runs a sequence of events through the transition function.
pub open spec fn run_events(r: RegistryView, evs: Seq<JobEvent>) -> RegistryView
    decreases evs.len(),
{
    if evs.len() == 0 {
        r
    } else {
        run_events(spec_upsert(r, evs[0]).0, evs.subrange(1, evs.len() as int))
    }
}

/// A done signal for an already applied pollen changes nothing, outside
/// attach mode: the event is dropped as a duplicate.
pub proof fn lemma_duplicate_done_step(r: RegistryView, e: JobEvent)
    requires
        !r.attach_enabled,
        e.topic is DonePollen,
        find_job(r.jobs, e.id) != -1,
        r.jobs[find_job(r.jobs, e.id)].status is OnceSetAsWallpaper,
    ensures
        spec_upsert(r, e).0 == r,
        spec_upsert(r, e).1 is IgnoredDuplicateDone,
{
}

/// Idempotence of repeated done signals: once a pollen was applied, any
/// sequence of further done events for it leaves the registry exactly as it
/// was (outside attach mode), and every one of them is dropped as a
/// duplicate, so no artifact is resolved or persisted for any of them.
pub proof fn lemma_done_after_apply_is_idempotent(
    r: RegistryView,
    id: Seq<char>,
    evs: Seq<JobEvent>,
)
    requires
        !r.attach_enabled,
        find_job(r.jobs, id) != -1,
        r.jobs[find_job(r.jobs, id)].status is OnceSetAsWallpaper,
        forall|k: int| 0 <= k < evs.len() ==> (#[trigger] evs[k]).id == id && evs[k].topic
            is DonePollen,
    ensures
        run_events(r, evs) == r,
        forall|k: int| 0 <= k < evs.len() ==> spec_upsert(r, #[trigger] evs[k]).1
            is IgnoredDuplicateDone,
        !spec_should_persist(r, id),
    decreases evs.len(),
{
    if evs.len() > 0 {
        lemma_duplicate_done_step(r, evs[0]);
        lemma_done_after_apply_is_idempotent(r, id, evs.subrange(1, evs.len() as int));
        assert(forall|k: int|
            0 <= k < evs.len() - 1 ==> evs.subrange(1, evs.len() as int)[k] == evs[k + 1]);
    }
}

/// Attach-mode exclusivity: while the slot follows one pollen, an event for
/// any other pollen identifier leaves the registry exactly as it was and is
/// reported as not attached, so no artifact is resolved or persisted for it.
pub proof fn lemma_attach_excludes_others(r: RegistryView, e: JobEvent)
    requires
        r.attach_enabled,
        r.attached is Some,
        r.attached != Some(e.id),
        !(e.topic is Unknown),
    ensures
        spec_upsert(r, e).0 == r,
        spec_upsert(r, e).1 is IgnoredNotAttached,
{
}

} // verus!
