//! The in-memory model of the persisted state.
//!
//! Two tables are persisted: the job queue, keyed by job name, and the
//! sessions, keyed by session id. Units of work edit this state inside one
//! transaction attempt of the retry engine; the surrounding program maps
//! the same edits onto its durable store.

use vstd::prelude::*;
use crate::session_id::SessionId;
use crate::table::{
    keyed_map_of, keys_unique, lemma_keyed_map_domain, lemma_keyed_map_index, lemma_keyed_map_len,
    lemma_keyed_map_push, lemma_keyed_map_remove, lemma_keyed_map_update,
};
use crate::time::Instant;

verus! {

/// One row of the job queue table.
pub struct ScheduledJob {
    /// The unique name of the job, drawn from the closed set of job kinds.
    pub name: String,
    /// The instant at which the job is next due.
    pub scheduled_execution_time: Instant,
    /// Whether a worker currently owns the job.
    pub in_progress: bool,
}

/// The mathematical view of a job row.
pub ghost struct JobView {
    pub name: Seq<char>,
    pub scheduled_execution_time: int,
    pub in_progress: bool,
}

impl View for ScheduledJob {
    type V = JobView;

    open spec fn view(&self) -> JobView {
        JobView {
            name: self.name@,
            scheduled_execution_time: self.scheduled_execution_time.millis as int,
            in_progress: self.in_progress,
        }
    }
}

impl ScheduledJob {
    /// An identical copy of this row.
    pub fn duplicate(&self) -> (r: ScheduledJob)
        ensures
            r@ == self@,
    {
        ScheduledJob {
            name: self.name.clone(),
            scheduled_execution_time: self.scheduled_execution_time,
            in_progress: self.in_progress,
        }
    }

    /// Sets `in_progress` to `true`; the row must not be in progress yet.
    pub fn set_in_progress(self) -> (r: ScheduledJob)
        requires
            !self.in_progress,
        ensures
            r@ == (JobView { in_progress: true, ..self@ }),
    {
        ScheduledJob { in_progress: true, ..self }
    }
}

/// One row of the sessions table.
pub struct SessionRecord {
    /// The unique session id.
    pub id: SessionId,
    /// The instant at which the session expires; the largest representable
    /// instant means that it never expires.
    pub expiry: Instant,
    /// The name of the logged-in user, or nothing for an anonymous session.
    pub username: Option<String>,
}

/// The mathematical view of a session row.
pub ghost struct SessionView {
    pub id: Seq<char>,
    pub expiry: int,
    pub username: Option<Seq<char>>,
}

impl View for SessionRecord {
    type V = SessionView;

    open spec fn view(&self) -> SessionView {
        SessionView {
            id: self.id@,
            expiry: self.expiry.millis as int,
            username: self.username.deep_view(),
        }
    }
}

impl SessionRecord {
    /// An identical copy of this row.
    pub fn duplicate(&self) -> (r: SessionRecord)
        ensures
            r@ == self@,
    {
        SessionRecord {
            id: self.id.duplicate(),
            expiry: self.expiry,
            username: match &self.username {
                Some(u) => Some(u.clone()),
                None => None,
            },
        }
    }
}

/// The key of a job row: its name.
pub open spec fn job_key() -> spec_fn(JobView) -> Seq<char> {
    |v: JobView| v.name
}

/// The key of a session row: its id.
pub open spec fn session_key() -> spec_fn(SessionView) -> Seq<char> {
    |v: SessionView| v.id
}

/// Whether a job row may be reserved at `now`: it is not owned by a worker
/// and it is due.
pub open spec fn job_eligible(j: JobView, now: int) -> bool {
    !j.in_progress && j.scheduled_execution_time <= now
}

/// The set of names that a list of known job kinds spells out.
pub open spec fn name_set(kinds: Seq<String>) -> Set<Seq<char>> {
    Set::new(|k: Seq<char>| exists|i: int| 0 <= i < kinds.len() && (#[trigger] kinds[i])@ == k)
}

/// Every key of `pre` outside `keep` appears among the reported names.
pub open spec fn removed_names_reported(
    pre: Map<Seq<char>, JobView>,
    keep: Set<Seq<char>>,
    deleted: Seq<String>,
) -> bool {
    forall|k: Seq<char>|
        #[trigger] pre.dom().contains(k) && !keep.contains(k) ==> exists|j: int|
            0 <= j < deleted.len() && (#[trigger] deleted[j])@ == k
}

/// The keys of the sessions that have not expired at `now`.
pub open spec fn live_session_keys(m: Map<Seq<char>, SessionView>, now: int) -> Set<Seq<char>> {
    Set::new(|k: Seq<char>| m.dom().contains(k) && m[k].expiry >= now)
}

/// The mathematical view of the whole store.
pub ghost struct DbView {
    pub jobs: Map<Seq<char>, JobView>,
    pub sessions: Map<Seq<char>, SessionView>,
}

/// The persisted state: the job queue and the sessions.
pub struct Database {
    job_queue: Vec<ScheduledJob>,
    sessions: Vec<SessionRecord>,
}

impl View for Database {
    type V = DbView;

    closed spec fn view(&self) -> DbView {
        DbView {
            jobs: keyed_map_of(self.job_queue@, job_key()),
            sessions: keyed_map_of(self.sessions@, session_key()),
        }
    }
}

impl Database {
    /// Both tables have unique keys.
    pub closed spec fn wf(&self) -> bool {
        keys_unique(self.job_queue@, job_key()) && keys_unique(self.sessions@, session_key())
    }

    /// An empty store.
    pub fn new() -> (r: Database)
        ensures
            r.wf(),
            r@.jobs == Map::<Seq<char>, JobView>::empty(),
            r@.sessions == Map::<Seq<char>, SessionView>::empty(),
    {
        Database { job_queue: Vec::new(), sessions: Vec::new() }
    }

    /// The index of the job row with the given name, if any.
    fn jobs_find_index(&self, name: &String) -> (r: Option<usize>)
        ensures
            match r {
                Some(i) => i < self.job_queue@.len() && (#[trigger] self.job_queue@[i as int])@.name
                    == name@,
                None => forall|i: int|
                    0 <= i < self.job_queue@.len() ==> (#[trigger] self.job_queue@[i])@.name
                        != name@,
            },
    {
        let mut i: usize = 0;
        while i < self.job_queue.len()
            invariant
                i <= self.job_queue@.len(),
                forall|j: int| 0 <= j < i ==> (#[trigger] self.job_queue@[j])@.name != name@,
            decreases self.job_queue@.len() - i,
        {
            if self.job_queue[i].name == *name {
                return Some(i);
            }
            i = i + 1;
        }
        None
    }

    /// Whether the job queue has a row with the given name.
    pub fn jobs_contains(&self, name: &String) -> (r: bool)
        requires
            self.wf(),
        ensures
            r == self@.jobs.dom().contains(name@),
    {
        proof {
            lemma_keyed_map_domain(self.job_queue@, job_key());
        }
        match self.jobs_find_index(name) {
            Some(i) => {
                proof {
                    assert(job_key()(self.job_queue@[i as int]@) == name@);
                }
                true
            },
            None => {
                proof {
                    if self@.jobs.dom().contains(name@) {
                        let j = choose|j: int|
                            0 <= j < self.job_queue@.len() && job_key()(
                                #[trigger] self.job_queue@[j]@,
                            ) == name@;
                        assert((self.job_queue@[j])@.name == name@);
                    }
                }
                false
            },
        }
    }

    /// The job row with the given name, if any.
    pub fn jobs_get(&self, name: &String) -> (r: Option<ScheduledJob>)
        requires
            self.wf(),
        ensures
            match r {
                Some(job) => self@.jobs.dom().contains(name@) && self@.jobs[name@] == job@
                    && job@.name == name@,
                None => !self@.jobs.dom().contains(name@),
            },
    {
        proof {
            lemma_keyed_map_domain(self.job_queue@, job_key());
        }
        match self.jobs_find_index(name) {
            Some(i) => {
                proof {
                    lemma_keyed_map_index(self.job_queue@, job_key(), i as int);
                }
                Some(self.job_queue[i].duplicate())
            },
            None => {
                proof {
                    if self@.jobs.dom().contains(name@) {
                        let j = choose|j: int|
                            0 <= j < self.job_queue@.len() && job_key()(
                                #[trigger] self.job_queue@[j]@,
                            ) == name@;
                        assert((self.job_queue@[j])@.name == name@);
                    }
                }
                None
            },
        }
    }

    /// Insert a job row whose name is not in the table yet.
    pub fn jobs_insert(&mut self, job: ScheduledJob)
        requires
            old(self).wf(),
            !old(self)@.jobs.dom().contains(job@.name),
        ensures
            final(self).wf(),
            final(self)@.jobs == old(self)@.jobs.insert(job@.name, job@),
            final(self)@.sessions == old(self)@.sessions,
    {
        proof {
            lemma_keyed_map_domain(self.job_queue@, job_key());
            assert forall|i: int| 0 <= i < self.job_queue@.len() implies job_key()(
                #[trigger] self.job_queue@[i]@,
            ) != job_key()(job@) by {
                if job_key()(self.job_queue@[i]@) == job@.name {
                    assert(exists|j: int|
                        0 <= j < self.job_queue@.len() && job_key()(#[trigger] self.job_queue@[j]@)
                            == job@.name);
                }
            }
            lemma_keyed_map_push(self.job_queue@, job_key(), job);
        }
        self.job_queue.push(job);
    }

    /// Replace the job row carrying the same name as `job`, if there is one.
    pub fn jobs_set(&mut self, job: ScheduledJob) -> (updated: bool)
        requires
            old(self).wf(),
        ensures
            final(self).wf(),
            updated == old(self)@.jobs.dom().contains(job@.name),
            updated ==> final(self)@.jobs == old(self)@.jobs.insert(job@.name, job@),
            !updated ==> final(self)@.jobs == old(self)@.jobs,
            final(self)@.sessions == old(self)@.sessions,
    {
        proof {
            lemma_keyed_map_domain(self.job_queue@, job_key());
        }
        match self.jobs_find_index(&job.name) {
            Some(i) => {
                proof {
                    assert(job_key()(self.job_queue@[i as int]@) == job@.name);
                    lemma_keyed_map_update(self.job_queue@, job_key(), i as int, job);
                }
                self.job_queue.set(i, job);
                true
            },
            None => {
                proof {
                    if old(self)@.jobs.dom().contains(job@.name) {
                        let j = choose|j: int|
                            0 <= j < self.job_queue@.len() && job_key()(
                                #[trigger] self.job_queue@[j]@,
                            ) == job@.name;
                        assert((self.job_queue@[j])@.name == job@.name);
                    }
                }
                false
            },
        }
    }

    /// Delete the job row with the given name, if there is one.
    pub fn jobs_remove(&mut self, name: &String) -> (removed: bool)
        requires
            old(self).wf(),
        ensures
            final(self).wf(),
            removed == old(self)@.jobs.dom().contains(name@),
            final(self)@.jobs == old(self)@.jobs.remove(name@),
            final(self)@.sessions == old(self)@.sessions,
    {
        proof {
            lemma_keyed_map_domain(self.job_queue@, job_key());
        }
        match self.jobs_find_index(name) {
            Some(i) => {
                proof {
                    assert(job_key()(self.job_queue@[i as int]@) == name@);
                    lemma_keyed_map_remove(self.job_queue@, job_key(), i as int);
                }
                self.job_queue.remove(i);
                true
            },
            None => {
                proof {
                    if old(self)@.jobs.dom().contains(name@) {
                        let j = choose|j: int|
                            0 <= j < self.job_queue@.len() && job_key()(
                                #[trigger] self.job_queue@[j]@,
                            ) == name@;
                        assert((self.job_queue@[j])@.name == name@);
                    }
                    assert(old(self)@.jobs.remove(name@) =~= old(self)@.jobs);
                }
                false
            },
        }
    }

    /// The number of rows in the job queue.
    pub fn jobs_count(&self) -> (r: usize)
        requires
            self.wf(),
        ensures
            r == self@.jobs.dom().len(),
            self@.jobs.dom().finite(),
    {
        proof {
            lemma_keyed_map_len(self.job_queue@, job_key());
        }
        self.job_queue.len()
    }

    /// The job row that is due at `now`, not in progress, and among such rows
    /// has the smallest scheduled execution time; or nothing if no row is due.
    pub fn jobs_find_due(&self, now: Instant) -> (r: Option<ScheduledJob>)
        requires
            self.wf(),
        ensures
            match r {
                Some(job) => self@.jobs.dom().contains(job@.name) && self@.jobs[job@.name] == job@
                    && job_eligible(job@, now.millis as int) && forall|k: Seq<char>|
                    self@.jobs.dom().contains(k) && job_eligible(
                        #[trigger] self@.jobs[k],
                        now.millis as int,
                    ) ==> job@.scheduled_execution_time <= self@.jobs[k].scheduled_execution_time,
                None => forall|k: Seq<char>|
                    self@.jobs.dom().contains(k) ==> !job_eligible(
                        #[trigger] self@.jobs[k],
                        now.millis as int,
                    ),
            },
    {
        let rows_len = self.job_queue.len();
        let mut best: Option<usize> = None;
        let mut i: usize = 0;
        while i < rows_len
            invariant
                i <= rows_len,
                rows_len == self.job_queue@.len(),
                match best {
                    Some(b) => b < i && job_eligible(self.job_queue@[b as int]@, now.millis as int)
                        && forall|j: int|
                        0 <= j < i && job_eligible(
                            (#[trigger] self.job_queue@[j])@,
                            now.millis as int,
                        ) ==> self.job_queue@[b as int]@.scheduled_execution_time
                            <= self.job_queue@[j]@.scheduled_execution_time,
                    None => forall|j: int|
                        0 <= j < i ==> !job_eligible(
                            (#[trigger] self.job_queue@[j])@,
                            now.millis as int,
                        ),
                },
            decreases rows_len - i,
        {
            let row = &self.job_queue[i];
            if !row.in_progress && row.scheduled_execution_time.is_at_or_before(now) {
                best = match best {
                    Some(b) => {
                        if self.job_queue[i].scheduled_execution_time.is_before(
                            self.job_queue[b].scheduled_execution_time,
                        ) {
                            Some(i)
                        } else {
                            Some(b)
                        }
                    },
                    None => Some(i),
                };
            }
            i = i + 1;
        }
        proof {
            lemma_keyed_map_domain(self.job_queue@, job_key());
        }
        match best {
            Some(b) => {
                proof {
                    lemma_keyed_map_index(self.job_queue@, job_key(), b as int);
                    assert forall|k: Seq<char>|
                        self@.jobs.dom().contains(k) && job_eligible(
                            #[trigger] self@.jobs[k],
                            now.millis as int,
                        ) implies self.job_queue@[b as int]@.scheduled_execution_time
                        <= self@.jobs[k].scheduled_execution_time by {
                        let j = choose|j: int|
                            0 <= j < self.job_queue@.len() && job_key()(
                                #[trigger] self.job_queue@[j]@,
                            ) == k;
                        lemma_keyed_map_index(self.job_queue@, job_key(), j);
                    }
                }
                Some(self.job_queue[b].duplicate())
            },
            None => {
                proof {
                    assert forall|k: Seq<char>|
                        self@.jobs.dom().contains(k) implies !job_eligible(
                        #[trigger] self@.jobs[k],
                        now.millis as int,
                    ) by {
                        let j = choose|j: int|
                            0 <= j < self.job_queue@.len() && job_key()(
                                #[trigger] self.job_queue@[j]@,
                            ) == k;
                        lemma_keyed_map_index(self.job_queue@, job_key(), j);
                    }
                }
                None
            },
        }
    }

    /// The index of the session row with the given id, if any.
    fn sessions_find_index(&self, id: &SessionId) -> (r: Option<usize>)
        ensures
            match r {
                Some(i) => i < self.sessions@.len() && (#[trigger] self.sessions@[i as int])@.id
                    == id@,
                None => forall|i: int|
                    0 <= i < self.sessions@.len() ==> (#[trigger] self.sessions@[i])@.id != id@,
            },
    {
        let mut i: usize = 0;
        while i < self.sessions.len()
            invariant
                i <= self.sessions@.len(),
                forall|j: int| 0 <= j < i ==> (#[trigger] self.sessions@[j])@.id != id@,
            decreases self.sessions@.len() - i,
        {
            if self.sessions[i].id.matches(id) {
                return Some(i);
            }
            i = i + 1;
        }
        None
    }

    /// Whether the sessions table has a row with the given id.
    pub fn sessions_contains(&self, id: &SessionId) -> (r: bool)
        requires
            self.wf(),
        ensures
            r == self@.sessions.dom().contains(id@),
    {
        proof {
            lemma_keyed_map_domain(self.sessions@, session_key());
        }
        match self.sessions_find_index(id) {
            Some(i) => {
                proof {
                    assert(session_key()(self.sessions@[i as int]@) == id@);
                }
                true
            },
            None => {
                proof {
                    if self@.sessions.dom().contains(id@) {
                        let j = choose|j: int|
                            0 <= j < self.sessions@.len() && session_key()(
                                #[trigger] self.sessions@[j]@,
                            ) == id@;
                        assert((self.sessions@[j])@.id == id@);
                    }
                }
                false
            },
        }
    }

    /// The session row with the given id, if any.
    pub fn sessions_get(&self, id: &SessionId) -> (r: Option<SessionRecord>)
        requires
            self.wf(),
        ensures
            match r {
                Some(record) => self@.sessions.dom().contains(id@) && self@.sessions[id@]
                    == record@ && record@.id == id@,
                None => !self@.sessions.dom().contains(id@),
            },
    {
        proof {
            lemma_keyed_map_domain(self.sessions@, session_key());
        }
        match self.sessions_find_index(id) {
            Some(i) => {
                proof {
                    lemma_keyed_map_index(self.sessions@, session_key(), i as int);
                }
                Some(self.sessions[i].duplicate())
            },
            None => {
                proof {
                    if self@.sessions.dom().contains(id@) {
                        let j = choose|j: int|
                            0 <= j < self.sessions@.len() && session_key()(
                                #[trigger] self.sessions@[j]@,
                            ) == id@;
                        assert((self.sessions@[j])@.id == id@);
                    }
                }
                None
            },
        }
    }

    /// Insert a session row whose id is not in the table yet.
    pub fn sessions_insert(&mut self, record: SessionRecord)
        requires
            old(self).wf(),
            !old(self)@.sessions.dom().contains(record@.id),
        ensures
            final(self).wf(),
            final(self)@.sessions == old(self)@.sessions.insert(record@.id, record@),
            final(self)@.jobs == old(self)@.jobs,
    {
        proof {
            lemma_keyed_map_domain(self.sessions@, session_key());
            assert forall|i: int| 0 <= i < self.sessions@.len() implies session_key()(
                #[trigger] self.sessions@[i]@,
            ) != session_key()(record@) by {
                if session_key()(self.sessions@[i]@) == record@.id {
                    assert(exists|j: int|
                        0 <= j < self.sessions@.len() && session_key()(#[trigger] self.sessions@[j]@)
                            == record@.id);
                }
            }
            lemma_keyed_map_push(self.sessions@, session_key(), record);
        }
        self.sessions.push(record);
    }

    /// Delete the session row with the given id, if there is one.
    pub fn sessions_remove(&mut self, id: &SessionId) -> (removed: bool)
        requires
            old(self).wf(),
        ensures
            final(self).wf(),
            removed == old(self)@.sessions.dom().contains(id@),
            final(self)@.sessions == old(self)@.sessions.remove(id@),
            final(self)@.jobs == old(self)@.jobs,
    {
        proof {
            lemma_keyed_map_domain(self.sessions@, session_key());
        }
        match self.sessions_find_index(id) {
            Some(i) => {
                proof {
                    assert(session_key()(self.sessions@[i as int]@) == id@);
                    lemma_keyed_map_remove(self.sessions@, session_key(), i as int);
                }
                self.sessions.remove(i);
                true
            },
            None => {
                proof {
                    if old(self)@.sessions.dom().contains(id@) {
                        let j = choose|j: int|
                            0 <= j < self.sessions@.len() && session_key()(
                                #[trigger] self.sessions@[j]@,
                            ) == id@;
                        assert((self.sessions@[j])@.id == id@);
                    }
                    assert(old(self)@.sessions.remove(id@) =~= old(self)@.sessions);
                }
                false
            },
        }
    }

    /// Delete all session rows.
    pub fn sessions_clear(&mut self)
        requires
            old(self).wf(),
        ensures
            final(self).wf(),
            final(self)@.sessions == Map::<Seq<char>, SessionView>::empty(),
            final(self)@.jobs == old(self)@.jobs,
    {
        self.sessions = Vec::new();
    }

    /// The number of rows in the sessions table.
    pub fn sessions_count(&self) -> (r: usize)
        requires
            self.wf(),
        ensures
            r == self@.sessions.dom().len(),
            self@.sessions.dom().finite(),
    {
        proof {
            lemma_keyed_map_len(self.sessions@, session_key());
        }
        self.sessions.len()
    }

    /// Delete every session row that is expired at `now`, keeping exactly
    /// the rows whose expiry is at or after `now`.
    pub fn sessions_remove_expired(&mut self, now: Instant)
        requires
            old(self).wf(),
        ensures
            final(self).wf(),
            final(self)@.sessions == old(self)@.sessions.restrict(
                live_session_keys(old(self)@.sessions, now.millis as int),
            ),
            final(self)@.jobs == old(self)@.jobs,
    {
        let ghost full = self.sessions@;
        let ghost live = live_session_keys(keyed_map_of(full, session_key()), now.millis as int);
        let rows_len = self.sessions.len();
        let mut kept: Vec<SessionRecord> = Vec::new();
        let mut i: usize = 0;
        proof {
            assert(full.take(0) =~= Seq::<SessionRecord>::empty());
            assert(keyed_map_of(kept@, session_key()) =~= keyed_map_of(full.take(0), session_key()).restrict(live));
        }
        while i < rows_len
            invariant
                i <= rows_len,
                rows_len == self.sessions@.len(),
                self.sessions@ == full,
                keys_unique(full, session_key()),
                live == live_session_keys(keyed_map_of(full, session_key()), now.millis as int),
                keys_unique(kept@, session_key()),
                keyed_map_of(kept@, session_key()) == keyed_map_of(full.take(i as int), session_key()).restrict(
                    live,
                ),
            decreases rows_len - i,
        {
            let ghost prefix = full.take(i as int);
            let ghost prefix_map = keyed_map_of(prefix, session_key());
            let ghost row_key = full[i as int]@.id;
            proof {
                assert(full.take(i + 1).drop_last() =~= prefix);
                assert(full.take(i + 1).last() == full[i as int]);
                assert(keyed_map_of(full.take(i + 1), session_key()) == prefix_map.insert(
                    row_key,
                    full[i as int]@,
                ));
                lemma_keyed_map_domain(prefix, session_key());
                assert(!prefix_map.dom().contains(row_key)) by {
                    if prefix_map.dom().contains(row_key) {
                        let j = choose|j: int|
                            0 <= j < prefix.len() && session_key()(#[trigger] prefix[j]@) == row_key;
                        assert(prefix[j] == full[j]);
                        assert(session_key()(full[j]@) == session_key()(full[i as int]@));
                    }
                }
                lemma_keyed_map_index(full, session_key(), i as int);
                assert(keyed_map_of(full, session_key())[row_key] == full[i as int]@);
            }
            let row = &self.sessions[i];
            if now.is_at_or_before(row.expiry) {
                let copied = row.duplicate();
                proof {
                    assert(copied@ == full[i as int]@);
                    assert(live.contains(row_key));
                    lemma_keyed_map_domain(kept@, session_key());
                    assert forall|j: int| 0 <= j < kept@.len() implies session_key()(
                        #[trigger] kept@[j]@,
                    ) != session_key()(copied@) by {
                        if session_key()(kept@[j]@) == row_key {
                            assert(exists|j2: int|
                                0 <= j2 < kept@.len() && session_key()(#[trigger] kept@[j2]@) == row_key);
                            assert(keyed_map_of(kept@, session_key()).dom().contains(row_key));
                        }
                    }
                    lemma_keyed_map_push(kept@, session_key(), copied);
                    assert(prefix_map.restrict(live).insert(row_key, full[i as int]@)
                        =~= prefix_map.insert(row_key, full[i as int]@).restrict(live));
                }
                kept.push(copied);
            } else {
                proof {
                    assert(!live.contains(row_key));
                    assert(prefix_map.restrict(live) =~= prefix_map.insert(
                        row_key,
                        full[i as int]@,
                    ).restrict(live));
                }
            }
            i = i + 1;
        }
        proof {
            assert(full.take(rows_len as int) =~= full);
        }
        self.sessions = kept;
    }

    /// Delete every job row whose name is not among the given kinds, keeping
    /// exactly the rows whose name is one of them. The names of the deleted
    /// rows are returned so that the caller can log them.
    pub fn jobs_retain(&mut self, kinds: &Vec<String>) -> (deleted: Vec<String>)
        requires
            old(self).wf(),
        ensures
            final(self).wf(),
            final(self)@.jobs == old(self)@.jobs.restrict(name_set(kinds@)),
            final(self)@.sessions == old(self)@.sessions,
            forall|j: int|
                0 <= j < deleted@.len() ==> old(self)@.jobs.dom().contains(
                    (#[trigger] deleted@[j])@,
                ) && !name_set(kinds@).contains(deleted@[j]@),
            removed_names_reported(old(self)@.jobs, name_set(kinds@), deleted@),
    {
        let ghost full = self.job_queue@;
        let ghost known = name_set(kinds@);
        let rows_len = self.job_queue.len();
        let mut kept: Vec<ScheduledJob> = Vec::new();
        let mut deleted: Vec<String> = Vec::new();
        let mut i: usize = 0;
        proof {
            assert(full.take(0) =~= Seq::<ScheduledJob>::empty());
            assert(keyed_map_of(kept@, job_key()) =~= keyed_map_of(full.take(0), job_key()).restrict(known));
            lemma_keyed_map_domain(full, job_key());
            lemma_keyed_map_domain(full.take(0), job_key());
        }
        while i < rows_len
            invariant
                i <= rows_len,
                rows_len == self.job_queue@.len(),
                self.job_queue@ == full,
                keys_unique(full, job_key()),
                known == name_set(kinds@),
                keys_unique(kept@, job_key()),
                keyed_map_of(kept@, job_key()) == keyed_map_of(full.take(i as int), job_key()).restrict(
                    known,
                ),
                forall|j: int|
                    0 <= j < deleted@.len() ==> keyed_map_of(full, job_key()).dom().contains(
                        (#[trigger] deleted@[j])@,
                    ) && !known.contains(deleted@[j]@),
                removed_names_reported(keyed_map_of(full.take(i as int), job_key()), known, deleted@),
            decreases rows_len - i,
        {
            let ghost prefix = full.take(i as int);
            let ghost prefix_map = keyed_map_of(prefix, job_key());
            let ghost row_key = full[i as int]@.name;
            proof {
                assert(full.take(i + 1).drop_last() =~= prefix);
                assert(full.take(i + 1).last() == full[i as int]);
                assert(keyed_map_of(full.take(i + 1), job_key()) == prefix_map.insert(
                    row_key,
                    full[i as int]@,
                ));
                lemma_keyed_map_domain(prefix, job_key());
                assert(!prefix_map.dom().contains(row_key)) by {
                    if prefix_map.dom().contains(row_key) {
                        let j = choose|j: int|
                            0 <= j < prefix.len() && job_key()(#[trigger] prefix[j]@) == row_key;
                        assert(prefix[j] == full[j]);
                        assert(job_key()(full[j]@) == job_key()(full[i as int]@));
                    }
                }
                assert(job_key()(full[i as int]@) == row_key);
            }
            let row = &self.job_queue[i];
            if Self::names_contain(kinds, &row.name) {
                let copied = row.duplicate();
                proof {
                    assert(copied@ == full[i as int]@);
                    assert(known.contains(row_key));
                    lemma_keyed_map_domain(kept@, job_key());
                    assert forall|j: int| 0 <= j < kept@.len() implies job_key()(
                        #[trigger] kept@[j]@,
                    ) != job_key()(copied@) by {
                        if job_key()(kept@[j]@) == row_key {
                            assert(exists|j2: int|
                                0 <= j2 < kept@.len() && job_key()(#[trigger] kept@[j2]@) == row_key);
                            assert(keyed_map_of(kept@, job_key()).dom().contains(row_key));
                        }
                    }
                    lemma_keyed_map_push(kept@, job_key(), copied);
                    assert(prefix_map.restrict(known).insert(row_key, full[i as int]@)
                        =~= prefix_map.insert(row_key, full[i as int]@).restrict(known));
                    assert forall|k: Seq<char>| #[trigger] keyed_map_of(
                        full.take(i + 1),
                        job_key(),
                    ).dom().contains(k) && !known.contains(k) implies exists|j: int|
                        0 <= j < deleted@.len() && (#[trigger] deleted@[j])@ == k by {
                        assert(k != row_key);
                        assert(prefix_map.dom().contains(k) && !known.contains(k));
                    }
                }
                kept.push(copied);
            } else {
                let dropped_name = row.name.clone();
                proof {
                    assert(dropped_name@ == row_key);
                    assert(!known.contains(row_key));
                    assert(prefix_map.restrict(known) =~= prefix_map.insert(
                        row_key,
                        full[i as int]@,
                    ).restrict(known));
                    lemma_keyed_map_domain(full, job_key());
                    assert(job_key()(full[i as int]@) == row_key);
                    assert(keyed_map_of(full, job_key()).dom().contains(row_key));
                }
                let ghost deleted_before = deleted@;
                deleted.push(dropped_name);
                proof {
                    assert(deleted@ == deleted_before.push(dropped_name));
                    assert forall|k: Seq<char>| #[trigger] keyed_map_of(
                        full.take(i + 1),
                        job_key(),
                    ).dom().contains(k) && !known.contains(k) implies exists|j: int|
                        0 <= j < deleted@.len() && (#[trigger] deleted@[j])@ == k by {
                        if k == row_key {
                            assert((deleted@[deleted_before.len() as int])@ == k);
                        } else {
                            assert(prefix_map.dom().contains(k) && !known.contains(k));
                            let j = choose|j: int|
                                0 <= j < deleted_before.len() && (#[trigger] deleted_before[j])@
                                    == k;
                            assert(deleted@[j] == deleted_before[j]);
                        }
                    }
                }
            }
            i = i + 1;
        }
        proof {
            assert(full.take(rows_len as int) =~= full);
        }
        self.job_queue = kept;
        deleted
    }

    /// Whether the list of kind names contains the given name.
    fn names_contain(kinds: &Vec<String>, name: &String) -> (r: bool)
        ensures
            r == name_set(kinds@).contains(name@),
    {
        let mut i: usize = 0;
        while i < kinds.len()
            invariant
                i <= kinds@.len(),
                forall|j: int| 0 <= j < i ==> (#[trigger] kinds@[j])@ != name@,
            decreases kinds@.len() - i,
        {
            if kinds[i] == *name {
                proof {
                    assert((kinds@[i as int])@ == name@);
                }
                return true;
            }
            i = i + 1;
        }
        proof {
            if name_set(kinds@).contains(name@) {
                let j = choose|j: int| 0 <= j < kinds@.len() && (#[trigger] kinds@[j])@ == name@;
            }
        }
        false
    }
}

} // verus!
