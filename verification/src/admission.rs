//! Admission of client connections: the server serves at most a set number
//! of connections at a time, and none once it has been stopped.
use vstd::prelude::*;

verus! {

/// Model of the admission state.
pub struct AdmissionModel {
    /// Most connections served at a time.
    pub max_connections: nat,
    /// Connections being served.
    pub active: nat,
    /// Whether the server accepts connections.
    pub running: bool,
}

/// Whether a model is one that the admission state can be in.
pub open spec fn admission_wf(s: AdmissionModel) -> bool {
    s.active <= s.max_connections
}

/// The state after a connection asks to be served, and whether it is: it is
/// served exactly when the server runs and serves fewer connections than
/// its limit.
pub open spec fn admit_spec(s: AdmissionModel) -> (AdmissionModel, bool) {
    if s.running && s.active < s.max_connections {
        (AdmissionModel { active: s.active + 1, ..s }, true)
    } else {
        (s, false)
    }
}

/// The state after a served connection ends.
pub open spec fn release_spec(s: AdmissionModel) -> AdmissionModel {
    AdmissionModel { active: if s.active > 0 { (s.active - 1) as nat } else { 0 }, ..s }
}

/// The state after `n` connections ask to be served while none ends, and
/// how many of them are served.
pub open spec fn admit_many(s: AdmissionModel, n: nat) -> (AdmissionModel, nat)
    decreases n,
{
    if n == 0 {
        (s, 0)
    } else {
        let (s1, served) = admit_spec(s);
        let (s2, k) = admit_many(s1, (n - 1) as nat);
        (s2, if served { k + 1 } else { k })
    }
}

/// The admission state of a server.
pub struct Admission {
    max_connections: usize,
    active: usize,
    running: bool,
}

impl View for Admission {
    type V = AdmissionModel;

    closed spec fn view(&self) -> AdmissionModel {
        AdmissionModel {
            max_connections: self.max_connections as nat,
            active: self.active as nat,
            running: self.running,
        }
    }
}

impl Admission {
    #[verifier::type_invariant]
    spec fn inv(self) -> bool {
        self.active <= self.max_connections
    }

    /// The state of a server that serves at most `max_connections` at a
    /// time; it serves none until it is started.
    pub fn new(max_connections: usize) -> (admission: Admission)
        ensures
            admission@ == (AdmissionModel {
                max_connections: max_connections as nat,
                active: 0,
                running: false,
            }),
    {
        Admission { max_connections, active: 0, running: false }
    }

    /// Starts accepting connections.
    pub fn start(&mut self)
        ensures
            final(self)@ == (AdmissionModel { running: true, ..old(self)@ }),
    {
        proof {
            use_type_invariant(&*self);
        }
        self.running = true;
    }

    /// Stops accepting connections; served connections end at their next
    /// frame boundary.
    pub fn stop(&mut self)
        ensures
            final(self)@ == (AdmissionModel { running: false, ..old(self)@ }),
    {
        proof {
            use_type_invariant(&*self);
        }
        self.running = false;
    }

    /// Whether the server accepts connections.
    pub fn is_running(&self) -> (running: bool)
        ensures
            running == self@.running,
    {
        self.running
    }

    /// Whether the server has stopped and every served connection has
    /// ended.
    pub fn has_shut_down(&self) -> (done: bool)
        ensures
            done == (!self@.running && self@.active == 0),
    {
        !self.running && self.active == 0
    }

    /// How many connections are being served.
    pub fn active_connections(&self) -> (active: usize)
        ensures
            active == self@.active,
            active <= self@.max_connections,
    {
        proof {
            use_type_invariant(self);
        }
        self.active
    }

    /// The most connections served at a time.
    pub fn max_connections(&self) -> (max: usize)
        ensures
            max == self@.max_connections,
    {
        self.max_connections
    }

    /// A connection asks to be served; returns whether it is.
    pub fn try_admit(&mut self) -> (admitted: bool)
        ensures
            (final(self)@, admitted) == admit_spec(old(self)@),
    {
        proof {
            use_type_invariant(&*self);
        }
        if self.running && self.active < self.max_connections {
            self.active = self.active + 1;
            true
        } else {
            false
        }
    }

    /// A served connection has ended.
    pub fn release(&mut self)
        ensures
            final(self)@ == release_spec(old(self)@),
    {
        proof {
            use_type_invariant(&*self);
        }
        if self.active > 0 {
            self.active = self.active - 1;
        }
    }
}

/// Admitting and releasing never take the number of served connections
/// beyond the limit.
pub proof fn lemma_limit_kept(s: AdmissionModel)
    requires
        admission_wf(s),
    ensures
        admission_wf(admit_spec(s).0),
        admission_wf(release_spec(s)),
{
}

/// When `n` connections ask to be served while none ends, exactly as many
/// are served as the limit leaves room for (none once stopped), and the
/// rest are refused.
pub proof fn lemma_admissions_capped(s: AdmissionModel, n: nat)
    requires
        admission_wf(s),
    ensures
        admit_many(s, n).1 == (if s.running {
            if n <= s.max_connections - s.active {
                n as int
            } else {
                s.max_connections - s.active
            }
        } else {
            0
        }),
        admit_many(s, n).0 == (AdmissionModel { active: s.active + admit_many(s, n).1, ..s }),
    decreases n,
{
    if n > 0 {
        let s1 = admit_spec(s).0;
        lemma_admissions_capped(s1, (n - 1) as nat);
    }
}

/// A connection that ends lowers the number of served connections by
/// exactly one, whether or not the server still runs, and changes nothing
/// else; with none served, it changes nothing.
pub proof fn lemma_release_counts_down(s: AdmissionModel)
    ensures
        s.active > 0 ==> release_spec(s).active + 1 == s.active,
        s.active == 0 ==> release_spec(s) == s,
        release_spec(s).running == s.running,
        release_spec(s).max_connections == s.max_connections,
{
}

/// A connection is served exactly when the server runs and serves fewer
/// connections than its limit; serving it raises the count by one and
/// changes nothing else, and refusing it changes nothing.
pub proof fn lemma_admit_exact(s: AdmissionModel)
    ensures
        admit_spec(s).1 <==> (s.running && s.active < s.max_connections),
        admit_spec(s).1 ==> admit_spec(s).0.active == s.active + 1,
        admit_spec(s).0.running == s.running,
        admit_spec(s).0.max_connections == s.max_connections,
        !admit_spec(s).1 ==> admit_spec(s).0 == s,
{
}

/// A stopped server serves no new connection.
pub proof fn lemma_stopped_admits_none(s: AdmissionModel)
    requires
        !s.running,
    ensures
        admit_spec(s) == (s, false),
{
}

/// A connection that is served and then ends leaves the state as it was.
pub proof fn lemma_release_undoes_admit(s: AdmissionModel)
    requires
        admit_spec(s).1,
    ensures
        release_spec(admit_spec(s).0) == s,
{
}

} // verus!
