use vstd::prelude::*;

verus! {

/// The lowercase hexadecimal SHA-256 digest of `data`.
pub uninterp spec fn sha256_hex(data: Seq<u8>) -> Seq<char>;

/// Relies on sha2's `Sha256::digest` and the `LowerHex` formatting of its
/// output: the digest of `data` as lowercase hex, a function of `data` alone.
#[verifier::external_body]
fn sha256_of(data: &[u8]) -> (r: String)
    ensures
        r@ == sha256_hex(data@),
{
    format!("{:x}", <sha2::Sha256 as sha2::Digest>::digest(data))
}

/// Failures of the healing steps.
#[derive(Clone, Debug, PartialEq, Eq)]
pub enum HealingError {
    ComponentNotFound(String),
    RestartFailure(String),
    BackupNotFound(String),
    IoError(String),
    SystemError(String),
}

/// A supervised artifact: its live path, its backup path, the SHA-256 (hex)
/// of a known-good copy, and the process running it, if tracked.
pub struct Component {
    pub name: String,
    pub path: String,
    pub backup_path: String,
    pub expected_hash: String,
    pub pid: Option<u32>,
}

/// The steps a component can be healed with. The contents of the live file
/// and of the backup are handed in and out as bytes; reading and writing
/// them, and signalling processes, is the caller's part.
pub trait Healable {
    /// Integrity holds of `content`.
    spec fn intact_with(&self, content: Seq<u8>) -> bool;

    /// The process being tracked, if any.
    spec fn tracked_pid(&self) -> Option<u32>;

    /// Where the backup lives.
    spec fn backup_location(&self) -> Seq<char>;

    /// What names the component: its name, live path and expected digest.
    spec fn identity(&self) -> (Seq<char>, Seq<char>, Seq<char>);

    /// Health from the liveness of the tracked process and the live contents.
    fn check_health(&self, process_alive: bool, live: &[u8]) -> (r: bool)
        ensures
            r == ((self.tracked_pid() is None || process_alive) && self.intact_with(live@)),
    ;

    /// Stops tracking the process; returns the pid that must be terminated.
    fn isolate(&mut self) -> (r: Option<u32>)
        ensures
            r == old(self).tracked_pid(),
            final(self).tracked_pid() is None,
            forall|c: Seq<u8>| final(self).intact_with(c) == old(self).intact_with(c),
            final(self).backup_location() == old(self).backup_location(),
            final(self).identity() == old(self).identity(),
    ;

    /// Restores the live contents from the backup and checks them: without a
    /// backup the live contents stay and the backup is reported missing;
    /// otherwise the backup is copied over and the repair succeeds exactly
    /// when the copy is intact.
    fn repair(&mut self, live: &mut Vec<u8>, backup: Option<&Vec<u8>>) -> (r: Result<(), HealingError>)
        ensures
            forall|c: Seq<u8>| final(self).intact_with(c) == old(self).intact_with(c),
            final(self).tracked_pid() == old(self).tracked_pid(),
            final(self).backup_location() == old(self).backup_location(),
            final(self).identity() == old(self).identity(),
            match backup {
                None => final(live)@ == old(live)@
                    && (r matches Err(HealingError::BackupNotFound(p)) && p@ == old(self).backup_location()),
                Some(b) => final(live)@ == b@ && (old(self).intact_with(b@) ==> r is Ok)
                    && (!old(self).intact_with(b@) ==> r matches Err(HealingError::RestartFailure(_))),
            },
    ;

    /// Fallback when repair fails: a fresh known-good copy, here the backup;
    /// it ends as `repair` does.
    fn replace(&mut self, live: &mut Vec<u8>, backup: Option<&Vec<u8>>) -> (r: Result<(), HealingError>)
        ensures
            forall|c: Seq<u8>| final(self).intact_with(c) == old(self).intact_with(c),
            final(self).tracked_pid() == old(self).tracked_pid(),
            final(self).backup_location() == old(self).backup_location(),
            final(self).identity() == old(self).identity(),
            match backup {
                None => final(live)@ == old(live)@
                    && (r matches Err(HealingError::BackupNotFound(p)) && p@ == old(self).backup_location()),
                Some(b) => final(live)@ == b@ && (old(self).intact_with(b@) ==> r is Ok)
                    && (!old(self).intact_with(b@) ==> r matches Err(HealingError::RestartFailure(_))),
            },
    ;
}

/// How a repair ended.
#[derive(Clone, Copy, Debug, PartialEq, Eq, Structural)]
pub enum RepairOutcome {
    Repaired,
    BackupMissing,
    VerificationFailed,
}

impl Component {
    /// Integrity holds of `content` when its digest is the expected one.
    pub open spec fn intact(&self, content: Seq<u8>) -> bool {
        sha256_hex(content) == self.expected_hash@
    }

    /// Healthy: the tracked process (if any) is alive and the contents intact.
    pub open spec fn healthy(&self, process_alive: bool, content: Seq<u8>) -> bool {
        (self.pid is None || process_alive) && self.intact(content)
    }

    /// The live contents after a repair, and how it ended: without a backup
    /// nothing changes; otherwise the backup is copied over and checked.
    pub open spec fn repair_result(&self, live: Seq<u8>, backup: Option<Seq<u8>>) -> (Seq<u8>, RepairOutcome) {
        match backup {
            None => (live, RepairOutcome::BackupMissing),
            Some(b) => (b, if self.intact(b) { RepairOutcome::Repaired } else { RepairOutcome::VerificationFailed }),
        }
    }

    pub fn new(name: &str, path: &str, backup_path: &str, expected_hash: &str) -> (r: Self)
        ensures
            r.name@ == name@,
            r.path@ == path@,
            r.backup_path@ == backup_path@,
            r.expected_hash@ == expected_hash@,
            r.pid is None,
    {
        Component {
            name: name.to_string(),
            path: path.to_string(),
            backup_path: backup_path.to_string(),
            expected_hash: expected_hash.to_string(),
            pid: None,
        }
    }

    /// SHA-256 of `content` as lowercase hex.
    pub fn calculate_hash(content: &[u8]) -> (r: String)
        ensures
            r@ == sha256_hex(content@),
    {
        sha256_of(content)
    }

    /// True when `content` hashes to the expected digest.
    pub fn verify_integrity(&self, content: &[u8]) -> (r: bool)
        ensures
            r == self.intact(content@),
    {
        let h = Self::calculate_hash(content);
        h == self.expected_hash
    }

    /// True when the tracked process (if any) is alive and `live` is intact.
    pub fn is_healthy(&self, process_alive: bool, live: &[u8]) -> (r: bool)
        ensures
            r == self.healthy(process_alive, live@),
    {
        (self.pid.is_none() || process_alive) && self.verify_integrity(live)
    }

    /// Stops tracking the process, whatever becomes of the signals sent to
    /// it; returns the pid that was tracked.
    pub fn isolate_process(&mut self) -> (r: Option<u32>)
        ensures
            r == old(self).pid,
            final(self).pid is None,
            final(self).name == old(self).name,
            final(self).path == old(self).path,
            final(self).backup_path == old(self).backup_path,
            final(self).expected_hash == old(self).expected_hash,
    {
        let pid = self.pid;
        self.pid = None;
        pid
    }

    /// Copies the backup over the live contents and checks the result.
    pub fn repair_contents(&mut self, live: &mut Vec<u8>, backup: Option<&Vec<u8>>) -> (r: Result<(), HealingError>)
        ensures
            *final(self) == *old(self),
            ({
                let (after, outcome) = old(self).repair_result(old(live)@, match backup {
                    Some(b) => Some(b@),
                    None => None,
                });
                &&& final(live)@ == after
                &&& match outcome {
                    RepairOutcome::Repaired => r is Ok,
                    RepairOutcome::BackupMissing => r matches Err(HealingError::BackupNotFound(p)) && p@ == old(self).backup_path@,
                    RepairOutcome::VerificationFailed => r matches Err(HealingError::RestartFailure(_)),
                }
            }),
    {
        match backup {
            None => {
                let p = self.backup_path.clone();
                Err(HealingError::BackupNotFound(p))
            },
            Some(b) => {
                let copy = copy_bytes(b);
                *live = copy;
                if self.verify_integrity(live.as_slice()) {
                    Ok(())
                } else {
                    Err(HealingError::RestartFailure("Repair verification failed".to_string()))
                }
            },
        }
    }
}

fn copy_bytes(b: &Vec<u8>) -> (r: Vec<u8>)
    ensures
        r@ == b@,
{
    let mut r: Vec<u8> = Vec::new();
    let mut i: usize = 0;
    while i < b.len()
        invariant
            0 <= i <= b@.len(),
            r@ == b@.subrange(0, i as int),
        decreases b@.len() - i,
    {
        r.push(b[i]);
        i = i + 1;
    }
    assert(r@ =~= b@);
    r
}

impl Healable for Component {
    open spec fn intact_with(&self, content: Seq<u8>) -> bool {
        self.intact(content)
    }

    open spec fn tracked_pid(&self) -> Option<u32> {
        self.pid
    }

    open spec fn backup_location(&self) -> Seq<char> {
        self.backup_path@
    }

    open spec fn identity(&self) -> (Seq<char>, Seq<char>, Seq<char>) {
        (self.name@, self.path@, self.expected_hash@)
    }

    fn check_health(&self, process_alive: bool, live: &[u8]) -> (r: bool) {
        self.is_healthy(process_alive, live)
    }

    fn isolate(&mut self) -> (r: Option<u32>) {
        self.isolate_process()
    }

    fn repair(&mut self, live: &mut Vec<u8>, backup: Option<&Vec<u8>>) -> (r: Result<(), HealingError>) {
        self.repair_contents(live, backup)
    }

    fn replace(&mut self, live: &mut Vec<u8>, backup: Option<&Vec<u8>>) -> (r: Result<(), HealingError>) {
        self.repair_contents(live, backup)
    }
}

/// With a backup whose digest is the expected one, repair succeeds and the
/// live contents are then intact, whatever they were; with no backup, repair
/// fails with a missing backup and leaves the live contents as they were.
pub proof fn lemma_repair_from_good_backup(c: Component, live: Seq<u8>, backup: Seq<u8>)
    ensures
        c.intact(backup) ==> c.repair_result(live, Some(backup)) == (backup, RepairOutcome::Repaired)
            && c.intact(c.repair_result(live, Some(backup)).0),
        c.repair_result(live, None) == (live, RepairOutcome::BackupMissing),
{
}

/// Where a supervised component stands in the healing cycle.
#[derive(Clone, Copy, Debug, PartialEq, Eq, Structural)]
pub enum HealthState {
    Healthy,
    Degraded,
    Repairing,
    Replacing,
    Failed,
}

/// What the supervisor reports back after doing the requested step.
#[derive(Clone, Copy, Debug, PartialEq, Eq, Structural)]
pub enum HealthEvent {
    CheckPassed,
    CheckFailed,
    StepSucceeded,
    StepFailed,
}

/// What the supervisor must do next for the component.
#[derive(Clone, Copy, Debug, PartialEq, Eq, Structural)]
pub enum HealAction {
    Wait,
    Isolate,
    Repair,
    Replace,
    Alert,
}

/// The healing cycle. A failed check degrades a healthy component and asks
/// for isolation; isolation is best effort, so either result moves on to
/// repair; a failed repair falls back to replacement; a failed replacement
/// ends in `Failed` with an alert, and `Failed` is left only by a passing
/// check, never retried by itself. Events that do not apply change nothing.
pub open spec fn heal_step(s: HealthState, e: HealthEvent) -> (HealthState, HealAction) {
    match (s, e) {
        (HealthState::Healthy, HealthEvent::CheckFailed) => (HealthState::Degraded, HealAction::Isolate),
        (HealthState::Degraded, HealthEvent::StepSucceeded) => (HealthState::Repairing, HealAction::Repair),
        (HealthState::Degraded, HealthEvent::StepFailed) => (HealthState::Repairing, HealAction::Repair),
        (HealthState::Repairing, HealthEvent::StepSucceeded) => (HealthState::Healthy, HealAction::Wait),
        (HealthState::Repairing, HealthEvent::StepFailed) => (HealthState::Replacing, HealAction::Replace),
        (HealthState::Replacing, HealthEvent::StepSucceeded) => (HealthState::Healthy, HealAction::Wait),
        (HealthState::Replacing, HealthEvent::StepFailed) => (HealthState::Failed, HealAction::Alert),
        (HealthState::Failed, HealthEvent::CheckPassed) => (HealthState::Healthy, HealAction::Wait),
        _ => (s, HealAction::Wait),
    }
}

/// One transition of the healing cycle.
pub fn next_state(s: HealthState, e: HealthEvent) -> (r: (HealthState, HealAction))
    ensures
        r == heal_step(s, e),
{
    match (s, e) {
        (HealthState::Healthy, HealthEvent::CheckFailed) => (HealthState::Degraded, HealAction::Isolate),
        (HealthState::Degraded, HealthEvent::StepSucceeded) => (HealthState::Repairing, HealAction::Repair),
        (HealthState::Degraded, HealthEvent::StepFailed) => (HealthState::Repairing, HealAction::Repair),
        (HealthState::Repairing, HealthEvent::StepSucceeded) => (HealthState::Healthy, HealAction::Wait),
        (HealthState::Repairing, HealthEvent::StepFailed) => (HealthState::Replacing, HealAction::Replace),
        (HealthState::Replacing, HealthEvent::StepSucceeded) => (HealthState::Healthy, HealAction::Wait),
        (HealthState::Replacing, HealthEvent::StepFailed) => (HealthState::Failed, HealAction::Alert),
        (HealthState::Failed, HealthEvent::CheckPassed) => (HealthState::Healthy, HealAction::Wait),
        _ => (s, HealAction::Wait),
    }
}

/// A failed component stays failed, asking for nothing, until a check passes:
/// the cycle never loops on its own.
pub proof fn lemma_failed_is_not_retried(e: HealthEvent)
    ensures
        e != HealthEvent::CheckPassed ==> heal_step(HealthState::Failed, e) == (HealthState::Failed, HealAction::Wait),
{
}

/// The registry of supervised components, each with its place in the cycle;
/// names are unique.
pub struct HealthMonitor {
    pub components: Vec<(Component, HealthState)>,
    pub check_interval_secs: u64,
}

impl HealthMonitor {
    pub open spec fn wf(&self) -> bool {
        forall|i: int, j: int| 0 <= i < j < self.components@.len() ==> self.components@[i].0.name@ != self.components@[j].0.name@
    }

    pub open spec fn index_of(&self, name: Seq<char>) -> Option<int> {
        if exists|i: int| 0 <= i < self.components@.len() && self.components@[i].0.name@ == name {
            Some(choose|i: int| 0 <= i < self.components@.len() && self.components@[i].0.name@ == name)
        } else {
            None
        }
    }

    pub fn new(check_interval_secs: u64) -> (r: Self)
        ensures
            r.wf(),
            r.components@.len() == 0,
            r.check_interval_secs == check_interval_secs,
    {
        HealthMonitor { components: Vec::new(), check_interval_secs }
    }

    fn find(&self, name: &String) -> (r: Option<usize>)
        requires
            self.wf(),
        ensures
            match r {
                Some(i) => i < self.components@.len() && self.components@[i as int].0.name@ == name@
                    && self.index_of(name@) == Some(i as int),
                None => self.index_of(name@) is None,
            },
    {
        let mut i: usize = 0;
        while i < self.components.len()
            invariant
                self.wf(),
                0 <= i <= self.components@.len(),
                forall|j: int| 0 <= j < i ==> self.components@[j].0.name@ != name@,
            decreases self.components@.len() - i,
        {
            if self.components[i].0.name == *name {
                proof {
                    let k = choose|k: int| 0 <= k < self.components@.len() && self.components@[k].0.name@ == name@;
                    assert(k == i);
                }
                return Some(i);
            }
            i = i + 1;
        }
        None
    }

    /// Adds a component as healthy, replacing one registered under the same name.
    pub fn register_component(&mut self, component: Component)
        requires
            old(self).wf(),
        ensures
            final(self).wf(),
            final(self).check_interval_secs == old(self).check_interval_secs,
            match old(self).index_of(component.name@) {
                Some(i) => final(self).components@ == old(self).components@.update(i, (component, HealthState::Healthy)),
                None => final(self).components@ == old(self).components@.push((component, HealthState::Healthy)),
            },
    {
        match self.find(&component.name) {
            Some(i) => {
                let ghost before = self.components@;
                let ghost nm = component.name@;
                self.components.set(i, (component, HealthState::Healthy));
                proof {
                    assert forall|a: int, b: int| 0 <= a < b < self.components@.len() implies self.components@[a].0.name@ != self.components@[b].0.name@ by {
                        assert(before[a].0.name@ != before[b].0.name@);
                    }
                }
            },
            None => {
                self.components.push((component, HealthState::Healthy));
            },
        }
    }

    /// Feeds one event to the named component's cycle; returns the action to
    /// perform, or `ComponentNotFound`.
    pub fn handle_event(&mut self, name: &String, event: HealthEvent) -> (r: Result<HealAction, HealingError>)
        requires
            old(self).wf(),
        ensures
            final(self).wf(),
            match old(self).index_of(name@) {
                Some(i) => {
                    let (s, a) = heal_step(old(self).components@[i].1, event);
                    &&& r == Ok::<HealAction, HealingError>(a)
                    &&& final(self).components@ == old(self).components@.update(i, (old(self).components@[i].0, s))
                },
                None => r matches Err(HealingError::ComponentNotFound(n)) && n@ == name@
                    && final(self).components@ == old(self).components@,
            },
    {
        match self.find(name) {
            Some(i) => {
                let ghost before = self.components@;
                let (c, s) = self.components.remove(i);
                let (ns, a) = next_state(s, event);
                self.components.insert(i, (c, ns));
                proof {
                    assert(self.components@ =~= before.update(i as int, (before[i as int].0, ns)));
                    assert forall|x: int, y: int| 0 <= x < y < self.components@.len() implies self.components@[x].0.name@ != self.components@[y].0.name@ by {
                        assert(before[x].0.name@ != before[y].0.name@);
                    }
                }
                Ok(a)
            },
            None => Err(HealingError::ComponentNotFound(name.clone())),
        }
    }
}

/// The healing sequence for one unhealthy component: isolate it, repair it
/// from the backup, and if that fails, replace it. Returns the pid that must
/// be terminated and how healing ended.
pub fn heal_component(component: &mut Component, live: &mut Vec<u8>, backup: Option<&Vec<u8>>) -> (r: (Option<u32>, Result<(), HealingError>))
    ensures
        r.0 == old(component).pid,
        final(component).pid is None,
        final(component).expected_hash == old(component).expected_hash,
        final(component).backup_path == old(component).backup_path,
        ({
            let (after, outcome) = old(component).repair_result(old(live)@, match backup {
                Some(b) => Some(b@),
                None => None,
            });
            &&& final(live)@ == after
            &&& match outcome {
                RepairOutcome::Repaired => r.1 is Ok,
                RepairOutcome::BackupMissing => r.1 matches Err(HealingError::BackupNotFound(p)) && p@ == old(component).backup_path@,
                RepairOutcome::VerificationFailed => r.1 matches Err(HealingError::RestartFailure(_)),
            }
        }),
{
    let pid = component.isolate_process();
    let first = component.repair_contents(live, backup);
    match first {
        Ok(()) => (pid, Ok(())),
        Err(_) => {
            let second = component.repair_contents(live, backup);
            (pid, second)
        },
    }
}

/// A signal that isolation sends to a process.
#[derive(Clone, Copy, Debug, PartialEq, Eq, Structural)]
pub enum KillSignal {
    Terminate,
    Kill,
}

/// Where the isolation of a process stands.
#[derive(Clone, Copy, Debug, PartialEq, Eq, Structural)]
pub enum IsolationPhase {
    Start,
    Grace,
    Done,
}

/// Isolation: a graceful termination first; after the grace period a
/// forced kill, only if the process is still alive.
pub open spec fn isolation_step(phase: IsolationPhase, alive: bool) -> (IsolationPhase, Option<KillSignal>) {
    match phase {
        IsolationPhase::Start => (IsolationPhase::Grace, Some(KillSignal::Terminate)),
        IsolationPhase::Grace => if alive {
            (IsolationPhase::Done, Some(KillSignal::Kill))
        } else {
            (IsolationPhase::Done, None)
        },
        IsolationPhase::Done => (IsolationPhase::Done, None),
    }
}

/// One step of isolating a process, given whether it is alive now.
pub fn next_isolation(phase: IsolationPhase, alive: bool) -> (r: (IsolationPhase, Option<KillSignal>))
    ensures
        r == isolation_step(phase, alive),
{
    match phase {
        IsolationPhase::Start => (IsolationPhase::Grace, Some(KillSignal::Terminate)),
        IsolationPhase::Grace => if alive {
            (IsolationPhase::Done, Some(KillSignal::Kill))
        } else {
            (IsolationPhase::Done, None)
        },
        IsolationPhase::Done => (IsolationPhase::Done, None),
    }
}

} // verus!
