//! Deciding which kernels to add or drop, and how a configuration is rolled out.
use vstd::prelude::*;
use crate::controller::kernel::{
    KernelAddr, KernelAddrView, KernelHandle, KernelHandleState, KernelManager, addr_views, dedup_addrs, dedup_kernel_addrs, handle_addrs,
    lemma_dedup_addrs, lemma_states_first_wins_dom, states_first_wins,
};
use crate::controller::kernel::connection::KernelGrpcConnectionError;
use crate::text::concat2;
use crate::seqs::{lemma_push_contains, lemma_push_no_duplicates, lemma_take_next, lemma_not_before};
use crate::keyed::KeyedVec;
use crate::paths::{file_stem_of, std_file_stem};

pub mod k8s;
pub mod local;
pub mod uds;

verus! {

/// Why discovering kernels failed.
#[derive(Debug)]
pub enum KernelDiscoveryError {
    /// The message of an I/O error.
    IoError(String),
    /// A socket path without a file stem.
    SocketWithoutFileStem(String),
}

/// Records a kernel socket found while scanning the socket directory: the kernel is named
/// after the socket file's stem. A path without a stem is refused.
pub fn record_kernel_socket(instances: &mut KeyedVec<String, KernelAddr>, path: String) -> (r: Result<(), KernelDiscoveryError>)
    ensures
        r is Ok <==> std_file_stem(path@) is Some,
        r is Ok ==> final(instances).map() == old(instances).map().insert(std_file_stem(path@)->0, KernelAddr::Uds(path)),
        r is Err ==> r == Err::<(), KernelDiscoveryError>(KernelDiscoveryError::SocketWithoutFileStem(path))
            && final(instances).map() == old(instances).map(),
{
    match file_stem_of(path.as_str()) {
        Some(stem) => {
            instances.insert(stem, KernelAddr::Uds(path));
            Ok(())
        },
        None => Err(KernelDiscoveryError::SocketWithoutFileStem(path)),
    }
}

/// What a scan of kernels asks of the table: addresses to start tracking and addresses to drop.
pub struct KernelRefreshPlan {
    pub to_add: Vec<KernelAddr>,
    pub to_remove: Vec<KernelAddr>,
}

/// Compares the kernels found by a scan with the table: found but untracked kernels are
/// added (each once), tracked kernels that were not found are removed.
pub fn refresh_kernels<C>(manager: &KernelManager<C>, discovered: &[KernelAddr]) -> (p: KernelRefreshPlan)
    ensures
        addr_views(p.to_add@).no_duplicates(),
        addr_views(p.to_remove@).no_duplicates(),
        addr_views(p.to_add@).to_set() == addr_views(discovered@).to_set().difference(manager.table().dom()),
        addr_views(p.to_remove@).to_set() == manager.table().dom().difference(addr_views(discovered@).to_set()),
{
    let found = dedup_kernel_addrs(discovered);
    proof { lemma_dedup_addrs(addr_views(discovered@)); }
    let mut to_add: Vec<KernelAddr> = Vec::new();
    let mut i: usize = 0;
    while i < found.len()
        invariant
            i <= found@.len(),
            addr_views(found@).no_duplicates(),
            addr_views(to_add@).no_duplicates(),
            forall|a: KernelAddrView| addr_views(to_add@).contains(a) <==>
                (addr_views(found@).take(i as int).contains(a) && !manager.table().dom().contains(a)),
        decreases found@.len() - i,
    {
        let ghost prev = to_add@;
        let ghost x = found@[i as int]@;
        proof {
            assert(addr_views(found@)[i as int] == x);
            lemma_take_next(addr_views(found@), i as int);
            lemma_push_contains(addr_views(found@).take(i as int), x);
            lemma_not_before(addr_views(found@), i as int);
        }
        if !manager.contains_key(&found[i]) {
            to_add.push(found[i].duplicate());
            proof {
                assert(addr_views(to_add@) =~= addr_views(prev).push(x));
                lemma_push_contains(addr_views(prev), x);
                lemma_push_no_duplicates(addr_views(prev), x);
            }
        }
        i = i + 1;
    }
    let existing = manager.addrs();
    let mut to_remove: Vec<KernelAddr> = Vec::new();
    let mut j: usize = 0;
    while j < existing.len()
        invariant
            j <= existing@.len(),
            addr_views(existing@).no_duplicates(),
            addr_views(to_remove@).no_duplicates(),
            forall|a: KernelAddrView| addr_views(to_remove@).contains(a) <==>
                (addr_views(existing@).take(j as int).contains(a) && !addr_views(found@).contains(a)),
        decreases existing@.len() - j,
    {
        let ghost prev = to_remove@;
        let ghost x = existing@[j as int]@;
        proof {
            assert(addr_views(existing@)[j as int] == x);
            lemma_take_next(addr_views(existing@), j as int);
            lemma_push_contains(addr_views(existing@).take(j as int), x);
            lemma_not_before(addr_views(existing@), j as int);
        }
        let mut seen = false;
        let mut q: usize = 0;
        while q < found.len()
            invariant
                q <= found@.len(),
                j < existing@.len(),
                seen == exists|r: int| 0 <= r < q && found@[r]@ == existing@[j as int]@,
            decreases found@.len() - q,
        {
            if found[q].same_as(&existing[j]) {
                seen = true;
            }
            q = q + 1;
        }
        proof {
            if seen {
                let r = choose|r: int| 0 <= r < q && found@[r]@ == existing@[j as int]@;
                assert(addr_views(found@)[r] == x);
            } else {
                assert forall|r: int| 0 <= r < addr_views(found@).len() implies addr_views(found@)[r] != x by {
                    assert(addr_views(found@)[r] == found@[r]@);
                }
            }
        }
        if !seen {
            to_remove.push(existing[j].duplicate());
            proof {
                assert(addr_views(to_remove@) =~= addr_views(prev).push(x));
                lemma_push_contains(addr_views(prev), x);
                lemma_push_no_duplicates(addr_views(prev), x);
            }
        }
        j = j + 1;
    }
    proof {
        assert(addr_views(found@).take(found@.len() as int) =~= addr_views(found@));
        assert(addr_views(existing@).take(existing@.len() as int) =~= addr_views(existing@));
        assert(addr_views(to_add@).to_set() =~= addr_views(discovered@).to_set().difference(manager.table().dom()));
        assert forall|a: KernelAddrView| addr_views(existing@).contains(a) <==> manager.table().dom().contains(a) by {
            assert(addr_views(existing@).to_set().contains(a) == addr_views(existing@).contains(a));
        }
        assert(addr_views(to_remove@).to_set() =~= manager.table().dom().difference(addr_views(discovered@).to_set()));
    }
    KernelRefreshPlan { to_add, to_remove }
}

/// After a refresh plan is carried out (its removals, then one handle for each address it
/// adds), the table tracks exactly the kernels that the scan found: each kernel that was
/// tracked and found again keeps its handle as it was, and each newly found kernel is
/// tracked with the handle made for it.
pub proof fn lemma_refresh_tracks_discovered<C>(
    before: Map<KernelAddrView, KernelHandleState<C>>,
    discovered: Seq<KernelAddrView>,
    to_add: Seq<KernelAddrView>,
    to_remove: Seq<KernelAddrView>,
    added: Seq<KernelHandle<C>>,
    after: Map<KernelAddrView, KernelHandleState<C>>,
)
    requires
        to_add.to_set() == discovered.to_set().difference(before.dom()),
        to_remove.to_set() == before.dom().difference(discovered.to_set()),
        handle_addrs(added).to_set() == to_add.to_set(),
        after == before.remove_keys(to_remove.to_set()).union_prefer_right(states_first_wins(added)),
    ensures
        after.dom() == discovered.to_set(),
        forall|a: KernelAddrView| before.dom().contains(a) && discovered.contains(a) ==> after[a] == before[a],
        forall|a: KernelAddrView| !before.dom().contains(a) && discovered.contains(a)
            ==> after[a] == states_first_wins(added)[a],
{
    lemma_states_first_wins_dom(added);
    assert forall|a: KernelAddrView| discovered.contains(a) <==> discovered.to_set().contains(a) by {}
    assert(after.dom() =~= discovered.to_set());
}

/// Results of one request to several kernels, one per kernel.
pub type KernelResults = Vec<(KernelAddr, Result<(), KernelGrpcConnectionError>)>;

/// Every result succeeded.
pub open spec fn all_ok(s: Seq<(KernelAddr, Result<(), KernelGrpcConnectionError>)>) -> bool {
    forall|i: int| 0 <= i < s.len() ==> #[trigger] s[i].1 is Ok
}

/// The kernels whose result succeeded, in order.
pub open spec fn ok_addrs(s: Seq<(KernelAddr, Result<(), KernelGrpcConnectionError>)>) -> Seq<KernelAddrView>
    decreases s.len(),
{
    if s.len() == 0 {
        Seq::empty()
    } else if s.last().1 is Ok {
        ok_addrs(s.drop_last()).push(s.last().0@)
    } else {
        ok_addrs(s.drop_last())
    }
}

/// The kernels whose result succeeded, in order.
pub fn succeeded_kernels(results: &KernelResults) -> (r: Vec<KernelAddr>)
    ensures
        addr_views(r@) == ok_addrs(results@),
{
    let mut r: Vec<KernelAddr> = Vec::new();
    let mut i: usize = 0;
    while i < results.len()
        invariant
            i <= results@.len(),
            addr_views(r@) == ok_addrs(results@.take(i as int)),
        decreases results@.len() - i,
    {
        proof { assert(results@.take(i + 1).drop_last() =~= results@.take(i as int)); }
        let ghost prev = r@;
        if results[i].1.is_ok() {
            r.push(results[i].0.duplicate());
            assert(addr_views(r@) =~= addr_views(prev).push(results@[i as int].0@));
        }
        i = i + 1;
    }
    assert(results@.take(results@.len() as int) =~= results@);
    r
}

/// Whether some result failed.
pub fn any_failed(results: &KernelResults) -> (b: bool)
    ensures
        b == !all_ok(results@),
{
    let mut i: usize = 0;
    while i < results.len()
        invariant
            i <= results@.len(),
            forall|j: int| 0 <= j < i ==> #[trigger] results@[j].1 is Ok,
        decreases results@.len() - i,
    {
        if results[i].1.is_err() {
            return true;
        }
        i = i + 1;
    }
    false
}

/// The phase in which a rollout failed.
#[derive(Debug)]
pub enum RolloutPhase {
    Prepare,
    Commit,
    RollbackPrepare,
    RollbackCommit,
}

impl RolloutPhase {
    /// The name of the phase as reported: `prepare`, `commit`, `rollback_prepare`, `rollback_commit`.
    pub fn name(&self) -> (s: &'static str)
        ensures
            self is Prepare ==> s@ == "prepare"@,
            self is Commit ==> s@ == "commit"@,
            self is RollbackPrepare ==> s@ == "rollback_prepare"@,
            self is RollbackCommit ==> s@ == "rollback_commit"@,
    {
        match self {
            RolloutPhase::Prepare => "prepare",
            RolloutPhase::Commit => "commit",
            RolloutPhase::RollbackPrepare => "rollback_prepare",
            RolloutPhase::RollbackCommit => "rollback_commit",
        }
    }
}

/// How a rollout ended.
#[derive(Debug)]
pub enum RolloutStatus {
    Succeeded,
    Failed { phase: RolloutPhase },
}

/// What a rollout did, phase by phase, with the result of every kernel.
pub struct ConfigRolloutReport {
    pub transaction_id: String,
    pub all_or_nothing: bool,
    pub status: RolloutStatus,
    pub prepare_results: KernelResults,
    pub commit_results: KernelResults,
    pub abort_results: KernelResults,
    pub rollback_transaction_id: Option<String>,
    pub rollback_prepare_results: KernelResults,
    pub rollback_commit_results: KernelResults,
    pub rollback_abort_results: KernelResults,
}

/// What a finished rollout reports, all or nothing: the new configuration is taken only
/// when every kernel prepared and committed it; a failed prepare is aborted on the
/// kernels that prepared; a failed commit is aborted and, when an earlier configuration
/// exists, rolled back on the kernels that committed.
pub open spec fn report_consistent(r: ConfigRolloutReport, has_previous: bool) -> bool {
    let p = r.prepare_results@;
    let c = r.commit_results@;
    let rp = r.rollback_prepare_results@;
    let rc = r.rollback_commit_results@;
    &&& r.all_or_nothing
    &&& (r.status is Succeeded <==> (all_ok(p) && all_ok(c)))
    &&& (r.status matches RolloutStatus::Failed { phase: RolloutPhase::Prepare } <==> !all_ok(p))
    &&& (!all_ok(p) ==> c.len() == 0 && r.rollback_transaction_id is None)
    &&& (r.status is Succeeded ==> r.abort_results@.len() == 0 && r.rollback_transaction_id is None)
    &&& (r.rollback_transaction_id is Some <==> (all_ok(p) && !all_ok(c) && has_previous))
    &&& (r.rollback_transaction_id is None ==> rp.len() == 0 && rc.len() == 0 && r.rollback_abort_results@.len() == 0)
    &&& (r.status matches RolloutStatus::Failed { phase: RolloutPhase::RollbackPrepare }
        <==> (r.rollback_transaction_id is Some && !all_ok(rp)))
    &&& (r.status matches RolloutStatus::Failed { phase: RolloutPhase::RollbackCommit }
        <==> (r.rollback_transaction_id is Some && all_ok(rp) && !all_ok(rc)))
    &&& (r.status matches RolloutStatus::Failed { phase: RolloutPhase::Commit }
        <==> (all_ok(p) && !all_ok(c) && (r.rollback_transaction_id is None || (all_ok(rp) && all_ok(rc)))))
    &&& (!all_ok(rp) ==> rc.len() == 0)
}

/// Where a rollout stands.
pub enum RolloutStage {
    /// Waiting for the results of preparing the new configuration everywhere.
    Preparing,
    /// Waiting for the results of committing it everywhere.
    Committing,
    /// Waiting for the results of aborting after a failed prepare.
    AbortingPrepared,
    /// Waiting for the results of aborting after a failed commit.
    AbortingCommitted,
    /// Waiting for the results of preparing the earlier configuration again.
    RollbackPreparing,
    /// Waiting for the results of committing the earlier configuration again.
    RollbackCommitting,
    /// Waiting for the results of aborting the rollback.
    RollbackAborting,
    /// Finished.
    Done,
}

/// The next request of a rollout, or its end.
pub enum RolloutAction {
    /// Prepare the new configuration on every tracked kernel.
    PrepareAll { transaction_id: String },
    /// Commit the prepared transaction on every tracked kernel.
    CommitAll { transaction_id: String, version: String },
    /// Abort the transaction on these kernels.
    AbortFor { transaction_id: String, kernel_addrs: Vec<KernelAddr> },
    /// Prepare the earlier configuration on these kernels.
    PrepareFor { transaction_id: String, kernel_addrs: Vec<KernelAddr> },
    /// Commit the earlier configuration on these kernels.
    CommitFor { transaction_id: String, version: String, kernel_addrs: Vec<KernelAddr> },
    /// The rollout is over; the new configuration becomes the current one when `adopt_new_config`.
    Finish { report: ConfigRolloutReport, adopt_new_config: bool },
}

/// An all-or-nothing rollout of a configuration: prepare everywhere, then commit
/// everywhere, aborting and rolling back on failure.
pub struct ConfigRollout {
    pub stage: RolloutStage,
    pub transaction_id: String,
    pub version: String,
    pub previous_version: Option<String>,
    pub prepare_results: KernelResults,
    pub commit_results: KernelResults,
    pub abort_results: KernelResults,
    pub rollback_transaction_id: Option<String>,
    pub rollback_prepare_results: KernelResults,
    pub rollback_commit_results: KernelResults,
    pub rollback_abort_results: KernelResults,
    pub failed_phase: RolloutPhase,
}

impl ConfigRollout {
    /// What has been recorded fits the stage.
    pub open spec fn wf(&self) -> bool {
        let p = self.prepare_results@;
        let c = self.commit_results@;
        let rp = self.rollback_prepare_results@;
        let rc = self.rollback_commit_results@;
        let no_rollback = self.rollback_transaction_id is None && rp.len() == 0 && rc.len() == 0
            && self.rollback_abort_results@.len() == 0;
        match self.stage {
            RolloutStage::Preparing => p.len() == 0 && c.len() == 0 && self.abort_results@.len() == 0 && no_rollback,
            RolloutStage::Committing => all_ok(p) && c.len() == 0 && self.abort_results@.len() == 0 && no_rollback,
            RolloutStage::AbortingPrepared => !all_ok(p) && c.len() == 0 && self.abort_results@.len() == 0 && no_rollback,
            RolloutStage::AbortingCommitted => all_ok(p) && !all_ok(c) && self.abort_results@.len() == 0 && no_rollback,
            RolloutStage::RollbackPreparing => all_ok(p) && !all_ok(c) && self.previous_version is Some
                && self.rollback_transaction_id is Some && rp.len() == 0 && rc.len() == 0
                && self.rollback_abort_results@.len() == 0,
            RolloutStage::RollbackCommitting => all_ok(p) && !all_ok(c) && self.previous_version is Some
                && self.rollback_transaction_id is Some && all_ok(rp) && rc.len() == 0
                && self.rollback_abort_results@.len() == 0,
            RolloutStage::RollbackAborting => all_ok(p) && !all_ok(c) && self.previous_version is Some
                && self.rollback_transaction_id is Some && self.rollback_abort_results@.len() == 0
                && ((!all_ok(rp) && rc.len() == 0 && self.failed_phase is RollbackPrepare)
                    || (all_ok(rp) && !all_ok(rc) && self.failed_phase is RollbackCommit)),
            RolloutStage::Done => true,
        }
    }
}

/// A fresh transaction id (`Uuid::now_v7` of the uuid crate, in its hyphenated text form).
/// Nothing is claimed of the value: it depends on the clock and on chance.
#[verifier::external_body]
fn fresh_transaction_id() -> (id: String)
{
    uuid::Uuid::now_v7().to_string()
}

/// The text `-rollback`.
pub open spec fn rollback_suffix() -> Seq<char> {
    seq!['-', 'r', 'o', 'l', 'l', 'b', 'a', 'c', 'k']
}

/// Starts an all-or-nothing rollout of a configuration whose digest is `version`;
/// `previous_version` is the digest of the current configuration, if there is one.
/// The first request prepares the new configuration on every kernel.
pub fn update_config(version: String, previous_version: Option<String>) -> (r: (ConfigRollout, RolloutAction))
    ensures
        r.0.wf(),
        r.0.stage is Preparing,
        r.0.version@ == version@,
        r.0.previous_version == previous_version,
        r.1 matches RolloutAction::PrepareAll { transaction_id } && transaction_id@ == r.0.transaction_id@,
{
    let transaction_id = fresh_transaction_id();
    let action = RolloutAction::PrepareAll { transaction_id: transaction_id.clone() };
    let rollout = ConfigRollout {
        stage: RolloutStage::Preparing,
        transaction_id,
        version,
        previous_version,
        prepare_results: Vec::new(),
        commit_results: Vec::new(),
        abort_results: Vec::new(),
        rollback_transaction_id: None,
        rollback_prepare_results: Vec::new(),
        rollback_commit_results: Vec::new(),
        rollback_abort_results: Vec::new(),
        failed_phase: RolloutPhase::Prepare,
    };
    (rollout, action)
}

/// `report` holds what the rollout `m` recorded.
pub open spec fn report_records(report: ConfigRolloutReport, m: ConfigRollout) -> bool {
    &&& report.transaction_id@ == m.transaction_id@
    &&& report.all_or_nothing
    &&& report.prepare_results@ == m.prepare_results@
    &&& report.commit_results@ == m.commit_results@
    &&& report.abort_results@ == m.abort_results@
    &&& report.rollback_transaction_id == m.rollback_transaction_id
    &&& report.rollback_prepare_results@ == m.rollback_prepare_results@
    &&& report.rollback_commit_results@ == m.rollback_commit_results@
    &&& report.rollback_abort_results@ == m.rollback_abort_results@
}

/// The rollout ended: its report and whether the new configuration is taken.
pub open spec fn finished_as(
    r: (ConfigRollout, RolloutAction),
    m: ConfigRollout,
    succeeded: bool,
) -> bool {
    &&& r.0.stage is Done
    &&& r.1 matches RolloutAction::Finish { report, adopt_new_config }
    &&& adopt_new_config == succeeded
    &&& (report.status is Succeeded <==> succeeded)
    &&& report_records(report, m)
    &&& report_consistent(report, m.previous_version is Some)
}

/// The next request aborts `txn` on exactly `addrs`.
pub open spec fn aborts(a: RolloutAction, txn: Seq<char>, addrs: Seq<KernelAddrView>) -> bool {
    a matches RolloutAction::AbortFor { transaction_id, kernel_addrs }
        && transaction_id@ == txn && addr_views(kernel_addrs@) == addrs
}

/// The next request commits `txn` everywhere under `version`.
pub open spec fn commits_all(a: RolloutAction, txn: Seq<char>, ver: Seq<char>) -> bool {
    a matches RolloutAction::CommitAll { transaction_id, version } && transaction_id@ == txn && version@ == ver
}

/// The next request prepares the earlier configuration under `txn` on exactly `addrs`.
pub open spec fn prepares_previous(a: RolloutAction, txn: Seq<char>, addrs: Seq<KernelAddrView>) -> bool {
    a matches RolloutAction::PrepareFor { transaction_id, kernel_addrs }
        && transaction_id@ == txn && addr_views(kernel_addrs@) == addrs
}

/// The next request commits the earlier configuration under `txn` and `ver` on exactly `addrs`.
pub open spec fn commits_previous(a: RolloutAction, txn: Seq<char>, ver: Seq<char>, addrs: Seq<KernelAddrView>) -> bool {
    a matches RolloutAction::CommitFor { transaction_id, version, kernel_addrs }
        && transaction_id@ == txn && version@ == ver && addr_views(kernel_addrs@) == addrs
}

impl ConfigRollout {
    fn finish(self, status: RolloutStatus, adopt_new_config: bool) -> (r: (ConfigRollout, RolloutAction))
        ensures
            r.0.stage is Done,
            r.0.transaction_id@ == self.transaction_id@,
            r.0.version@ == self.version@,
            r.0.previous_version == self.previous_version,
            r.1 matches RolloutAction::Finish { report, adopt_new_config: a }
                && a == adopt_new_config && report_records(report, self) && report.status == status,
    {
        let ConfigRollout {
            stage: _,
            transaction_id,
            version,
            previous_version,
            prepare_results,
            commit_results,
            abort_results,
            rollback_transaction_id,
            rollback_prepare_results,
            rollback_commit_results,
            rollback_abort_results,
            failed_phase,
        } = self;
        let report = ConfigRolloutReport {
            transaction_id: transaction_id.clone(),
            all_or_nothing: true,
            status,
            prepare_results,
            commit_results,
            abort_results,
            rollback_transaction_id,
            rollback_prepare_results,
            rollback_commit_results,
            rollback_abort_results,
        };
        let done = ConfigRollout {
            stage: RolloutStage::Done,
            transaction_id,
            version,
            previous_version,
            prepare_results: Vec::new(),
            commit_results: Vec::new(),
            abort_results: Vec::new(),
            rollback_transaction_id: None,
            rollback_prepare_results: Vec::new(),
            rollback_commit_results: Vec::new(),
            rollback_abort_results: Vec::new(),
            failed_phase,
        };
        (done, RolloutAction::Finish { report, adopt_new_config })
    }

    /// Takes the results of the last request and decides the next one.
    pub fn step(self, results: KernelResults) -> (r: (ConfigRollout, RolloutAction))
        requires
            self.wf(),
            !(self.stage is Done),
        ensures
            r.0.wf(),
            match self.stage {
                RolloutStage::Preparing => if all_ok(results@) {
                    r.0 == (ConfigRollout { stage: RolloutStage::Committing, prepare_results: results, ..self })
                        && commits_all(r.1, self.transaction_id@, self.version@)
                } else {
                    r.0 == (ConfigRollout { stage: RolloutStage::AbortingPrepared, prepare_results: results, ..self })
                        && aborts(r.1, self.transaction_id@, ok_addrs(results@))
                },
                RolloutStage::Committing => if all_ok(results@) {
                    finished_as(r, ConfigRollout { commit_results: results, ..self }, true)
                } else {
                    r.0 == (ConfigRollout { stage: RolloutStage::AbortingCommitted, commit_results: results, ..self })
                        && aborts(r.1, self.transaction_id@, ok_addrs(self.prepare_results@))
                },
                RolloutStage::AbortingPrepared => finished_as(r, ConfigRollout { abort_results: results, ..self }, false),
                RolloutStage::AbortingCommitted => if self.previous_version is Some {
                    r.0 == (ConfigRollout {
                        stage: RolloutStage::RollbackPreparing,
                        abort_results: results,
                        rollback_transaction_id: r.0.rollback_transaction_id,
                        ..self
                    })
                        && r.0.rollback_transaction_id is Some
                        && crate::text::has_suffix(r.0.rollback_transaction_id->0@, rollback_suffix())
                        && prepares_previous(r.1, r.0.rollback_transaction_id->0@, ok_addrs(self.commit_results@))
                } else {
                    finished_as(r, ConfigRollout { abort_results: results, ..self }, false)
                },
                RolloutStage::RollbackPreparing => if all_ok(results@) {
                    r.0 == (ConfigRollout { stage: RolloutStage::RollbackCommitting, rollback_prepare_results: results, ..self })
                        && commits_previous(r.1, self.rollback_transaction_id->0@,
                        self.previous_version->0@, ok_addrs(results@))
                } else {
                    r.0 == (ConfigRollout {
                        stage: RolloutStage::RollbackAborting,
                        rollback_prepare_results: results,
                        failed_phase: RolloutPhase::RollbackPrepare,
                        ..self
                    })
                        && aborts(r.1, self.rollback_transaction_id->0@, ok_addrs(results@))
                },
                RolloutStage::RollbackCommitting => if all_ok(results@) {
                    finished_as(r, ConfigRollout { rollback_commit_results: results, ..self }, false)
                } else {
                    r.0 == (ConfigRollout {
                        stage: RolloutStage::RollbackAborting,
                        rollback_commit_results: results,
                        failed_phase: RolloutPhase::RollbackCommit,
                        ..self
                    })
                        && aborts(r.1, self.rollback_transaction_id->0@, ok_addrs(self.rollback_prepare_results@))
                },
                RolloutStage::RollbackAborting => finished_as(r, ConfigRollout { rollback_abort_results: results, ..self }, false),
                RolloutStage::Done => true,
            },
            r.0.transaction_id@ == self.transaction_id@,
            r.0.version@ == self.version@,
            r.0.previous_version == self.previous_version,
    {
        match self.stage {
            RolloutStage::Preparing => {
                let failed = any_failed(&results);
                let prepared = succeeded_kernels(&results);
                let txn = self.transaction_id.clone();
                let version = self.version.clone();
                let next = ConfigRollout {
                    stage: if failed { RolloutStage::AbortingPrepared } else { RolloutStage::Committing },
                    prepare_results: results,
                    ..self
                };
                if failed {
                    (next, RolloutAction::AbortFor { transaction_id: txn, kernel_addrs: prepared })
                } else {
                    (next, RolloutAction::CommitAll { transaction_id: txn, version })
                }
            },
            RolloutStage::Committing => {
                let failed = any_failed(&results);
                let prepared = succeeded_kernels(&self.prepare_results);
                let txn = self.transaction_id.clone();
                if failed {
                    let next = ConfigRollout {
                        stage: RolloutStage::AbortingCommitted,
                        commit_results: results,
                        ..self
                    };
                    (next, RolloutAction::AbortFor { transaction_id: txn, kernel_addrs: prepared })
                } else {
                    let m = ConfigRollout { commit_results: results, ..self };
                    m.finish(RolloutStatus::Succeeded, true)
                }
            },
            RolloutStage::AbortingPrepared => {
                let m = ConfigRollout { abort_results: results, ..self };
                m.finish(RolloutStatus::Failed { phase: RolloutPhase::Prepare }, false)
            },
            RolloutStage::AbortingCommitted => {
                if self.previous_version.is_some() {
                    let fresh = fresh_transaction_id();
                    let id = concat2(fresh.as_str(), "-rollback");
                    proof {
                        reveal_strlit("-rollback");
                        assert("-rollback"@ =~= rollback_suffix());
                        assert(id@.subrange(id@.len() - rollback_suffix().len(), id@.len() as int) =~= rollback_suffix());
                    }
                    let committed = succeeded_kernels(&self.commit_results);
                    let action = RolloutAction::PrepareFor { transaction_id: id.clone(), kernel_addrs: committed };
                    let next = ConfigRollout {
                        stage: RolloutStage::RollbackPreparing,
                        abort_results: results,
                        rollback_transaction_id: Some(id),
                        ..self
                    };
                    (next, action)
                } else {
                    let m = ConfigRollout { abort_results: results, ..self };
                    m.finish(RolloutStatus::Failed { phase: RolloutPhase::Commit }, false)
                }
            },
            RolloutStage::RollbackPreparing => {
                let failed = any_failed(&results);
                let prepared = succeeded_kernels(&results);
                let txn = self.rollback_transaction_id.clone().unwrap();
                if failed {
                    let next = ConfigRollout {
                        stage: RolloutStage::RollbackAborting,
                        rollback_prepare_results: results,
                        failed_phase: RolloutPhase::RollbackPrepare,
                        ..self
                    };
                    (next, RolloutAction::AbortFor { transaction_id: txn, kernel_addrs: prepared })
                } else {
                    let version = self.previous_version.clone().unwrap();
                    let next = ConfigRollout {
                        stage: RolloutStage::RollbackCommitting,
                        rollback_prepare_results: results,
                        ..self
                    };
                    (next, RolloutAction::CommitFor { transaction_id: txn, version, kernel_addrs: prepared })
                }
            },
            RolloutStage::RollbackCommitting => {
                let failed = any_failed(&results);
                if failed {
                    let prepared = succeeded_kernels(&self.rollback_prepare_results);
                    let txn = self.rollback_transaction_id.clone().unwrap();
                    let next = ConfigRollout {
                        stage: RolloutStage::RollbackAborting,
                        rollback_commit_results: results,
                        failed_phase: RolloutPhase::RollbackCommit,
                        ..self
                    };
                    (next, RolloutAction::AbortFor { transaction_id: txn, kernel_addrs: prepared })
                } else {
                    let m = ConfigRollout { rollback_commit_results: results, ..self };
                    m.finish(RolloutStatus::Failed { phase: RolloutPhase::Commit }, false)
                }
            },
            RolloutStage::RollbackAborting => {
                let phase = match self.failed_phase {
                    RolloutPhase::Prepare => RolloutPhase::Prepare,
                    RolloutPhase::Commit => RolloutPhase::Commit,
                    RolloutPhase::RollbackPrepare => RolloutPhase::RollbackPrepare,
                    RolloutPhase::RollbackCommit => RolloutPhase::RollbackCommit,
                };
                let m = ConfigRollout { rollback_abort_results: results, ..self };
                m.finish(RolloutStatus::Failed { phase }, false)
            },
            RolloutStage::Done => {
                (self, RolloutAction::Finish { report: ConfigRolloutReport {
                    transaction_id: String::new(),
                    all_or_nothing: true,
                    status: RolloutStatus::Succeeded,
                    prepare_results: Vec::new(),
                    commit_results: Vec::new(),
                    abort_results: Vec::new(),
                    rollback_transaction_id: None,
                    rollback_prepare_results: Vec::new(),
                    rollback_commit_results: Vec::new(),
                    rollback_abort_results: Vec::new(),
                }, adopt_new_config: false })
            },
        }
    }
}

} // verus!
