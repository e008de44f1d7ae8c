//! Many downloads under way at once.
//!
//! The requests of a crowd share one registry. Each has its own download
//! and its own hold on the repository, and they take their steps in any
//! order: a schedule names, turn by turn, the request that goes next. What
//! is shown here is that no schedule loses a download: at every moment the
//! counter of a crate has grown by the number of downloads of it that were
//! served, neither more nor less.

use crate::download::{next, opened, ActionView, DownloadView, StepView};
use crate::names::canonical;
use crate::registry::{answered, RegistryView};
use crate::repo::{applied, is_keyed, CrateView, Table};
use crate::version::VersionView;
use vstd::prelude::*;

verus! {

/// One request for a download: the name and the version as the client
/// wrote them, and what reading the version gave.
pub struct Request {
    pub name: Seq<char>,
    pub requested: Seq<char>,
    pub parsed: Option<VersionView>,
}

/// The requests under way, each with its download, the step it is at and
/// its hold on the repository, and the registry they share.
pub struct Crowd {
    pub registry: RegistryView,
    pub states: Seq<DownloadView>,
    pub steps: Seq<StepView>,
    pub holds: Seq<Option<Seq<Seq<char>>>>,
}

/// The crowd of requests that have just come in: every download is opened
/// and none has a hold yet.
pub open spec fn gathered(registry: RegistryView, requests: Seq<Request>) -> Crowd {
    Crowd {
        registry,
        states: Seq::new(
            requests.len(),
            |i: int| opened(requests[i].name, requests[i].requested, requests[i].parsed).0,
        ),
        steps: Seq::new(
            requests.len(),
            |i: int| opened(requests[i].name, requests[i].requested, requests[i].parsed).1,
        ),
        holds: Seq::new(requests.len(), |i: int| None),
    }
}

/// The crowd after request `i` has taken one step: the work that its
/// download asks for is done on the shared registry, and the download goes
/// on. A request that is done, or that is not of the crowd, changes
/// nothing.
pub open spec fn turn(crowd: Crowd, i: int) -> Crowd {
    if 0 <= i < crowd.steps.len() && crowd.steps[i] is Ask {
        let (reply, registry, hold) = answered(
            crowd.registry,
            crowd.holds[i],
            crowd.steps[i]->Ask_0,
        );
        let (state, step) = next(crowd.states[i], reply);
        Crowd {
            registry,
            states: crowd.states.update(i, state),
            steps: crowd.steps.update(i, step),
            holds: crowd.holds.update(i, hold),
        }
    } else {
        crowd
    }
}

/// The crowd after the turns of a schedule.
pub open spec fn scheduled(crowd: Crowd, schedule: Seq<int>) -> Crowd
    decreases schedule.len(),
{
    if schedule.len() == 0 {
        crowd
    } else {
        turn(scheduled(crowd, schedule.drop_last()), schedule.last())
    }
}

/// Whether a step is the end of a download that was served.
pub open spec fn is_served(step: StepView) -> bool {
    step matches StepView::Done(Ok(_))
}

/// How many of the first `upto` steps are ends of downloads that were
/// served.
pub open spec fn served_upto(steps: Seq<StepView>, upto: int) -> nat
    decreases upto,
{
    if upto <= 0 {
        0
    } else if is_served(steps[upto - 1]) {
        served_upto(steps, upto - 1) + 1
    } else {
        served_upto(steps, upto - 1)
    }
}

/// How many downloads of a crowd were served.
pub open spec fn served(crowd: Crowd) -> nat {
    served_upto(crowd.steps, crowd.steps.len() as int)
}

/// The table with the counter of one crate grown by a number.
pub open spec fn counted(table: Table, key: Seq<char>, more: nat) -> Table {
    table.insert(
        key,
        CrateView { name: table[key].name, downloads: (table[key].downloads + more) as u64 },
    )
}

/// What a download of the crate `key`, whose row has the name `kept`, holds
/// at each step: nothing before its unit of work has begun and after it has
/// ended, and in between no statement or the one increment, according to
/// how far it has come.
spec fn in_step(
    state: DownloadView,
    step: StepView,
    hold: Option<Seq<Seq<char>>>,
    key: Seq<char>,
    kept: Seq<char>,
) -> bool {
    match step {
        StepView::Done(_) => state is Finished && hold is None,
        StepView::Ask(action) => match state {
            DownloadView::Beginning { canonical, .. } => canonical == key && action
                == ActionView::Begin && hold is None,
            DownloadView::Finding { canonical, .. } => canonical == key && action
                == (ActionView::FindCrate { canonical }) && hold == Some(Seq::<Seq<char>>::empty()),
            DownloadView::Counting { name, .. } => name == kept && action
                == (ActionView::IncrementDownloads { name }) && hold == Some(
                Seq::<Seq<char>>::empty(),
            ),
            DownloadView::Reading { name, .. } => name == kept && action is ReadArtifact && hold
                == Some(seq![kept]),
            DownloadView::Committing { .. } => action == ActionView::Commit && hold == Some(
                seq![kept],
            ),
            DownloadView::RollingBack { .. } => action == ActionView::Rollback && (hold == Some(
                Seq::<Seq<char>>::empty(),
            ) || hold == Some(seq![kept])),
            DownloadView::Finished => false,
        },
    }
}

/// What holds of a crowd of downloads of one crate at every moment.
spec fn in_order(crowd: Crowd, before: RegistryView, key: Seq<char>) -> bool {
    &&& crowd.states.len() == crowd.steps.len()
    &&& crowd.holds.len() == crowd.steps.len()
    &&& before.repo.crates[key].downloads + served(crowd) <= u64::MAX
    &&& crowd.registry.repo.crates == counted(before.repo.crates, key, served(crowd))
    &&& crowd.registry.store == before.store
    &&& crowd.registry.repo.capacity == before.repo.capacity
    &&& forall|i: int|
        0 <= i < crowd.steps.len() ==> in_step(
            crowd.states[i],
            #[trigger] crowd.steps[i],
            crowd.holds[i],
            key,
            before.repo.crates[key].name,
        )
}

proof fn served_after_update(steps: Seq<StepView>, i: int, step: StepView, upto: int)
    requires
        0 <= i < steps.len(),
        0 <= upto <= steps.len(),
    ensures
        served_upto(steps.update(i, step), upto) + (if i < upto && is_served(steps[i]) {
            1nat
        } else {
            0nat
        }) == served_upto(steps, upto) + (if i < upto && is_served(step) {
            1nat
        } else {
            0nat
        }),
    decreases upto,
{
    if upto > 0 {
        served_after_update(steps, i, step, upto - 1);
    }
}

proof fn none_served_at_first(requests: Seq<Request>, registry: RegistryView, upto: int)
    requires
        0 <= upto <= requests.len(),
    ensures
        served_upto(gathered(registry, requests).steps, upto) == 0,
    decreases upto,
{
    if upto > 0 {
        none_served_at_first(requests, registry, upto - 1);
    }
}

proof fn turn_keeps_order(crowd: Crowd, i: int, before: RegistryView, key: Seq<char>)
    requires
        is_keyed(before.repo.crates),
        before.repo.crates.contains_key(key),
        in_order(crowd, before, key),
    ensures
        in_order(turn(crowd, i), before, key),
{
    let after = turn(crowd, i);
    if 0 <= i < crowd.steps.len() && crowd.steps[i] is Ask {
        let kept = before.repo.crates[key].name;
        let table = crowd.registry.repo.crates;
        let action = crowd.steps[i]->Ask_0;
        let (reply, registry, hold) = answered(crowd.registry, crowd.holds[i], action);
        let (state, step) = next(crowd.states[i], reply);
        assert(in_step(crowd.states[i], crowd.steps[i], crowd.holds[i], key, kept));
        assert(canonical(kept) == key);
        assert(table.contains_key(key) && table[key].name == kept);
        served_after_update(crowd.steps, i, step, crowd.steps.len() as int);
        assert(!is_served(crowd.steps[i]));
        assert(seq![kept].drop_last() =~= Seq::<Seq<char>>::empty());
        assert(applied(table, seq![kept].drop_last()) == Some(table));
        assert(applied(table, Seq::<Seq<char>>::empty()) == Some(table));
        assert(Seq::<Seq<char>>::empty().push(kept) =~= seq![kept]);
        if is_served(step) {
            assert(crowd.states[i] is Committing);
            assert(table[key].downloads < u64::MAX);
            assert(registry.repo.crates =~= counted(before.repo.crates, key, served(after)));
        } else {
            assert(served(after) == served(crowd));
            assert(registry.repo.crates =~= table);
        }
        assert(in_step(state, step, hold, key, kept));
        assert forall|j: int| 0 <= j < after.steps.len() implies in_step(
            after.states[j],
            #[trigger] after.steps[j],
            after.holds[j],
            key,
            kept,
        ) by {
            if j != i {
                assert(in_step(crowd.states[j], crowd.steps[j], crowd.holds[j], key, kept));
            }
        }
    }
}

proof fn schedule_keeps_order(crowd: Crowd, schedule: Seq<int>, before: RegistryView, key: Seq<char>)
    requires
        is_keyed(before.repo.crates),
        before.repo.crates.contains_key(key),
        in_order(crowd, before, key),
    ensures
        in_order(scheduled(crowd, schedule), before, key),
    decreases schedule.len(),
{
    if schedule.len() > 0 {
        schedule_keeps_order(crowd, schedule.drop_last(), before, key);
        turn_keeps_order(scheduled(crowd, schedule.drop_last()), schedule.last(), before, key);
    }
}

/// No schedule loses a download. Let any number of requests for one crate
/// come in at once, in whatever spellings of its name and for whatever
/// versions, and let them take their steps in any order, as far as the
/// schedule goes. Then the counter of the crate has grown by exactly the
/// number of downloads that were served, and nothing else in the registry
/// has changed: not another crate, not the store.
pub proof fn no_download_is_lost(
    before: RegistryView,
    requests: Seq<Request>,
    schedule: Seq<int>,
    key: Seq<char>,
)
    requires
        is_keyed(before.repo.crates),
        before.repo.crates.contains_key(key),
        forall|i: int| 0 <= i < requests.len() ==> canonical((#[trigger] requests[i]).name) == key,
    ensures
        ({
            let end = scheduled(gathered(before, requests), schedule);
            &&& before.repo.crates[key].downloads + served(end) <= u64::MAX
            &&& end.registry.repo.crates == counted(before.repo.crates, key, served(end))
            &&& end.registry.repo.crates[key].downloads == before.repo.crates[key].downloads + served(
                end,
            )
            &&& end.registry.store == before.store
        }),
{
    let start = gathered(before, requests);
    none_served_at_first(requests, before, requests.len() as int);
    assert(counted(before.repo.crates, key, 0) =~= before.repo.crates);
    assert forall|i: int| 0 <= i < start.steps.len() implies in_step(
        start.states[i],
        #[trigger] start.steps[i],
        start.holds[i],
        key,
        before.repo.crates[key].name,
    ) by {
        assert(canonical(requests[i].name) == key);
    }
    schedule_keeps_order(start, schedule, before, key);
}

/// When every request of a crowd has been served, the counter has grown by
/// the number of the requests.
pub proof fn all_served_all_counted(steps: Seq<StepView>, upto: int)
    requires
        0 <= upto <= steps.len(),
        forall|i: int| 0 <= i < upto ==> is_served(#[trigger] steps[i]),
    ensures
        served_upto(steps, upto) == upto,
    decreases upto,
{
    if upto > 0 {
        all_served_all_counted(steps, upto - 1);
    }
}

} // verus!
