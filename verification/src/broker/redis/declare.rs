//! The declaration of the queues of a Redis broker.

use vstd::prelude::*;

use crate::broker::redis::batch::{ReadOptionsView, RedisStreamsBatchReader};
use crate::broker::redis::queue::{
    declared_views, setup_begin, setup_expects, setup_keeps_its_target, setup_next, BroadcastQueue,
    CooperativeQueue, QueueConfig, QueueSetup, QueueView, RedisQueue, SetupAction, SetupActionView,
    SetupEvent, SetupEventView, SetupStep, SetupStepView, SetupView, GROUP,
};
use crate::string_map::StringMap;

verus! {

/// The queues of one kind.
pub open spec fn queues_of_kind(queues: Map<Seq<char>, QueueConfig>, broadcast: bool) -> Set<
    Seq<char>,
> {
    queues.dom().filter(|name: Seq<char>| queues[name].broadcast == broadcast)
}

/// Counts the queues of one kind.
pub fn count_queues(queues: &StringMap<QueueConfig>, broadcast: bool) -> (r: usize)
    ensures
        r == queues_of_kind(queues@, broadcast).len(),
        queues_of_kind(queues@, broadcast).finite(),
{
    let count = queues.len();
    let ghost keys = queues.keys();
    let ghost mut seen = Set::<Seq<char>>::empty();
    let mut found: usize = 0;
    let mut i: usize = 0;
    while i < count
        invariant
            found <= i <= count,
            count == keys.len(),
            keys == queues.keys(),
            keys.no_duplicates(),
            forall|key: Seq<char>| queues@.contains_key(key) <==> #[trigger] keys.contains(key),
            seen.finite(),
            found == seen.len(),
            forall|key: Seq<char>| #[trigger]
                seen.contains(key) <==> queues@.contains_key(key) && queues@[key].broadcast
                    == broadcast && exists|j: int| 0 <= j < i && #[trigger] keys[j] == key,
        decreases count - i,
    {
        assert(keys.contains(keys[i as int]));
        if queues.value(i).broadcast == broadcast {
            found = found + 1;
            proof {
                seen = seen.insert(keys[i as int]);
            }
        }
        i = i + 1;
    }
    proof {
        assert(seen =~= queues_of_kind(queues@, broadcast)) by {
            assert forall|key: Seq<char>| queues@.contains_key(key) implies exists|j: int|
                0 <= j < keys.len() && #[trigger] keys[j] == key by {
                assert(keys.contains(key));
            }
        }
    }
    found
}

/// How a reader of the given kind reads, where a command may take `connection_timeout`
/// seconds: it waits for half of that time.
pub open spec fn read_options(
    broadcast: bool,
    connection_timeout: u32,
    consumer: Seq<char>,
) -> ReadOptionsView {
    ReadOptionsView {
        count: Some(1),
        block: Some((connection_timeout * 500) as u128 as usize),
        group: if broadcast {
            None
        } else {
            Some((GROUP@, consumer))
        },
    }
}

/// The reader of the queues of one kind.
pub fn reader_of_kind(
    queues: &StringMap<QueueConfig>,
    broadcast: bool,
    connection_timeout: u32,
    consumer: &str,
) -> (r: RedisStreamsBatchReader)
    ensures
        r@.size == queues_of_kind(queues@, broadcast).len(),
        r@.options == read_options(broadcast, connection_timeout, consumer@),
        r@.processed == Map::<Seq<char>, Seq<Seq<char>>>::empty(),
{
    let size = count_queues(queues, broadcast);
    let wait_time_ms = connection_timeout as u128 * 500;
    if broadcast {
        RedisStreamsBatchReader::broadcast(size, wait_time_ms)
    } else {
        RedisStreamsBatchReader::cooperative(size, wait_time_ms, GROUP, consumer)
    }
}

/// The declaration of some queues, one after the other.
#[derive(Debug)]
pub struct DeclareTask<'a> {
    configs: &'a StringMap<QueueConfig>,
    consumer: &'a str,
    at: usize,
    setup: Option<QueueSetup>,
    declared: StringMap<RedisQueue>,
}

/// The model of a [`DeclareTask`].
#[verifier::ext_equal]
pub struct DeclareView {
    pub configs: Map<Seq<char>, QueueConfig>,
    pub consumer: Seq<char>,
    /// The queues that are not declared yet. The first one is at work.
    pub pending: Seq<Seq<char>>,
    /// How far the first queue is set up.
    pub setup: Option<SetupView>,
    pub declared: Map<Seq<char>, QueueView>,
}

/// The model of an optional setup.
pub open spec fn opt_setup(setup: Option<QueueSetup>) -> Option<SetupView> {
    match setup {
        Some(s) => Some(s@),
        None => None,
    }
}

impl<'a> View for DeclareTask<'a> {
    type V = DeclareView;

    closed spec fn view(&self) -> DeclareView {
        DeclareView {
            configs: self.configs@,
            consumer: self.consumer@,
            pending: self.configs.keys().skip(self.at as int),
            setup: opt_setup(self.setup),
            declared: declared_views(self.declared@),
        }
    }
}

/// What comes after an event.
pub enum DeclareStep<'a, E> {
    /// Something is to be asked of the server.
    Go(DeclareTask<'a>, SetupAction),
    /// All queues are declared.
    Finished(StringMap<RedisQueue>),
    /// The server refused something.
    Failed(E),
}

/// The model of a [`DeclareStep`].
pub enum DeclareStepView<E> {
    Go(DeclareView, SetupActionView),
    Finished(Map<Seq<char>, QueueView>),
    Failed(E),
}

impl<'a, E> View for DeclareStep<'a, E> {
    type V = DeclareStepView<E>;

    open spec fn view(&self) -> DeclareStepView<E> {
        match *self {
            DeclareStep::Go(task, action) => DeclareStepView::Go(task@, action@),
            DeclareStep::Finished(queues) => DeclareStepView::Finished(declared_views(queues@)),
            DeclareStep::Failed(e) => DeclareStepView::Failed(e),
        }
    }
}

impl DeclareView {
    /// The task at another point of the setting up of its first queue.
    pub open spec fn at(self, setup: Option<SetupView>) -> DeclareView {
        DeclareView { setup, ..self }
    }

    /// The task once the first queue is declared.
    pub open spec fn with_queue(self, queue: QueueView) -> DeclareView {
        DeclareView {
            pending: self.pending.drop_first(),
            setup: None,
            declared: self.declared.insert(self.pending[0], queue),
            ..self
        }
    }

    /// The first queue, as it is to be.
    pub open spec fn first(self) -> QueueView {
        QueueView { queue: self.pending[0], broadcast: self.configs[self.pending[0]].broadcast }
    }
}

/// Turns to the first queue that is left.
pub open spec fn turn_to_first<E>(task: DeclareView) -> DeclareStepView<E> {
    if task.pending.len() == 0 {
        DeclareStepView::Finished(task.declared)
    } else {
        let begun = setup_begin(task.first(), GROUP@, task.consumer);
        DeclareStepView::Go(task.at(Some(begun.0)), begun.1)
    }
}

/// What comes after an event.
pub open spec fn next<E>(task: DeclareView, event: SetupEventView<E>) -> DeclareStepView<E> {
    match setup_next(task.setup->0, event) {
        SetupStepView::Go(setup, action) => DeclareStepView::Go(task.at(Some(setup)), action),
        SetupStepView::Ready(queue) => turn_to_first(task.with_queue(queue)),
        SetupStepView::Failed(e) => DeclareStepView::Failed(e),
    }
}

/// Whether a declared queue is what was asked for.
pub open spec fn fits(config: QueueConfig, name: Seq<char>, queue: QueueView) -> bool {
    queue == QueueView { queue: name, broadcast: config.broadcast }
}

/// What holds of the task between steps: each queue that is asked for is either declared, as
/// it was asked for, or among those to come, once.
pub open spec fn in_progress(task: DeclareView) -> bool {
    &&& task.pending.no_duplicates()
    &&& forall|name: Seq<char>| #[trigger]
        task.pending.contains(name) ==> task.configs.contains_key(name)
            && !task.declared.contains_key(name)
    &&& forall|name: Seq<char>| #[trigger]
        task.configs.contains_key(name) ==> task.pending.contains(name)
            || task.declared.contains_key(name)
    &&& forall|name: Seq<char>| #[trigger]
        task.declared.contains_key(name) ==> task.configs.contains_key(name) && fits(
            task.configs[name],
            name,
            task.declared[name],
        )
    &&& task.setup matches Some(setup) ==> task.pending.len() > 0 && setup.target() == task.first()
}

/// Whether the declared queues are all that were asked for, each as it was asked for.
pub open spec fn all_declared(
    configs: Map<Seq<char>, QueueConfig>,
    declared: Map<Seq<char>, QueueView>,
) -> bool {
    &&& declared.dom() == configs.dom()
    &&& forall|name: Seq<char>| #[trigger]
        declared.contains_key(name) ==> fits(configs[name], name, declared[name])
}

/// What the task promises of a step: it goes on in good order with the same queues to
/// declare, or has declared them all.
pub open spec fn keeps_order<E>(task: DeclareView, step: DeclareStepView<E>) -> bool {
    match step {
        DeclareStepView::Go(after, _) => in_progress(after) && after.setup is Some && after.configs
            == task.configs,
        DeclareStepView::Finished(declared) => all_declared(task.configs, declared),
        DeclareStepView::Failed(_) => true,
    }
}

/// Turning to the next queue keeps the order.
pub proof fn turning_keeps_order<E>(task: DeclareView)
    requires
        in_progress(task),
        task.setup is None,
    ensures
        keeps_order(task, turn_to_first::<E>(task)),
{
    if task.pending.len() == 0 {
        assert forall|name: Seq<char>| #[trigger] task.configs.contains_key(name) implies
            task.declared.contains_key(name) by {
            assert(!task.pending.contains(name));
        }
        assert(task.declared.dom() =~= task.configs.dom());
    } else {
        let begun = task.at(Some(setup_begin(task.first(), GROUP@, task.consumer).0));
        assert(begun.pending == task.pending);
        assert(begun.configs == task.configs);
        assert(begun.declared == task.declared);
    }
}

/// With one more queue declared the task is still in good order.
proof fn one_more_is_declared(task: DeclareView)
    requires
        in_progress(task),
        task.pending.len() > 0,
    ensures
        in_progress(task.with_queue(task.first())),
{
    let first = task.pending[0];
    let rest = task.pending.drop_first();
    let after = task.with_queue(task.first());
    assert(after.pending == rest);
    assert(task.pending.contains(first));
    assert forall|name: Seq<char>| #[trigger] rest.contains(name) implies task.pending.contains(
        name,
    ) && name != first by {
        let i = choose|i: int| 0 <= i < rest.len() && rest[i] == name;
        assert(task.pending[i + 1] == name);
    }
    assert forall|name: Seq<char>| task.pending.contains(name) && name != first implies
        #[trigger] rest.contains(name) by {
        let i = choose|i: int| 0 <= i < task.pending.len() && task.pending[i] == name;
        assert(rest[i - 1] == name);
    }
    assert(rest.no_duplicates()) by {
        assert forall|i: int, j: int|
            0 <= i < rest.len() && 0 <= j < rest.len() && i != j implies rest[i] != rest[j] by {
            assert(rest[i] == task.pending[i + 1]);
            assert(rest[j] == task.pending[j + 1]);
        }
    }
}

/// Every step keeps the declaration in good order, and when it is finished each queue that
/// was asked for is there, as it was asked for, and no other.
pub proof fn declaration_is_complete<E>(task: DeclareView, event: SetupEventView<E>)
    requires
        in_progress(task),
        task.setup is Some,
    ensures
        keeps_order(task, next(task, event)),
{
    let setup = task.setup->0;
    setup_keeps_its_target(setup, event);
    match setup_next(setup, event) {
        SetupStepView::Go(after, _) => {
            let later = task.at(Some(after));
            assert(later.pending == task.pending);
            assert(later.configs == task.configs);
            assert(later.declared == task.declared);
        },
        SetupStepView::Ready(queue) => {
            one_more_is_declared(task);
            turning_keeps_order::<E>(task.with_queue(queue));
        },
        SetupStepView::Failed(_) => {},
    }
}

/// Starts the declaration of some queues for a consumer.
pub fn declare_queues<'a>(queues: &'a StringMap<QueueConfig>, consumer: &'a str) -> (r:
    DeclareTask<'a>)
    ensures
        r@ == (DeclareView {
            configs: queues@,
            consumer: consumer@,
            pending: queues.keys(),
            setup: None,
            declared: Map::empty(),
        }),
        in_progress(r@),
{
    let count = queues.len();
    let task = DeclareTask {
        configs: queues,
        consumer,
        at: 0,
        setup: None,
        declared: StringMap::new(),
    };
    proof {
        assert(queues.keys().skip(0) =~= queues.keys());
        assert(declared_views(task.declared@) =~= Map::empty());
    }
    task
}

impl<'a> DeclareTask<'a> {
    #[verifier::type_invariant]
    spec fn wf(self) -> bool {
        self.at <= self.configs.keys().len()
    }

    /// Turns to the first queue that is left.
    pub fn begin<E>(self) -> (r: DeclareStep<'a, E>)
        ensures
            r@ == turn_to_first::<E>(self@),
    {
        proof {
            use_type_invariant(&self);
        }
        if self.at >= self.configs.len() {
            return DeclareStep::Finished(self.declared);
        }
        let name = self.configs.key(self.at);
        let config = self.configs.value(self.at);
        let ghost keys = self.configs.keys();
        assert(keys.skip(self.at as int)[0] == keys[self.at as int]);
        let (setup, action) = if config.broadcast {
            BroadcastQueue::new(name)
        } else {
            CooperativeQueue::new(name, GROUP, self.consumer)
        };
        DeclareStep::Go(DeclareTask { setup: Some(setup), ..self }, action)
    }

    /// What comes after an event.
    pub fn step<E>(self, event: SetupEvent<E>) -> (r: DeclareStep<'a, E>)
        requires
            self@.setup matches Some(setup) && setup_expects(setup, event@),
            self@.pending.len() > 0,
        ensures
            r@ == next(self@, event@),
    {
        proof {
            use_type_invariant(&self);
        }
        let ghost before = self@;
        let ghost keys = self.configs.keys();
        let setup = match self.setup {
            Some(setup) => setup,
            None => {
                assert(false);
                return DeclareStep::Finished(self.declared);
            },
        };
        let task = DeclareTask { setup: None, ..self };
        match setup.step(event) {
            SetupStep::Go(setup, action) => DeclareStep::Go(
                DeclareTask { setup: Some(setup), ..task },
                action,
            ),
            SetupStep::Ready(queue) => {
                assert(keys.skip(task.at as int)[0] == keys[task.at as int]);
                assert(keys.skip(task.at as int).drop_first() =~= keys.skip(task.at + 1));
                let count = task.configs.len();
                let name = task.configs.key(task.at).to_owned();
                let mut declared = task.declared;
                declared.insert(name, queue);
                let after = DeclareTask { at: task.at + 1, declared, ..task };
                assert(after@ =~= before.with_queue(queue@));
                after.begin()
            },
            SetupStep::Failed(e) => DeclareStep::Failed(e),
        }
    }
}

/// The queues of a kind are those that were asked for as such, and every queue is of one kind.
pub proof fn every_queue_is_of_one_kind(queues: Map<Seq<char>, QueueConfig>, name: Seq<char>)
    ensures
        queues_of_kind(queues, true).contains(name) <==> queues.contains_key(name)
            && queues[name].broadcast,
        queues_of_kind(queues, false).contains(name) <==> queues.contains_key(name)
            && !queues[name].broadcast,
{
}

/// A reader reads one entry of each stream at a time and waits for half of the time that a command
/// may take, in milliseconds. A reader of shared queues reads in the group of the workers as the
/// consumer that was given, and one of broadcast queues in no group.
pub proof fn readers_wait_for_half_of_the_time(
    broadcast: bool,
    connection_timeout: u32,
    consumer: Seq<char>,
)
    ensures
        ({
            let options = read_options(broadcast, connection_timeout, consumer);
            &&& options.count == Some(1usize)
            &&& connection_timeout * 500 <= usize::MAX ==> (options.block matches Some(ms) && 2 * ms
                == connection_timeout * 1000)
            &&& options.block is Some
            &&& broadcast ==> options.group is None
            &&& !broadcast ==> (options.group matches Some(g) && g.0 == "_celery"@ && g.1
                == consumer)
        }),
{
}

/// The queue that is turned to is the first one that is left, and it is set up as it was asked
/// for: a broadcast queue by its first entry, a shared one in the group of the workers for the
/// consumer that was given. Where none is left, the declaration is finished with what is declared.
pub proof fn the_first_queue_is_set_up<E>(task: DeclareView)
    ensures
        task.pending.len() == 0 ==> turn_to_first::<E>(task) == DeclareStepView::<E>::Finished(
            task.declared,
        ),
        task.pending.len() > 0 ==> {
            let name = task.pending[0];
            &&& turn_to_first::<E>(task) matches DeclareStepView::Go(after, action)
            &&& after.pending == task.pending && after.declared == task.declared && after.configs
                == task.configs && after.consumer == task.consumer
            &&& task.configs[name].broadcast ==> after.setup == Some(
                SetupView::Adding { queue: name },
            ) && (action matches SetupActionView::AddEntry { key, .. } && key == name)
            &&& !task.configs[name].broadcast ==> after.setup == Some(
                SetupView::Grouping { queue: name, group: "_celery"@, consumer: task.consumer },
            ) && (action matches SetupActionView::CreateGroup { key, group, .. } && key == name
                && group == "_celery"@)
        },
{
}

/// The declaration does of each queue what its setting up does: it goes on with it, fails as it
/// fails, and enters the queue under its name once it is ready, whereupon the next one is turned
/// to.
pub proof fn declaring_is_setting_up<E>(task: DeclareView, event: SetupEventView<E>)
    requires
        task.setup is Some,
        task.pending.len() > 0,
    ensures
        match setup_next(task.setup->0, event) {
            SetupStepView::Go(setup, action) => next(task, event) matches DeclareStepView::Go(
                after,
                a,
            ) && a == action && after == task.at(Some(setup)),
            SetupStepView::Failed(e) => next(task, event) == DeclareStepView::<E>::Failed(e),
            SetupStepView::Ready(queue) => {
                let entered = task.declared.insert(task.pending[0], queue);
                &&& task.pending.len() == 1 ==> next(task, event) == DeclareStepView::<
                    E,
                >::Finished(entered)
                &&& task.pending.len() > 1 ==> (next(task, event) matches DeclareStepView::Go(
                    after,
                    _,
                ) && after.declared == entered && after.pending == task.pending.drop_first()
                    && after.pending[0] == task.pending[1])
            },
        },
{
}

} // verus!
