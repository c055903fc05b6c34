//! The bounded channel that carries tasks to the network engine.
use crate::cache::{NetworkTask, PushResult};
use crossbeam_channel::{Receiver, Sender};
use vstd::prelude::*;

verus! {

/// `crossbeam_channel::Sender`, the end that tasks go into.
#[verifier::external_type_specification]
#[verifier::external_body]
#[verifier::reject_recursive_types(T)]
pub struct ExSender<T>(Sender<T>);

/// `crossbeam_channel::Receiver`, the end that the engine takes tasks from.
#[verifier::external_type_specification]
#[verifier::external_body]
#[verifier::reject_recursive_types(T)]
pub struct ExReceiver<T>(Receiver<T>);

/// The tasks in the channel, oldest first, as the last use of this end left them.
/// Receivers take tasks from the front at any time.
pub uninterp spec fn waiting(sender: Sender<NetworkTask>) -> Seq<NetworkTask>;

/// The capacity that the channel was made with.
pub uninterp spec fn capacity(sender: Sender<NetworkTask>) -> usize;

/// `receiver` is an end of the channel that `sender`, and no other sender, puts tasks
/// into.
pub uninterp spec fn feeds(sender: Sender<NetworkTask>, receiver: Receiver<NetworkTask>) -> bool;

/// No receiver but this one takes tasks from the channel, and none has been taken through
/// this one.
pub uninterp spec fn sole(receiver: Receiver<NetworkTask>) -> bool;

/// The bytes that one place in a channel is reckoned with: a task and its stamp take no
/// more.
pub open spec fn slot_bytes() -> int {
    if usize::BITS == 64 {
        184
    } else {
        108
    }
}

/// Whether the places of a channel of this capacity fit in the address space.
pub open spec fn channel_fits(capacity: usize) -> bool {
    capacity * slot_bytes() <= isize::MAX
}

/// What became of a task that was offered to the channel.
#[derive(Debug, Clone, Copy, PartialEq, Eq, Structural)]
pub enum SendOutcome {
    /// The channel took the task.
    Sent,
    /// The channel had no room.
    Full,
    /// The channel has no receiver any more.
    Disconnected,
}

/// The answer to a caller who offered a task.
pub open spec fn push_result(outcome: SendOutcome) -> PushResult {
    match outcome {
        SendOutcome::Sent => PushResult::Accepted,
        SendOutcome::Full => PushResult::QueueFull,
        SendOutcome::Disconnected => PushResult::RuntimeDisconnected,
    }
}

/// `before` became `after` when `task` was offered to a channel with room for `capacity`
/// tasks, `taken` of those in `before` having been received in the meantime.
///
/// A channel without room for any task hands it to a receiver that waits for one.
pub open spec fn offered_after(
    before: Seq<NetworkTask>,
    taken: int,
    capacity: usize,
    task: NetworkTask,
    result: PushResult,
    after: Seq<NetworkTask>,
) -> bool {
    let left = before.skip(taken);
    &&& 0 <= taken <= before.len()
    &&& match result {
        PushResult::Accepted if capacity == 0 => after == left,
        PushResult::Accepted => left.len() < capacity && after == left.push(task),
        PushResult::QueueFull => left.len() == capacity && after == left,
        PushResult::RuntimeDisconnected => after == left,
    }
}

/// `before` became `after` when `task` was offered to a channel with room for `capacity`
/// tasks, whatever had been received in the meantime.
pub open spec fn offered(
    before: Seq<NetworkTask>,
    capacity: usize,
    task: NetworkTask,
    result: PushResult,
    after: Seq<NetworkTask>,
) -> bool {
    exists|taken: int| #[trigger] offered_after(before, taken, capacity, task, result, after)
}

/// `before` became `after` when `task` was offered to a channel with room for `capacity`
/// tasks from which nothing was received in the meantime.
pub open spec fn offered_alone(
    before: Seq<NetworkTask>,
    capacity: usize,
    task: NetworkTask,
    result: PushResult,
    after: Seq<NetworkTask>,
) -> bool {
    if before.len() < capacity {
        result == PushResult::Accepted && after == before.push(task)
    } else {
        result == PushResult::QueueFull && after == before
    }
}

/// How many of a batch of tasks find room in a channel from which nothing is received.
pub open spec fn room_for(before: Seq<NetworkTask>, capacity: usize, tasks: Seq<NetworkTask>) -> int {
    if before.len() + tasks.len() <= capacity {
        tasks.len() as int
    } else {
        capacity - before.len()
    }
}

/// The answers for a batch of `count` tasks of which the first `room` find room.
pub open spec fn answers(count: nat, room: int) -> Seq<PushResult> {
    Seq::new(
        count,
        |i: int|
            if i < room {
                PushResult::Accepted
            } else {
                PushResult::QueueFull
            },
    )
}

/// `before` became `after` when the tasks were offered, one after the other, with these
/// answers, to a channel with room for `capacity` tasks from which nothing was received
/// in the meantime: the longest first part that finds room is taken, and nothing else.
pub open spec fn all_offered_alone(
    before: Seq<NetworkTask>,
    capacity: usize,
    tasks: Seq<NetworkTask>,
    results: Seq<PushResult>,
    after: Seq<NetworkTask>,
) -> bool {
    let room = room_for(before, capacity, tasks);
    &&& after == before + tasks.take(room)
    &&& results == answers(tasks.len(), room)
}

/// `before` became `after` when the tasks were offered, one after the other, with these
/// answers; before the one at `i`, `taken[i]` of those that waited were received.
pub open spec fn all_offered_after(
    before: Seq<NetworkTask>,
    taken: Seq<int>,
    capacity: usize,
    tasks: Seq<NetworkTask>,
    results: Seq<PushResult>,
    after: Seq<NetworkTask>,
) -> bool
    decreases tasks.len(),
{
    &&& taken.len() == tasks.len()
    &&& results.len() == tasks.len()
    &&& if tasks.len() == 0 {
        after == before
    } else {
        &&& results.last() != PushResult::RuntimeDisconnected
        &&& exists|between: Seq<NetworkTask>|
            all_offered_after(
                before,
                taken.drop_last(),
                capacity,
                tasks.drop_last(),
                results.drop_last(),
                between,
            ) && #[trigger] offered_after(
                between,
                taken.last(),
                capacity,
                tasks.last(),
                results.last(),
                after,
            )
    }
}

/// `before` became `after` when the tasks were offered, one after the other, with these
/// answers, whatever was received in the meantime.
pub open spec fn all_offered(
    before: Seq<NetworkTask>,
    capacity: usize,
    tasks: Seq<NetworkTask>,
    results: Seq<PushResult>,
    after: Seq<NetworkTask>,
) -> bool {
    exists|taken: Seq<int>| #[trigger]
        all_offered_after(before, taken, capacity, tasks, results, after)
}

/// `crossbeam_channel::bounded` makes an empty channel with room for `rows` tasks and
/// hands out its two ends. It panics on a capacity that it cannot allocate.
#[verifier::external_body]
fn task_channel(rows: usize) -> (ends: (Sender<NetworkTask>, Receiver<NetworkTask>))
    requires
        channel_fits(rows),
    ensures
        waiting(ends.0) == Seq::<NetworkTask>::empty(),
        capacity(ends.0) == rows,
        feeds(ends.0, ends.1),
        sole(ends.1),
{
    crossbeam_channel::bounded(rows)
}

/// `Receiver::clone` makes another receiver of the same channel. Either may take tasks
/// from then on.
#[verifier::external_body]
fn another_receiver(
    sender: &Sender<NetworkTask>,
    receiver: &mut Receiver<NetworkTask>,
) -> (other: Receiver<NetworkTask>)
    requires
        feeds(*sender, *old(receiver)),
    ensures
        feeds(*sender, *final(receiver)),
        feeds(*sender, other),
{
    receiver.clone()
}

/// `Sender::try_send` does not wait. It puts the task behind those in the channel, or
/// gives it back because the channel is full, which it is where it holds as many tasks
/// as its capacity, or because no receiver is left. `receiver` is one, so the last does
/// not happen here. A channel of capacity zero takes a task where a receiver waits for
/// one at that moment; whether one does is left open. Where nothing is received, the
/// tasks in the channel are those that the last use of the sender left, and no receiver
/// waits.
#[verifier::external_body]
fn try_send(
    sender: &mut Sender<NetworkTask>,
    receiver: &Receiver<NetworkTask>,
    task: NetworkTask,
) -> (outcome: SendOutcome)
    requires
        feeds(*old(sender), *receiver),
    ensures
        outcome != SendOutcome::Disconnected,
        offered(
            waiting(*old(sender)),
            capacity(*old(sender)),
            task,
            push_result(outcome),
            waiting(*final(sender)),
        ),
        sole(*receiver) ==> offered_alone(
            waiting(*old(sender)),
            capacity(*old(sender)),
            task,
            push_result(outcome),
            waiting(*final(sender)),
        ),
        capacity(*final(sender)) == capacity(*old(sender)),
        feeds(*final(sender), *receiver),
{
    match sender.try_send(task) {
        Ok(()) => SendOutcome::Sent,
        Err(crossbeam_channel::TrySendError::Full(_)) => SendOutcome::Full,
        Err(crossbeam_channel::TrySendError::Disconnected(_)) => SendOutcome::Disconnected,
    }
}

/// Answers a caller who offered a task.
pub fn push_result_of(outcome: SendOutcome) -> (result: PushResult)
    ensures
        result == push_result(outcome),
{
    match outcome {
        SendOutcome::Sent => PushResult::Accepted,
        SendOutcome::Full => PushResult::QueueFull,
        SendOutcome::Disconnected => PushResult::RuntimeDisconnected,
    }
}

/// Tells whether a channel of this capacity can be made.
pub fn queue_fits(rows: usize) -> (result: bool)
    ensures
        result == channel_fits(rows),
{
    if usize::BITS == 64 {
        rows <= isize::MAX as usize / 184
    } else {
        rows <= isize::MAX as usize / 108
    }
}

/// A channel never holds more tasks than its capacity, and turns a task away only where
/// it already held that many when it was last used.
pub proof fn offers_keep_the_bound(
    before: Seq<NetworkTask>,
    capacity: usize,
    task: NetworkTask,
    result: PushResult,
    after: Seq<NetworkTask>,
)
    requires
        before.len() <= capacity,
        offered(before, capacity, task, result, after),
    ensures
        after.len() <= capacity,
        result == PushResult::QueueFull ==> before.len() == capacity && after == before,
        before.len() < capacity && result != PushResult::RuntimeDisconnected ==> result
            == PushResult::Accepted && after.len() > 0 && after.last() == task,
{
    let taken = choose|taken: int| #[trigger]
        offered_after(before, taken, capacity, task, result, after);
    if result == PushResult::QueueFull {
        assert(before.skip(0) =~= before);
    }
}

/// An offer to a channel from which nothing is received is one before which no task was
/// taken, and the other way round where the channel has room for a task at all.
pub proof fn undisturbed_offer(
    before: Seq<NetworkTask>,
    capacity: usize,
    task: NetworkTask,
    result: PushResult,
    after: Seq<NetworkTask>,
)
    requires
        capacity > 0,
        before.len() <= capacity,
        result != PushResult::RuntimeDisconnected,
    ensures
        offered_alone(before, capacity, task, result, after) <==> offered_after(
            before,
            0,
            capacity,
            task,
            result,
            after,
        ),
{
    assert(before.skip(0) =~= before);
}

/// Of a batch that is offered to a channel from which nothing is received meanwhile, the
/// longest first part that finds room is taken, in its order, and nothing else.
pub proof fn undisturbed_batch(
    before: Seq<NetworkTask>,
    taken: Seq<int>,
    capacity: usize,
    tasks: Seq<NetworkTask>,
    results: Seq<PushResult>,
    after: Seq<NetworkTask>,
)
    requires
        capacity > 0,
        before.len() <= capacity,
        all_offered_after(before, taken, capacity, tasks, results, after),
        forall|i: int| 0 <= i < taken.len() ==> #[trigger] taken[i] == 0,
    ensures
        all_offered_alone(before, capacity, tasks, results, after),
    decreases tasks.len(),
{
    if tasks.len() == 0 {
        nothing_offered_alone(before, capacity);
        assert(tasks =~= Seq::<NetworkTask>::empty());
        assert(results =~= Seq::<PushResult>::empty());
    } else {
        let between = choose|between: Seq<NetworkTask>|
            all_offered_after(
                before,
                taken.drop_last(),
                capacity,
                tasks.drop_last(),
                results.drop_last(),
                between,
            ) && #[trigger] offered_after(
                between,
                taken.last(),
                capacity,
                tasks.last(),
                results.last(),
                after,
            );
        assert(taken[taken.len() - 1] == 0);
        assert forall|i: int| 0 <= i < taken.drop_last().len() implies #[trigger]
        taken.drop_last()[i] == 0 by {
            assert(taken[i] == 0);
        }
        undisturbed_batch(
            before,
            taken.drop_last(),
            capacity,
            tasks.drop_last(),
            results.drop_last(),
            between,
        );
        undisturbed_offer(between, capacity, tasks.last(), results.last(), after);
        one_more_offered_alone(
            before,
            capacity,
            tasks.drop_last(),
            results.drop_last(),
            between,
            tasks.last(),
            results.last(),
            after,
        );
        assert(tasks.drop_last().push(tasks.last()) =~= tasks);
        assert(results.drop_last().push(results.last()) =~= results);
    }
}

/// A batch without tasks leaves the channel as it was.
pub(crate) proof fn nothing_offered_alone(before: Seq<NetworkTask>, capacity: usize)
    requires
        before.len() <= capacity,
    ensures
        all_offered_alone(
            before,
            capacity,
            Seq::<NetworkTask>::empty(),
            Seq::<PushResult>::empty(),
            before,
        ),
{
    let none = Seq::<NetworkTask>::empty();
    assert(before + none.take(0) =~= before);
    assert(answers(0, 0) =~= Seq::<PushResult>::empty());
}

/// One more task that is offered behind a batch makes a longer batch.
pub(crate) proof fn one_more_offered_alone(
    before: Seq<NetworkTask>,
    capacity: usize,
    tasks: Seq<NetworkTask>,
    results: Seq<PushResult>,
    between: Seq<NetworkTask>,
    task: NetworkTask,
    result: PushResult,
    after: Seq<NetworkTask>,
)
    requires
        before.len() <= capacity,
        all_offered_alone(before, capacity, tasks, results, between),
        offered_alone(between, capacity, task, result, after),
    ensures
        all_offered_alone(before, capacity, tasks.push(task), results.push(result), after),
{
    let room = room_for(before, capacity, tasks.push(task));
    assert(tasks.take(tasks.len() as int) =~= tasks);
    assert(after =~= before + tasks.push(task).take(room));
    assert(results.push(result) =~= answers(tasks.push(task).len(), room));
}

/// The queue of tasks: both ends of a channel. Nobody gets at the receiving end but by
/// [`TaskQueue::receiver`].
pub struct TaskQueue {
    sender: Sender<NetworkTask>,
    receiver: Receiver<NetworkTask>,
}

impl TaskQueue {
    /// The tasks that wait, oldest first, as the last offer left them.
    pub closed spec fn waiting(self) -> Seq<NetworkTask> {
        waiting(self.sender)
    }

    /// How many tasks may wait.
    pub closed spec fn capacity(self) -> usize {
        capacity(self.sender)
    }

    /// Nobody else has a receiver, so that nothing is received.
    pub closed spec fn undisturbed(self) -> bool {
        sole(self.receiver)
    }

    /// What is received through `receiver` comes out of this queue.
    pub closed spec fn feeds(self, receiver: Receiver<NetworkTask>) -> bool {
        feeds(self.sender, receiver)
    }

    /// The ends are those of one channel, which holds no more tasks than it has room for.
    pub closed spec fn wf(self) -> bool {
        &&& feeds(self.sender, self.receiver)
        &&& waiting(self.sender).len() <= capacity(self.sender)
    }

    /// What `wf` says of the number of tasks.
    pub proof fn never_overfull(self)
        requires
            self.wf(),
        ensures
            self.waiting().len() <= self.capacity(),
    {
    }

    /// An empty queue with room for `rows` tasks.
    pub fn new(rows: usize) -> (queue: Self)
        requires
            channel_fits(rows),
        ensures
            queue.wf(),
            queue.undisturbed(),
            queue.waiting() == Seq::<NetworkTask>::empty(),
            queue.capacity() == rows,
    {
        let (sender, receiver) = task_channel(rows);
        TaskQueue { sender, receiver }
    }

    /// Puts a task behind those that wait, or turns it away because there is no room.
    pub fn offer(&mut self, task: NetworkTask) -> (result: PushResult)
        requires
            old(self).wf(),
        ensures
            final(self).wf(),
            final(self).capacity() == old(self).capacity(),
            final(self).undisturbed() == old(self).undisturbed(),
            result != PushResult::RuntimeDisconnected,
            offered(
                old(self).waiting(),
                old(self).capacity(),
                task,
                result,
                final(self).waiting(),
            ),
            old(self).undisturbed() ==> offered_alone(
                old(self).waiting(),
                old(self).capacity(),
                task,
                result,
                final(self).waiting(),
            ),
    {
        let outcome = try_send(&mut self.sender, &self.receiver, task);
        let result = push_result_of(outcome);
        proof {
            offers_keep_the_bound(
                old(self).waiting(),
                old(self).capacity(),
                task,
                result,
                self.waiting(),
            );
        }
        result
    }

    /// Hands out a receiver. From then on tasks may be taken out of the queue at any time.
    pub fn receiver(&mut self) -> (receiver: Receiver<NetworkTask>)
        requires
            old(self).wf(),
        ensures
            final(self).wf(),
            final(self).feeds(receiver),
            final(self).capacity() == old(self).capacity(),
            final(self).waiting() == old(self).waiting(),
    {
        another_receiver(&self.sender, &mut self.receiver)
    }
}

} // verus!
