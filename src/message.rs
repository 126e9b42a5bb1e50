use vstd::prelude::*;

verus! {

/// What travels on the dispatch queue: a job for one worker, or the signal
/// that tells exactly one worker to leave its receive loop.
pub enum Message<J> {
    NewJob(J),
    Terminate,
}

/// How many `Terminate` signals the queue holds.
pub open spec fn terminate_count<J>(q: Seq<Message<J>>) -> nat
    decreases q.len(),
{
    if q.len() == 0 {
        0
    } else {
        terminate_count(q.drop_last()) + if q.last() is Terminate {
            1nat
        } else {
            0nat
        }
    }
}

/// The jobs that the queue holds, front first.
pub open spec fn jobs_of<J>(q: Seq<Message<J>>) -> Seq<J>
    decreases q.len(),
{
    if q.len() == 0 {
        Seq::empty()
    } else {
        match q.last() {
            Message::NewJob(j) => jobs_of(q.drop_last()).push(j),
            Message::Terminate => jobs_of(q.drop_last()),
        }
    }
}

/// No `Terminate` is followed by a job: every job stands before every signal.
pub open spec fn jobs_before_signals<J>(q: Seq<Message<J>>) -> bool {
    forall|i: int, k: int|
        0 <= i < k < q.len() && (#[trigger] q[i]) is Terminate ==> (#[trigger] q[k]) is Terminate
}

/// Appending one message adds to the counts as that message says.
pub proof fn lemma_push<J>(q: Seq<Message<J>>, m: Message<J>)
    ensures
        terminate_count(q.push(m)) == terminate_count(q) + if m is Terminate {
            1nat
        } else {
            0nat
        },
        jobs_of(q.push(m)) == match m {
            Message::NewJob(j) => jobs_of(q).push(j),
            Message::Terminate => jobs_of(q),
        },
{
    assert(q.push(m).drop_last() =~= q);
}

/// Taking the front message off leaves the rest of the counts.
pub proof fn lemma_front<J>(q: Seq<Message<J>>)
    requires
        q.len() > 0,
    ensures
        terminate_count(q) == terminate_count(q.subrange(1, q.len() as int)) + if q[0] is Terminate {
            1nat
        } else {
            0nat
        },
        jobs_of(q) == match q[0] {
            Message::NewJob(j) => seq![j] + jobs_of(q.subrange(1, q.len() as int)),
            Message::Terminate => jobs_of(q.subrange(1, q.len() as int)),
        },
    decreases q.len(),
{
    let rest = q.subrange(1, q.len() as int);
    if q.len() == 1 {
        assert(rest =~= Seq::<Message<J>>::empty());
        assert(q.drop_last() =~= Seq::<Message<J>>::empty());
        match q[0] {
            Message::NewJob(j) => {
                assert(seq![j] + jobs_of(rest) =~= Seq::<J>::empty().push(j));
            },
            Message::Terminate => {},
        }
    } else {
        let init = q.drop_last();
        lemma_front(init);
        assert(init.subrange(1, init.len() as int) =~= rest.drop_last());
        assert(rest.last() == q.last());
        match q[0] {
            Message::NewJob(j) => {
                match q.last() {
                    Message::NewJob(k) => {
                        assert(seq![j] + jobs_of(rest) =~= (seq![j] + jobs_of(rest.drop_last())).push(
                            k,
                        ));
                    },
                    Message::Terminate => {},
                }
            },
            Message::Terminate => {},
        }
    }
}

/// A queue of signals alone counts one for each of its messages.
pub proof fn lemma_all_signals<J>(q: Seq<Message<J>>)
    requires
        forall|i: int| 0 <= i < q.len() ==> (#[trigger] q[i]) is Terminate,
    ensures
        terminate_count(q) == q.len(),
        jobs_of(q) == Seq::<J>::empty(),
    decreases q.len(),
{
    if q.len() > 0 {
        lemma_all_signals(q.drop_last());
    }
}

/// A queue of jobs alone holds no signal.
pub proof fn lemma_all_jobs<J>(q: Seq<Message<J>>)
    requires
        forall|i: int| 0 <= i < q.len() ==> (#[trigger] q[i]) is NewJob,
    ensures
        terminate_count(q) == 0,
    decreases q.len(),
{
    if q.len() > 0 {
        lemma_all_jobs(q.drop_last());
    }
}

} // verus!
