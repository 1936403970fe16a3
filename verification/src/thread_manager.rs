//! Named worker threads that can be told to stop.
//!
//! The manager keeps, for every worker, the sending end of a channel; the
//! worker holds the receiving end in its [`Mailbox`] and looks into it
//! between two rounds of work. Starting the thread is left to the caller.

use vstd::prelude::*;

verus! {

/// What a worker can be told.
#[derive(Debug, Copy, Clone, PartialEq, Eq, Structural)]
pub enum ThreadMessage {
    /// Stop.
    Kill,
}

impl ThreadMessage {
    /// Whether a worker that found `polled` in its mailbox is to stop: it
    /// is if a message was there and the message is `Kill`. An empty
    /// mailbox lets the worker go on.
    pub fn ends_worker(polled: Option<ThreadMessage>) -> (stop: bool)
        ensures
            stop == (polled matches Some(ThreadMessage::Kill)),
    {
        match polled {
            Some(ThreadMessage::Kill) => true,
            None => false,
        }
    }
}

/// `std::sync::mpsc::Sender`, the sending end of a channel between
/// threads. Nothing inside it is visible here.
#[verifier::external_type_specification]
#[verifier::external_body]
#[verifier::reject_recursive_types(T)]
pub struct ExSender<T>(std::sync::mpsc::Sender<T>);

/// `std::sync::mpsc::Receiver`, the receiving end of a channel between
/// threads. Nothing inside it is visible here.
#[verifier::external_type_specification]
#[verifier::external_body]
#[verifier::reject_recursive_types(T)]
pub struct ExReceiver<T>(std::sync::mpsc::Receiver<T>);

/// `std::sync::mpsc::channel`: a new channel, as its sending and its
/// receiving end. Nothing is claimed of the two.
#[verifier::external_body]
fn channel() -> (ends: (
    std::sync::mpsc::Sender<ThreadMessage>,
    std::sync::mpsc::Receiver<ThreadMessage>,
)) {
    std::sync::mpsc::channel()
}

/// `Receiver::try_recv`: the oldest message in the channel, if there is one
/// right now. What comes back depends on what another thread has sent, so
/// nothing is claimed of it.
#[verifier::external_body]
fn try_receive(receiver: &std::sync::mpsc::Receiver<ThreadMessage>) -> (message: Option<
    ThreadMessage,
>) {
    receiver.try_recv().ok()
}

/// The manager's handle on one worker.
struct Thread {
    sender: std::sync::mpsc::Sender<ThreadMessage>,
}

impl Thread {
    /// `Sender::send`, which does not block. The message is lost if the
    /// worker has dropped its mailbox; nothing is claimed of the channel
    /// afterwards, which the worker reads.
    #[verifier::external_body]
    fn signal(&self, msg: ThreadMessage) {
        let _ = self.sender.send(msg);
    }
}

/// The worker's end of the channel.
pub struct Mailbox {
    receiver: std::sync::mpsc::Receiver<ThreadMessage>,
}

impl Mailbox {
    /// Looks into the mailbox without waiting, and says whether the worker
    /// has been told to stop. The worker calls this before each round of
    /// work and ends when it returns `true`. Whether a message is there
    /// depends on what the manager's thread has sent by now; what follows
    /// from a message that is there is [`ThreadMessage::ends_worker`].
    pub fn killed(&self) -> bool {
        ThreadMessage::ends_worker(try_receive(&self.receiver))
    }
}

/// A worker under its name.
struct Worker {
    key: String,
    thread: Thread,
}

/// The workers that have been registered, by name.
pub struct ThreadManager {
    threads: Vec<Worker>,
}

impl View for ThreadManager {
    type V = Set<Seq<char>>;

    /// The names under which a worker is registered.
    closed spec fn view(&self) -> Set<Seq<char>> {
        Set::new(|key: Seq<char>| exists|i: int| 0 <= i < self.threads.len() && #[trigger] self.threads@[i].key@ == key)
    }
}

impl ThreadManager {
    /// No name is registered twice.
    pub closed spec fn inv(&self) -> bool {
        forall|i: int, j: int|
            0 <= i < j < self.threads.len() ==> (#[trigger] self.threads@[i]).key@ != (
            #[trigger] self.threads@[j]).key@
    }

    /// A manager without workers.
    pub fn new() -> (manager: ThreadManager)
        ensures
            manager@ == Set::<Seq<char>>::empty(),
            manager.inv(),
    {
        let manager = ThreadManager { threads: Vec::new() };
        assert(manager@ =~= Set::<Seq<char>>::empty());
        manager
    }

    /// The position of the worker named `key`.
    fn find(&self, key: &String) -> (found: Option<usize>)
        ensures
            match found {
                Some(i) => i < self.threads.len() && self.threads@[i as int].key@ == key@,
                None => !self@.contains(key@),
            },
    {
        let mut i: usize = 0;
        while i < self.threads.len()
            invariant
                0 <= i <= self.threads.len(),
                forall|j: int| 0 <= j < i ==> #[trigger] self.threads@[j].key@ != key@,
            decreases self.threads.len() - i,
        {
            if self.threads[i].key == *key {
                return Some(i);
            }
            i += 1;
        }
        None
    }

    /// Registers a worker under `key` and returns the mailbox that the
    /// worker is to poll. A worker that was registered under the same name
    /// before is forgotten: it can no longer be told to stop.
    pub fn spawn(&mut self, key: &str) -> (mailbox: Mailbox)
        ensures
            final(self)@ == old(self)@.insert(key@),
            old(self).inv() ==> final(self).inv(),
    {
        let (sender, receiver) = channel();
        let thread = Thread { sender };
        let name = key.to_owned();
        match self.find(&name) {
            Some(i) => {
                self.threads[i].thread = thread;
                assert(self.threads@[i as int].key@ == key@);
                assert forall|k: Seq<char>| self@.contains(k) <==> old(self)@.insert(key@).contains(
                    k,
                ) by {
                    if self@.contains(k) {
                        let j = choose|j: int|
                            0 <= j < self.threads.len() && #[trigger] self.threads@[j].key@ == k;
                        assert(old(self).threads@[j].key@ == k);
                    }
                    if old(self)@.insert(key@).contains(k) {
                        if k == key@ {
                            assert(self.threads@[i as int].key@ == k);
                        } else {
                            let j = choose|j: int|
                                0 <= j < old(self).threads.len() && #[trigger] old(
                                    self,
                                ).threads@[j].key@ == k;
                            assert(self.threads@[j].key@ == k);
                        }
                    }
                }
            },
            None => {
                self.threads.push(Worker { key: name, thread });
                let ghost n = old(self).threads.len() as int;
                assert(self.threads@[n].key@ == key@);
                assert forall|k: Seq<char>| self@.contains(k) <==> old(self)@.insert(key@).contains(
                    k,
                ) by {
                    if self@.contains(k) {
                        let j = choose|j: int|
                            0 <= j < self.threads.len() && #[trigger] self.threads@[j].key@ == k;
                        if j < n {
                            assert(old(self).threads@[j].key@ == k);
                        }
                    }
                    if old(self)@.insert(key@).contains(k) {
                        if k == key@ {
                            assert(self.threads@[n].key@ == k);
                        } else {
                            let j = choose|j: int|
                                0 <= j < old(self).threads.len() && #[trigger] old(
                                    self,
                                ).threads@[j].key@ == k;
                            assert(self.threads@[j].key@ == k);
                        }
                    }
                }
            },
        }
        assert(self@ =~= old(self)@.insert(key@));
        Mailbox { receiver }
    }

    /// Tells the worker named `key` to stop, and says whether there is a
    /// worker of that name. Without one, nothing is sent.
    pub fn kill(&self, key: &str) -> (known: bool)
        ensures
            known == self@.contains(key@),
    {
        let name = key.to_owned();
        match self.find(&name) {
            Some(i) => {
                self.threads[i].thread.signal(ThreadMessage::Kill);
                true
            },
            None => false,
        }
    }
}

} // verus!
