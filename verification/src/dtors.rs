use vstd::prelude::*;

use crate::text::{decimal, decimal_string};

verus! {

/// Thread-local destructors of the main thread, run last-registered first.
pub struct Destructors<T> {
    entries: Vec<T>,
}

impl<T> View for Destructors<T> {
    type V = Seq<T>;

    closed spec fn view(&self) -> Seq<T> {
        self.entries@
    }
}

/// The order in which `run` calls the destructors of `s`: the most recently
/// registered first.
pub open spec fn run_order<T>(s: Seq<T>) -> Seq<T>
    decreases s.len(),
{
    if s.len() == 0 {
        Seq::empty()
    } else {
        seq![s.last()] + run_order(s.drop_last())
    }
}

impl<T> Destructors<T> {
    /// No destructor registered.
    pub fn new() -> (r: Self)
        ensures
            r@ == Seq::<T>::empty(),
    {
        Destructors { entries: Vec::new() }
    }

    /// Number of registered destructors.
    pub fn len(&self) -> (n: usize)
        ensures
            n == self@.len(),
    {
        self.entries.len()
    }

    /// Registers a destructor (with the object it destroys) to be run later.
    pub fn register(&mut self, entry: T)
        ensures
            final(self)@ == old(self)@.push(entry),
    {
        self.entries.push(entry);
    }

    /// One step of running the destructors: the most recently registered one,
    /// taken out of the registry, or `None` when none is left, in which case
    /// the registry's storage is released.
    pub fn run(&mut self) -> (next: Option<T>)
        ensures
            old(self)@.len() == 0 ==> next is None && final(self)@ == Seq::<T>::empty(),
            old(self)@.len() > 0 ==> next == Some(old(self)@.last()) && final(self)@ == old(
                self,
            )@.drop_last(),
    {
        match self.entries.pop() {
            Some(entry) => Some(entry),
            None => {
                self.entries = Vec::new();
                None
            },
        }
    }
}

/// The line printed before the destructors are run, with their number.
pub fn dtors_report(count: usize) -> (r: String)
    ensures
        r@ == "calling thread-local destructors ("@ + decimal(count as nat) + ")"@,
{
    let mut report = String::from_str("calling thread-local destructors (");
    let digits = decimal_string(count);
    report.append(digits.as_str());
    report.append(")");
    report
}

/// Law: a registration is undone by the next step of `run`, which hands back
/// the destructor just registered.
pub proof fn run_undoes_register<T>(s: Seq<T>, entry: T)
    ensures
        s.push(entry).len() > 0,
        s.push(entry).last() == entry,
        s.push(entry).drop_last() == s,
{
    assert(s.push(entry).drop_last() =~= s);
}

/// Law: running the destructors step by step, without new registrations,
/// calls every registered destructor once, last registered first.
pub proof fn run_calls_in_reverse<T>(s: Seq<T>)
    ensures
        run_order(s) == s.reverse(),
    decreases s.len(),
{
    if s.len() > 0 {
        run_calls_in_reverse(s.drop_last());
        assert(run_order(s) =~= s.reverse());
    }
}

/// Where a thread-local destructor registered through `__cxa_thread_atexit_impl`
/// goes.
#[derive(Clone, Copy, PartialEq, Eq, Structural, Debug)]
pub enum DtorRoute {
    /// To the system's own implementation: run when its thread exits.
    Forward,
    /// To the library's own registry: run before the library is unloaded.
    Register,
}

/// Destructors of the main thread are kept by the library, those of other
/// threads go to the system.
pub fn thread_dtor_route(main_thread_id: i64, current_thread_id: i64) -> (r: DtorRoute)
    ensures
        r == (if main_thread_id != current_thread_id {
            DtorRoute::Forward
        } else {
            DtorRoute::Register
        }),
{
    if main_thread_id != current_thread_id {
        DtorRoute::Forward
    } else {
        DtorRoute::Register
    }
}

} // verus!
