use vstd::prelude::*;

verus! {

/// Where the generator gets its chance from. The one thing asked of a source
/// is an index below a bound; which index it gives is up to the source.
pub trait RandomSource {
    /// Some index below `bound`.
    fn next_index(&mut self, bound: usize) -> (index: usize)
        requires
            bound > 0,
        ensures
            index < bound,
    ;
}

/// `rand`'s `Rng::gen_range(0, bound)` on the generator that `rand::thread_rng`
/// hands out. `gen_range` panics unless its lower end is below its upper end,
/// hence the bound must be positive; whatever it draws lies in `[0, bound)`.
/// The thread's generator is seeded from the operating system the first time
/// that a thread asks for it, and panics if the system has no entropy to
/// give; that is a failure of the machine, which no demand on `bound` can
/// rule out.
#[verifier::external_body]
fn thread_index_below(bound: usize) -> (index: usize)
    requires
        bound > 0,
    ensures
        index < bound,
{
    rand::Rng::gen_range(&mut rand::thread_rng(), 0usize, bound)
}

/// The random numbers of the running thread.
#[derive(Clone, Copy, Debug)]
pub struct ThreadRandom {}

impl ThreadRandom {
    /// The random numbers of the thread that draws.
    pub fn new() -> (source: Self) {
        ThreadRandom {  }
    }
}

impl RandomSource for ThreadRandom {
    fn next_index(&mut self, bound: usize) -> (index: usize) {
        thread_index_below(bound)
    }
}

/// What a scripted source holds: the script, and how much of the current
/// round through it has been read.
pub ghost struct ScriptView {
    pub script: Seq<usize>,
    pub cursor: int,
}

impl ScriptView {
    /// The place in the script that the next draw reads.
    pub open spec fn place(self) -> int {
        self.cursor % (self.script.len() as int)
    }

    /// The index that the next draw gives for `bound`.
    pub open spec fn upcoming(self, bound: usize) -> int {
        if self.script.len() == 0 {
            0
        } else {
            (self.script[self.place()] as int) % (bound as int)
        }
    }

    /// The source once that draw has been made.
    pub open spec fn advanced(self) -> ScriptView {
        if self.script.len() == 0 {
            self
        } else {
            ScriptView { cursor: self.place() + 1, ..self }
        }
    }
}

/// A source without chance: it reads its draws off a script, each reduced
/// modulo the bound asked for, and starts over when the script runs out. An
/// empty script always draws zero.
#[derive(Debug)]
pub struct ScriptedSource {
    script: Vec<usize>,
    cursor: usize,
}

impl View for ScriptedSource {
    type V = ScriptView;

    closed spec fn view(&self) -> ScriptView {
        ScriptView { script: self.script@, cursor: self.cursor as int }
    }
}

impl ScriptedSource {
    /// A source that reads `script` from its beginning.
    pub fn new(script: Vec<usize>) -> (source: Self)
        ensures
            source@ == (ScriptView { script: script@, cursor: 0 }),
    {
        ScriptedSource { script, cursor: 0 }
    }
}

impl RandomSource for ScriptedSource {
    fn next_index(&mut self, bound: usize) -> (index: usize)
        ensures
            index == old(self)@.upcoming(bound),
            final(self)@ == old(self)@.advanced(),
    {
        let len: usize = self.script.len();
        if len == 0 {
            return 0;
        }
        let place: usize = self.cursor % len;
        let index: usize = self.script[place] % bound;
        self.cursor = place + 1;
        index
    }
}

} // verus!
