//! The host interface: console output and input, and host-registered
//! native callables, as the embedding program provides them.

use vstd::prelude::*;

use crate::value::Value;

verus! {

/// Output is append-only: everything printed before is still there, in
/// place, afterwards.
pub open spec fn printed_grows(pre: Seq<Seq<char>>, post: Seq<Seq<char>>) -> bool {
    &&& pre.len() <= post.len()
    &&& forall|k: int| 0 <= k < pre.len() ==> post[k] == #[trigger] pre[k]
}

/// What the evaluator asks of its embedding. An implementation performs
/// the actual console or native work; the evaluator only relies on output
/// being append-only.
pub trait Host {
    /// The lines printed so far, oldest first. An implementation that
    /// tracks no output may leave the default.
    open spec fn printed(&self) -> Seq<Seq<char>> {
        Seq::empty()
    }

    /// Print one line of console output.
    fn print_line(&mut self, line: String)
        ensures
            final(self).printed() == old(self).printed().push(line@),
    ;

    /// Read one line of console input, without its line terminator; the
    /// end of input yields no line. Reading may emit output (a prompt),
    /// but never retracts any.
    fn read_line(&mut self) -> (r: Option<String>)
        ensures
            printed_grows(old(self).printed(), final(self).printed()),
    ;

    /// Invoke the host-registered native callable `id` on the evaluated
    /// arguments. What comes back is the host's alone; the evaluator
    /// checks it before trusting it. Output may grow, never shrink.
    fn call_native(&mut self, id: u64, args: Vec<Value>) -> (r: Result<Value, String>)
        ensures
            printed_grows(old(self).printed(), final(self).printed()),
    ;
}

/// A host that records output and serves scripted input: what the tests
/// run programs against.
pub struct RecordingHost {
    /// Printed lines, oldest first.
    pub lines: Vec<String>,
    /// Pending input lines, next first.
    pub pending: Vec<String>,
}

impl RecordingHost {
    /// A host with no pending input.
    pub fn new() -> (r: RecordingHost)
        ensures
            r.lines@.len() == 0,
            r.pending@.len() == 0,
            r.printed() =~= Seq::<Seq<char>>::empty(),
    {
        let r = RecordingHost { lines: Vec::new(), pending: Vec::new() };
        proof {
            assert(r.printed() =~= Seq::<Seq<char>>::empty());
        }
        r
    }

    /// Queue one line of input.
    pub fn push_input(&mut self, line: String)
        ensures
            final(self).pending@ == old(self).pending@.push(line),
            final(self).lines@ == old(self).lines@,
    {
        self.pending.push(line);
    }
}

impl Host for RecordingHost {
    open spec fn printed(&self) -> Seq<Seq<char>> {
        Seq::new(self.lines@.len(), |i: int| self.lines@[i]@)
    }

    fn print_line(&mut self, line: String)
        ensures
            final(self).printed() == old(self).printed().push(line@),
    {
        let ghost before = self.printed();
        let ghost linev = line@;
        self.lines.push(line);
        proof {
            assert forall|i: int| 0 <= i < self.printed().len() implies self.printed()[i]
                == before.push(linev)[i] by {
                if i < before.len() {
                    assert(self.lines@[i] == old(self).lines@[i]);
                }
            }
            assert(self.printed() =~= before.push(linev));
        }
    }

    fn read_line(&mut self) -> (r: Option<String>)
        ensures
            printed_grows(old(self).printed(), final(self).printed()),
            final(self).lines@ == old(self).lines@,
            old(self).pending@.len() == 0 ==> r is None && final(self).pending@ == old(
                self,
            ).pending@,
            old(self).pending@.len() > 0 ==> (r matches Some(line) && line == old(
                self,
            ).pending@[0]) && final(self).pending@ == old(self).pending@.skip(1),
    {
        proof {
            assert(self.printed() =~= old(self).printed());
        }
        if self.pending.len() == 0 {
            None
        } else {
            let line = self.pending.remove(0);
            proof {
                assert(self.printed() =~= old(self).printed());
                assert(self.pending@ =~= old(self).pending@.skip(1));
            }
            Some(line)
        }
    }

    fn call_native(&mut self, id: u64, args: Vec<Value>) -> (r: Result<Value, String>)
        ensures
            printed_grows(old(self).printed(), final(self).printed()),
    {
        proof {
            assert(self.printed() =~= old(self).printed());
        }
        Err(String::from_str("unknown native callable"))
    }
}

} // verus!
