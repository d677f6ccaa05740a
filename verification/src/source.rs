//! What a loop can record from.

use crate::text;
use vstd::prelude::*;
use vstd::string::*;

verus! {

/// Every recording is two channels.
pub const CHANNELS: usize = 2;

/// One thing to record from: a name and the input channels it lives on. A
/// single jack is a source whose two channels are the same input.
#[derive(Debug)]
pub struct Source {
    pub name: String,
    pub ch: [usize; 2],
    /// Its interface is switched on. One that is not keeps its place among the
    /// sources, on channels that hold something else, and no loop can be
    /// pointed at it.
    pub available: bool,
}

impl Source {
    /// The name and, counted from one, the inputs.
    pub open spec fn described(self) -> Seq<char> {
        let first = self.name@ + " (in "@ + text::decimal((self.ch@[0] + 1) as nat);
        if self.ch@[0] == self.ch@[1] {
            first + ")"@
        } else {
            first + "+"@ + text::decimal((self.ch@[1] + 1) as nat) + ")"@
        }
    }

    /// A source on one input.
    pub fn mono(name: &str, ch: usize) -> (r: Source)
        ensures
            r.name@ == name@,
            r.ch@ == seq![ch, ch],
            r.available,
    {
        let r = Source { name: name.to_string(), ch: [ch, ch], available: true };
        assert(r.ch@ =~= seq![ch, ch]);
        r
    }

    pub fn is_mono(&self) -> (r: bool)
        ensures
            r == (self.ch@[0] == self.ch@[1]),
    {
        self.ch[0] == self.ch[1]
    }

    /// The name and, counted from one, the inputs.
    pub fn describe(&self) -> (r: String)
        requires
            self.ch@[0] < usize::MAX,
            self.ch@[1] < usize::MAX,
        ensures
            r@ == self.described(),
    {
        let mut out = self.name.clone();
        out.append(" (in ");
        text::push_number(&mut out, self.ch[0] + 1);
        if !self.is_mono() {
            out.append("+");
            text::push_number(&mut out, self.ch[1] + 1);
        }
        out.append(")");
        out
    }
}

/// The source a loop starts on: the first that is switched on, where one is,
/// or else the first.
pub open spec fn starts_on(sources: Seq<Source>, s: int) -> bool {
    if exists|k: int| 0 <= k < sources.len() && (#[trigger] sources[k]).available {
        &&& 0 <= s < sources.len()
        &&& sources[s].available
        &&& forall|k: int| 0 <= k < s ==> !(#[trigger] sources[k]).available
    } else {
        s == 0
    }
}

/// The source a loop starts on.
pub fn first_on(sources: &Vec<Source>) -> (r: usize)
    ensures
        starts_on(sources@, r as int),
{
    let mut i: usize = 0;
    while i < sources.len()
        invariant
            i <= sources@.len(),
            forall|k: int| 0 <= k < i ==> !(#[trigger] sources@[k]).available,
        decreases sources@.len() - i,
    {
        if sources[i].available {
            return i;
        }
        i = i + 1;
    }
    0
}

/// The first `n` of some sources by their numbers, counted from one, and
/// their names.
pub open spec fn listed(sources: Seq<Source>, n: int) -> Seq<char>
    decreases n,
{
    if n <= 0 {
        ""@
    } else {
        listed(sources, n - 1) + (if n == 1 {
            ""@
        } else {
            ", "@
        }) + text::decimal(n as nat) + " "@ + sources[n - 1].name@
    }
}

/// Some sources by their numbers and names.
pub fn list(sources: &Vec<Source>) -> (r: String)
    ensures
        r@ == listed(sources@, sources@.len() as int),
{
    let mut out = "".to_string();
    let mut i: usize = 0;
    while i < sources.len()
        invariant
            i <= sources@.len(),
            out@ == listed(sources@, i as int),
        decreases sources@.len() - i,
    {
        out.append(
            if i == 0 {
                ""
            } else {
                ", "
            },
        );
        text::push_number(&mut out, i + 1);
        out.append(" ");
        out.append(sources[i].name.as_str());
        i = i + 1;
    }
    out
}

} // verus!
