//! Error-chain formatting: a failure and its chain of causes rendered as
//! one line, each cause introduced by an arrow.

use vstd::prelude::*;

verus! {

/// The rendering of a chain of messages: the first as is, each further one
/// preceded by ` -> `.
pub open spec fn spec_chain_text(msgs: Seq<Seq<char>>) -> Seq<char>
    decreases msgs.len(),
{
    if msgs.len() == 0 {
        Seq::empty()
    } else if msgs.len() == 1 {
        msgs[0]
    } else {
        spec_chain_text(msgs.drop_last()) + " -> "@ + msgs.last()
    }
}

/// A failure's message together with the messages of its causes, root
/// first.
pub struct ErrFmt {
    pub messages: Vec<String>,
}

/// Wrap a chain of failure messages for rendering.
pub fn unpack(messages: Vec<String>) -> (r: ErrFmt)
    ensures
        r.messages == messages,
{
    ErrFmt { messages }
}

impl ErrFmt {
    /// Render the chain as one line.
    pub fn to_display_string(&self) -> (r: String)
        ensures
            r@ == spec_chain_text(crate::strutil::seq_views(self.messages@)),
    {
        let ghost mv = crate::strutil::seq_views(self.messages@);
        let mut out = String::new();
        let n = self.messages.len();
        let mut i: usize = 0;
        while i < n
            invariant
                n == self.messages.len(),
                i <= n,
                mv == crate::strutil::seq_views(self.messages@),
                out@ == spec_chain_text(mv.subrange(0, i as int)),
            decreases n - i,
        {
            if i > 0 {
                out.append(" -> ");
            }
            out.append(self.messages[i].as_str());
            proof {
                assert(mv.subrange(0, i + 1).drop_last() =~= mv.subrange(0, i as int));
                assert(mv.subrange(0, i + 1).last() == mv[i as int]);
            }
            i = i + 1;
        }
        proof {
            assert(mv.subrange(0, n as int) =~= mv);
        }
        out
    }
}

} // verus!
