//! The dispatcher's reply channel.
//!
//! Every reply and report of the dispatcher goes through one
//! `OutputSink`.  `BufferSink` is the library's own verified
//! implementation, gathering the text for tests and simulators; a
//! transport-backed sink lives outside the library.

use vstd::prelude::*;

use crate::error::Error;

verus! {

/// Where reply text goes.  `written` is everything accepted so far;
/// `sink_ok` says whether the sink is accepting, and a write changes
/// nothing when it is not.
pub trait OutputSink: Sized {
    /// Everything written so far.
    spec fn written(&self) -> Seq<char>;

    /// Whether the sink accepts text.
    spec fn sink_ok(&self) -> bool;

    /// Appends `s` to the output.
    fn write_text(&mut self, s: &str) -> (r: Result<(), Error>)
        ensures
            final(self).sink_ok() == old(self).sink_ok(),
            r is Ok <==> old(self).sink_ok(),
            r is Ok ==> final(self).written() == old(self).written() + s@,
            r is Err ==> final(self).written() == old(self).written() && r->Err_0 == Error::Io,
    ;
}

/// An in-memory sink gathering all reply text.
pub struct BufferSink {
    text: String,
}

impl BufferSink {
    /// An empty sink.
    pub fn new() -> (r: BufferSink)
        ensures
            r.written() == Seq::<char>::empty(),
            r.sink_ok(),
    {
        BufferSink { text: String::new() }
    }

    /// The gathered text.
    pub fn contents(&self) -> (r: &String)
        ensures
            r@ == self.written(),
    {
        &self.text
    }
}

impl OutputSink for BufferSink {
    closed spec fn written(&self) -> Seq<char> {
        self.text@
    }

    open spec fn sink_ok(&self) -> bool {
        true
    }

    fn write_text(&mut self, s: &str) -> (r: Result<(), Error>) {
        self.text.append(s);
        Ok(())
    }
}

} // verus!
