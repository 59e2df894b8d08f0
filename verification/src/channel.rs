use vstd::prelude::*;

verus! {

/// One tagged event read from a command channel. Stream identifier 1 of
/// `ExtendedData` denotes the error-output stream; extended data on any
/// other stream is ignored. `ExitStatus` and `Eof` may arrive in either
/// order, and a command is complete only once both have been observed.
pub enum ChannelMsg {
    Data { data: Vec<u8> },
    ExtendedData { data: Vec<u8>, ext: u32 },
    ExitStatus { status: u32 },
    Eof,
    Close,
    Other,
}

impl ChannelMsg {
    /// Bytes this event contributes to buffered standard output.
    pub open spec fn stdout_part(self) -> Seq<u8> {
        match self {
            ChannelMsg::Data { data } => data@,
            _ => Seq::empty(),
        }
    }

    /// Bytes this event contributes to the captured error stream.
    pub open spec fn stderr_part(self) -> Seq<u8> {
        match self {
            ChannelMsg::ExtendedData { data, ext } => if ext == 1 {
                data@
            } else {
                Seq::empty()
            },
            _ => Seq::empty(),
        }
    }

    /// The last exit status observed once this event has been seen.
    pub open spec fn status_after(self, prev: Option<u32>) -> Option<u32> {
        match self {
            ChannelMsg::ExitStatus { status } => Some(status),
            _ => prev,
        }
    }

    /// Whether end-of-stream has been observed once this event has been seen.
    pub open spec fn eof_after(self, prev: bool) -> bool {
        match self {
            ChannelMsg::Eof => true,
            _ => prev,
        }
    }
}

/// Appends all of `src` to `dst`.
pub fn extend_bytes(dst: &mut Vec<u8>, src: &Vec<u8>)
    ensures
        final(dst)@ == old(dst)@ + src@,
{
    let mut i: usize = 0;
    while i < src.len()
        invariant
            i <= src.len(),
            dst@ == old(dst)@ + src@.take(i as int),
        decreases src.len() - i,
    {
        dst.push(src[i]);
        proof {
            assert(src@.take(i + 1) =~= src@.take(i as int).push(src@[i as int]));
        }
        i += 1;
    }
    proof {
        assert(src@.take(src.len() as int) =~= src@);
    }
}

} // verus!
