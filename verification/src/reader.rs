//! A cursor over a shared byte stream, with an optional upper limit on reads.
use vstd::prelude::*;
use crate::error::ParseError;

verus! {

/// What a reader sees of its stream: all the bytes, the offset of the next read, and
/// the offset past which reads are refused, if there is one.
pub struct Stream {
    pub data: Seq<u8>,
    pub pos: int,
    pub limit: Option<int>,
}

impl Stream {
    /// Bytes left before the limit; negative once the cursor has passed it.
    /// Without a limit this is the largest `i64`.
    pub open spec fn remain(self) -> int {
        match self.limit {
            Some(limit) => limit - self.pos,
            None => i64::MAX as int,
        }
    }

    /// Whether a read of `n` bytes stays within the limit.
    pub open spec fn within_limit(self, n: int) -> bool {
        match self.limit {
            Some(limit) => self.pos + n <= limit,
            None => true,
        }
    }

    /// Whether a read of `n` bytes succeeds: it must stay within the limit and within
    /// the stream.
    pub open spec fn readable(self, n: int) -> bool {
        0 <= n && 0 <= self.pos && self.within_limit(n) && self.pos + n <= self.data.len()
    }

    /// The error of a read of `n` bytes that does not succeed. The limit is checked
    /// before the end of the stream.
    pub open spec fn shortfall(self, n: int) -> ParseError {
        if self.within_limit(n) {
            ParseError::UnexpectedEof
        } else {
            ParseError::OutOfBounds
        }
    }

    /// The next `n` bytes; none where the stream does not hold that many.
    pub open spec fn peek(self, n: int) -> Seq<u8> {
        if 0 <= self.pos && 0 <= n && self.pos + n <= self.data.len() {
            self.data.subrange(self.pos, self.pos + n)
        } else {
            Seq::empty()
        }
    }

    /// The same stream with the cursor `n` bytes further on.
    pub open spec fn skip(self, n: int) -> Stream {
        Stream { pos: self.pos + n, ..self }
    }

    /// The same stream with the cursor at `pos`.
    pub open spec fn at(self, pos: int) -> Stream {
        Stream { pos, ..self }
    }

    /// The same stream with reads confined to the next `n` bytes.
    pub open spec fn confined(self, n: int) -> Stream {
        Stream { limit: Some(self.pos + n), ..self }
    }

    /// The same stream without a limit.
    pub open spec fn unconfined(self) -> Stream {
        Stream { limit: None, ..self }
    }
}

/// A handle on a byte stream. Several handles may share one stream; each keeps its own
/// position and limit, so moving one never disturbs another. A clone is a second
/// handle on the same stream, at the same position and with the same limit.
#[derive(Clone, Copy, Debug)]
pub struct Reader<'a> {
    inner: &'a [u8],
    pos: u64,
    limit: Option<u64>,
}

impl<'a> View for Reader<'a> {
    type V = Stream;

    closed spec fn view(&self) -> Stream {
        Stream {
            data: self.inner@,
            pos: self.pos as int,
            limit: match self.limit {
                Some(limit) => Some(limit as int),
                None => None,
            },
        }
    }
}

impl<'a> Reader<'a> {
    /// A handle at the start of `stream` that refuses reads past `limit`.
    pub fn new(stream: &'a [u8], limit: u64) -> (reader: Self)
        ensures
            reader@ == (Stream { data: stream@, pos: 0, limit: Some(limit as int) }),
    {
        Reader { inner: stream, pos: 0, limit: Some(limit) }
    }

    /// The offset of the next read.
    pub fn pos(&self) -> (pos: u64)
        ensures
            pos == self@.pos,
    {
        self.pos
    }

    /// The offset past which reads are refused, if any.
    pub fn limit(&self) -> (limit: Option<u64>)
        ensures
            match limit {
                Some(limit) => self@.limit == Some(limit as int),
                None => self@.limit is None,
            },
    {
        self.limit
    }

    /// A handle's position and limit are stream offsets, and its stream fits in memory.
    pub proof fn bounds(&self)
        ensures
            0 <= self@.pos <= u64::MAX,
            self@.limit matches Some(limit) ==> 0 <= limit <= u64::MAX,
            self@.data.len() <= usize::MAX,
    {
        vstd::slice::axiom_spec_len(self.inner);
    }

    /// Whether a read of `n` bytes would succeed.
    fn check(&self, n: usize) -> (r: Result<(), ParseError>)
        ensures
            match r {
                Ok(()) => self@.readable(n as int) && self@.pos + n <= usize::MAX,
                Err(e) => !self@.readable(n as int) && e == self@.shortfall(n as int),
            },
    {
        if let Some(limit) = self.limit {
            if limit < self.pos || limit - self.pos < n as u64 {
                return Err(ParseError::OutOfBounds);
            }
        }
        let len: u64 = self.inner.len() as u64;
        if len < self.pos || len - self.pos < n as u64 {
            return Err(ParseError::UnexpectedEof);
        }
        Ok(())
    }

    /// Fills `buf` with the next `buf.len()` bytes and moves past them. A read that
    /// would end past the limit or past the end of the stream fails and changes
    /// nothing.
    pub fn read_exact(&mut self, buf: &mut [u8]) -> (r: Result<usize, ParseError>)
        ensures
            match r {
                Ok(n) => {
                    &&& old(self)@.readable(old(buf)@.len() as int)
                    &&& n == old(buf)@.len()
                    &&& final(buf)@ == old(self)@.peek(n as int)
                    &&& final(self)@ == old(self)@.skip(n as int)
                },
                Err(e) => {
                    &&& !old(self)@.readable(old(buf)@.len() as int)
                    &&& e == old(self)@.shortfall(old(buf)@.len() as int)
                    &&& final(buf)@ == old(buf)@
                    &&& final(self)@ == old(self)@
                },
            },
    {
        let n: usize = buf.len();
        match self.check(n) {
            Err(e) => { return Err(e); },
            Ok(()) => {},
        }
        let inner: &[u8] = self.inner;
        let start: usize = self.pos as usize;
        let mut i: usize = 0;
        while i < n
            invariant
                i <= n,
                n == buf@.len(),
                start + n <= inner@.len(),
                start + n <= usize::MAX,
                forall|j: int| 0 <= j < i ==> buf@[j] == inner@[start + j],
            decreases n - i,
        {
            buf[i] = inner[start + i];
            i = i + 1;
        }
        self.pos = self.pos + n as u64;
        assert(buf@ =~= old(self)@.peek(n as int));
        Ok(n)
    }

    /// The next `n` bytes as a vector, moving past them; fails as `read_exact` does.
    pub fn read_vec(&mut self, n: usize) -> (r: Result<Vec<u8>, ParseError>)
        ensures
            match r {
                Ok(bytes) => {
                    &&& old(self)@.readable(n as int)
                    &&& bytes@.len() == n
                    &&& bytes@ == old(self)@.peek(n as int)
                    &&& final(self)@ == old(self)@.skip(n as int)
                },
                Err(e) => {
                    &&& !old(self)@.readable(n as int)
                    &&& e == old(self)@.shortfall(n as int)
                    &&& final(self)@ == old(self)@
                },
            },
    {
        match self.check(n) {
            Err(e) => { return Err(e); },
            Ok(()) => {},
        }
        let inner: &[u8] = self.inner;
        let start: usize = self.pos as usize;
        let mut bytes: Vec<u8> = Vec::new();
        let mut i: usize = 0;
        while i < n
            invariant
                i <= n,
                i == bytes@.len(),
                start + n <= inner@.len(),
                start + n <= usize::MAX,
                forall|j: int| 0 <= j < i ==> bytes@[j] == inner@[start + j],
            decreases n - i,
        {
            bytes.push(inner[start + i]);
            i = i + 1;
        }
        self.pos = self.pos + n as u64;
        assert(bytes@ =~= old(self)@.peek(n as int));
        Ok(bytes)
    }

    /// From now on, refuses reads that would end more than `relative` bytes past the
    /// current position.
    pub fn set_limit(&mut self, relative: u64)
        requires
            old(self)@.pos + relative <= u64::MAX,
        ensures
            final(self)@ == old(self)@.confined(relative as int),
    {
        self.limit = Some(self.pos + relative);
    }

    /// Removes the limit.
    pub fn clear_limit(&mut self)
        ensures
            final(self)@ == old(self)@.unconfined(),
    {
        self.limit = None;
    }

    /// Moves the cursor by `delta` bytes, forward or back, without regard to the
    /// limit. A move to a negative offset or past the largest offset fails and
    /// changes nothing.
    pub fn seek_from_current(&mut self, delta: i64) -> (r: Result<(), ParseError>)
        ensures
            match r {
                Ok(()) => {
                    &&& 0 <= old(self)@.pos + delta <= u64::MAX
                    &&& final(self)@ == old(self)@.skip(delta as int)
                },
                Err(e) => {
                    &&& !(0 <= old(self)@.pos + delta <= u64::MAX)
                    &&& e == ParseError::InvalidSeek
                    &&& final(self)@ == old(self)@
                },
            },
    {
        match self.pos.checked_add_signed(delta) {
            Some(pos) => {
                self.pos = pos;
                Ok(())
            },
            None => Err(ParseError::InvalidSeek),
        }
    }

    /// Moves the cursor to the absolute offset `pos`, without regard to the limit.
    pub fn seek_from_start(&mut self, pos: u64) -> (r: Result<(), ParseError>)
        ensures
            r is Ok,
            final(self)@ == old(self)@.at(pos as int),
    {
        self.pos = pos;
        Ok(())
    }

    /// Bytes left before the limit, negative once the cursor has passed it, kept
    /// within the range of `i64`. Without a limit, the largest `i64`.
    pub fn remain(&self) -> (left: i64)
        ensures
            left == clip(self@.remain()),
    {
        match self.limit {
            None => i64::MAX,
            Some(limit) => {
                if limit >= self.pos {
                    let d: u64 = limit - self.pos;
                    if d > i64::MAX as u64 {
                        i64::MAX
                    } else {
                        d as i64
                    }
                } else {
                    let d: u64 = self.pos - limit;
                    if d > i64::MAX as u64 {
                        i64::MIN
                    } else {
                        -(d as i64)
                    }
                }
            },
        }
    }
}

/// `x` kept within the range of `i64`.
pub open spec fn clip(x: int) -> int {
    if x > i64::MAX {
        i64::MAX as int
    } else if x < i64::MIN {
        i64::MIN as int
    } else {
        x
    }
}

/// Two handles on one stream do not disturb each other. A handle is its position and
/// its limit, and reading through one changes neither the stream nor the other
/// handle: what the second reads is the bytes at its own position, the same before
/// and after the first has read.
pub proof fn lemma_handles_independent(first: Stream, second: Stream, n: int, m: int)
    requires
        first.data == second.data,
        first.readable(n),
        second.readable(m),
    ensures
        first.skip(n).data == second.data,
        first.skip(n).pos == first.pos + n,
        second.peek(m) == first.skip(n).data.subrange(second.pos, second.pos + m),
        second.skip(m).pos == second.pos + m,
{
}

} // verus!
