//! Reading an artifact that an agent streams to the Hub: the buffer between the chunks the
//! agent sends and the reads the Hub makes, and the checks on each part of a payload.
use vstd::prelude::*;
use crate::numfmt::{decimal, u64_to_decimal};
use crate::text::{trim, trim_str, owned, str_eq};

verus! {

/// The most bytes asked of the agent in one pull.
pub const PULL_MAX_BYTES: usize = 1048576;

/// What a read gets from the buffer.
#[derive(Debug)]
pub enum ReadStep {
    /// Bytes from the buffer (none when none were asked for).
    Data(Vec<u8>),
    /// The stream is over.
    Eof,
    /// The buffer is empty: pull at most this many bytes from the agent, then `fill`.
    Pull(usize),
}

/// The chunks received from the agent, handed out to reads in order.
pub struct ChunkBuffer {
    buf: Vec<u8>,
    pos: usize,
    eof: bool,
    received: Ghost<Seq<u8>>,
    delivered: Ghost<Seq<u8>>,
}

impl ChunkBuffer {
    /// All bytes received so far, in order.
    pub closed spec fn received(&self) -> Seq<u8> {
        self.received@
    }

    /// All bytes handed out so far, in order.
    pub closed spec fn delivered(&self) -> Seq<u8> {
        self.delivered@
    }

    /// The bytes received and not yet handed out.
    pub closed spec fn pending(&self) -> Seq<u8> {
        self.buf@.subrange(self.pos as int, self.buf@.len() as int)
    }

    /// Whether the agent said the last chunk was the last.
    pub closed spec fn at_eof(&self) -> bool {
        self.eof
    }

    pub closed spec fn wf(&self) -> bool {
        &&& self.pos <= self.buf@.len()
        &&& self.delivered@ + self.pending() == self.received@
    }

    /// Nothing is lost, repeated or reordered: what was handed out, then what waits, is
    /// exactly what was received.
    pub proof fn lemma_in_order(&self)
        requires
            self.wf(),
        ensures
            self.delivered() + self.pending() == self.received(),
    {
    }

    pub fn new() -> (b: ChunkBuffer)
        ensures
            b.wf(),
            b.received() == Seq::<u8>::empty(),
            b.delivered() == Seq::<u8>::empty(),
            b.pending() == Seq::<u8>::empty(),
            !b.at_eof(),
    {
        let b = ChunkBuffer {
            buf: Vec::new(),
            pos: 0,
            eof: false,
            received: Ghost(Seq::empty()),
            delivered: Ghost(Seq::empty()),
        };
        assert(b.pending() =~= Seq::<u8>::empty());
        assert(b.delivered@ + b.pending() =~= b.received@);
        b
    }

    /// One read of at most `want` bytes: what is buffered first, then the end of the stream,
    /// else a pull of at least one byte and at most the pull limit.
    pub fn step(&mut self, want: usize) -> (r: ReadStep)
        requires
            old(self).wf(),
        ensures
            final(self).wf(),
            final(self).received() == old(self).received(),
            final(self).at_eof() == old(self).at_eof(),
            want == 0 ==> (r matches ReadStep::Data(d) && d@.len() == 0) && final(self).delivered() == old(self).delivered(),
            want > 0 && old(self).pending().len() > 0 ==> {
                let n = if want < old(self).pending().len() { want as int } else { old(self).pending().len() as int };
                &&& r matches ReadStep::Data(d)
                &&& d@ == old(self).pending().take(n)
                &&& final(self).delivered() == old(self).delivered() + d@
                &&& final(self).pending() == old(self).pending().skip(n)
            },
            want > 0 && old(self).pending().len() == 0 && old(self).at_eof() ==> r is Eof
                && final(self).delivered() == old(self).delivered() && final(self).pending().len() == 0,
            want > 0 && old(self).pending().len() == 0 && !old(self).at_eof() ==> (r matches ReadStep::Pull(k)
                && k == (if want > PULL_MAX_BYTES { PULL_MAX_BYTES } else { want }))
                && final(self).delivered() == old(self).delivered() && final(self).pending().len() == 0,
    {
        if want == 0 {
            return ReadStep::Data(Vec::new());
        }
        if self.pos < self.buf.len() {
            let left = self.buf.len() - self.pos;
            let n = if want < left { want } else { left };
            let ghost before = self.pending();
            let p = self.pos;
            let src = &self.buf;
            let mut out: Vec<u8> = Vec::new();
            let mut i: usize = 0;
            while i < n
                invariant
                    i <= n,
                    p + n <= src.len(),
                    before == src@.subrange(p as int, src@.len() as int),
                    out@ == before.take(i as int),
                decreases n - i,
            {
                out.push(src[p + i]);
                assert(out@ =~= before.take(i + 1));
                i = i + 1;
            }
            self.pos = self.pos + n;
            self.delivered = Ghost(self.delivered@ + out@);
            if self.pos >= self.buf.len() {
                self.buf = Vec::new();
                self.pos = 0;
            }
            proof {
                assert(self.pending() =~= before.skip(n as int));
                assert(before.take(n as int) + before.skip(n as int) =~= before);
                assert(self.delivered@ + self.pending() =~= old(self).delivered@ + before);
            }
            return ReadStep::Data(out);
        }
        proof {
            assert(self.pending() =~= Seq::<u8>::empty());
        }
        if self.eof {
            return ReadStep::Eof;
        }
        ReadStep::Pull(if want > PULL_MAX_BYTES { PULL_MAX_BYTES } else { want })
    }

    /// Takes the chunk a pull brought back, and whether it was the stream's last.
    pub fn fill(&mut self, bytes: Vec<u8>, eof: bool)
        requires
            old(self).wf(),
            old(self).pending().len() == 0,
        ensures
            final(self).wf(),
            final(self).received() == old(self).received() + bytes@,
            final(self).delivered() == old(self).delivered(),
            final(self).pending() == bytes@,
            final(self).at_eof() == eof,
    {
        let ghost added = bytes@;
        self.received = Ghost(self.received@ + added);
        self.buf = bytes;
        self.pos = 0;
        self.eof = eof;
        proof {
            assert(self.pending() =~= added);
            assert(old(self).delivered@ =~= old(self).received@) by {
                assert(old(self).delivered@ + old(self).pending() == old(self).received@);
                assert(old(self).delivered@ + old(self).pending() =~= old(self).delivered@);
            }
        }
    }
}

#[verifier::external_type_specification]
#[verifier::external_body]
pub struct ExBlake3Hasher(blake3::Hasher);

/// The bytes a hasher has been fed, in order.
pub uninterp spec fn hasher_input(h: blake3::Hasher) -> Seq<u8>;

/// The BLAKE3 digest of the bytes, as `Hash::to_hex` writes it.
pub uninterp spec fn blake3_hex(data: Seq<u8>) -> Seq<char>;

/// `blake3::Hasher::new()`: a hasher that has been fed nothing.
#[verifier::external_body]
fn new_part_hasher() -> (h: blake3::Hasher)
    ensures
        hasher_input(h) == Seq::<u8>::empty(),
{
    blake3::Hasher::new()
}

/// `blake3::Hasher::update`: the bytes are added to what the hasher was fed.
#[verifier::external_body]
fn feed_part_hasher(h: &mut blake3::Hasher, data: &[u8])
    ensures
        hasher_input(*final(h)) == hasher_input(*old(h)) + data@,
{
    h.update(data);
}

/// `blake3::Hasher::finalize` written by `Hash::to_hex`: the digest of everything fed so far,
/// as 64 hexadecimal digits. The digest itself is named `blake3_hex` of those bytes.
#[verifier::external_body]
fn part_hasher_hex(h: &blake3::Hasher) -> (r: String)
    ensures
        r@ == blake3_hex(hasher_input(*h)),
        r@.len() == 64,
{
    h.finalize().to_hex().to_string()
}

/// A count of bytes as a `u64` that saturates.
pub open spec fn sat_len(data: Seq<u8>) -> u64 {
    if data.len() > u64::MAX { u64::MAX } else { data.len() as u64 }
}

/// The hash a payload part is checked against.
#[derive(Debug)]
pub enum PartHashAlg {
    Blake3,
    /// An algorithm this reader does not check, by the name it is shown with.
    Other(String),
}

/// A part of a payload as the manifest lists it.
#[derive(Debug)]
pub struct PartSpec {
    pub name: String,
    pub size: u64,
    pub hash_alg: PartHashAlg,
    pub hash: String,
}

/// A part's name, size and hash, as plain values.
pub type PartView = (Seq<char>, u64, Option<Seq<char>>, Seq<char>);

pub open spec fn part_view(p: PartSpec) -> PartView {
    (p.name@, p.size, match p.hash_alg {
        PartHashAlg::Blake3 => None,
        PartHashAlg::Other(n) => Some(n@),
    }, p.hash@)
}

/// A failure while reading the parts; `invalid_data` tells a bad part from a failed transfer.
#[derive(Debug)]
pub struct PartError {
    pub invalid_data: bool,
    pub message: String,
}

struct ActivePart {
    spec: PartSpec,
    read_bytes: u64,
    hasher: blake3::Hasher,
}

/// What the reader of the parts does next.
#[derive(Debug)]
pub enum PartsNext {
    /// Every part was read.
    Finished,
    /// Open the part with this name on the agent, then report with `opened`.
    Open(String),
    /// Read from the open part, and report with `took` or, at its end, `finish`.
    Read,
}

/// The parts of a payload, read one after the other, each checked for its size and hash.
pub struct PartsState {
    parts: Vec<PartSpec>,
    next_index: usize,
    current: Option<ActivePart>,
}

pub open spec fn open_failed_message(name: Seq<char>, error: Seq<char>) -> Seq<char> {
    "agent open part "@ + name + " failed: "@ + error
}

pub open spec fn size_mismatch_message(name: Seq<char>, expected: u64, got: u64) -> Seq<char> {
    "part size mismatch for "@ + name + ": expected "@ + decimal(expected as nat) + ", got "@ + decimal(got as nat)
}

pub open spec fn overflow_message(name: Seq<char>, expected: u64) -> Seq<char> {
    "part size overflow for "@ + name + ": expected "@ + decimal(expected as nat) + ", got >"@ + decimal(expected as nat)
}

pub open spec fn read_mismatch_message(name: Seq<char>, expected: u64, got: u64) -> Seq<char> {
    "part read size mismatch for "@ + name + ": expected "@ + decimal(expected as nat) + ", got "@ + decimal(got as nat)
}

pub open spec fn hash_mismatch_message(name: Seq<char>, expected: Seq<char>, got: Seq<char>) -> Seq<char> {
    "part hash mismatch for "@ + name + ": expected "@ + expected + ", got "@ + got
}

pub open spec fn unsupported_message(alg: Seq<char>) -> Seq<char> {
    "unsupported part hash algorithm: "@ + alg
}

/// Why a part just opened is refused: the agent's error, else a size that differs from the
/// manifest's.
pub open spec fn open_problem(p: PartView, open_error: Option<Seq<char>>, reported_size: Option<u64>) -> Option<(bool, Seq<char>)> {
    match open_error {
        Some(e) if trim(e).len() > 0 => Some((false, open_failed_message(p.0, e))),
        _ => match reported_size {
            Some(s) if s != p.1 => Some((true, size_mismatch_message(p.0, p.1, s))),
            _ => None,
        },
    }
}

/// Why a part that was read to its end is refused, given the digest of what was read.
pub open spec fn finish_problem(p: PartView, read_bytes: u64, computed: Seq<char>) -> Option<Seq<char>> {
    if read_bytes != p.1 {
        Some(read_mismatch_message(p.0, p.1, read_bytes))
    } else {
        match p.2 {
            Some(alg) => Some(unsupported_message(alg)),
            None => if computed != p.3 { Some(hash_mismatch_message(p.0, p.3, computed)) } else { None },
        }
    }
}

fn append_decimal(out: &mut String, n: u64)
    ensures
        final(out)@ == old(out)@ + decimal(n as nat),
{
    let d = u64_to_decimal(n);
    out.append(d.as_str());
}

fn clone_part(p: &PartSpec) -> (r: PartSpec)
    ensures
        part_view(r) == part_view(*p),
{
    PartSpec {
        name: p.name.clone(),
        size: p.size,
        hash_alg: match &p.hash_alg {
            PartHashAlg::Blake3 => PartHashAlg::Blake3,
            PartHashAlg::Other(n) => PartHashAlg::Other(n.clone()),
        },
        hash: p.hash.clone(),
    }
}

/// Checks a part that was read to its end: its size, then its hash (only BLAKE3 is checked).
pub fn check_finished_part(p: &PartSpec, read_bytes: u64, computed: &str) -> (r: Result<(), PartError>)
    ensures
        match finish_problem(part_view(*p), read_bytes, computed@) {
            None => r is Ok,
            Some(m) => r matches Err(e) && e.invalid_data && e.message@ == m,
        },
{
    if read_bytes != p.size {
        let mut m = owned("part read size mismatch for ");
        m.append(p.name.as_str());
        m.append(": expected ");
        append_decimal(&mut m, p.size);
        m.append(", got ");
        append_decimal(&mut m, read_bytes);
        return Err(PartError { invalid_data: true, message: m });
    }
    match &p.hash_alg {
        PartHashAlg::Other(alg) => {
            let mut m = owned("unsupported part hash algorithm: ");
            m.append(alg.as_str());
            Err(PartError { invalid_data: true, message: m })
        },
        PartHashAlg::Blake3 => {
            if !str_eq(computed, p.hash.as_str()) {
                let mut m = owned("part hash mismatch for ");
                m.append(p.name.as_str());
                m.append(": expected ");
                m.append(p.hash.as_str());
                m.append(", got ");
                m.append(computed);
                return Err(PartError { invalid_data: true, message: m });
            }
            Ok(())
        },
    }
}

impl PartsState {
    /// The parts as the manifest lists them.
    pub closed spec fn parts(&self) -> Seq<PartView> {
        self.parts@.map_values(|p: PartSpec| part_view(p))
    }

    /// How many parts were opened.
    pub closed spec fn opened_count(&self) -> int {
        self.next_index as int
    }

    /// The open part and how many of its bytes were read, if a part is open.
    pub closed spec fn current(&self) -> Option<(PartView, u64)> {
        match self.current {
            Some(a) => Some((part_view(a.spec), a.read_bytes)),
            None => None,
        }
    }

    /// The bytes read from the open part so far, as its hasher was fed them (none when no part
    /// is open).
    pub closed spec fn current_input(&self) -> Seq<u8> {
        match self.current {
            Some(a) => hasher_input(a.hasher),
            None => Seq::empty(),
        }
    }

    pub closed spec fn wf(&self) -> bool {
        &&& self.next_index <= self.parts@.len()
        &&& self.current is Some ==> self.next_index > 0 && part_view(self.current->0.spec) == part_view(self.parts@[self.next_index - 1])
        &&& self.current is Some ==> self.current->0.read_bytes == sat_len(hasher_input(self.current->0.hasher))
    }

    /// The open part is always the last one opened, and no more parts are opened than listed.
    pub proof fn lemma_current_is_last_opened(&self)
        requires
            self.wf(),
        ensures
            0 <= self.opened_count() <= self.parts().len(),
            self.current() matches Some((p, _)) ==> self.opened_count() > 0 && p == self.parts()[self.opened_count() - 1],
    {
    }

    pub fn new(parts: Vec<PartSpec>) -> (s: PartsState)
        ensures
            s.wf(),
            s.parts() == parts@.map_values(|p: PartSpec| part_view(p)),
            s.opened_count() == 0,
            s.current() is None,
    {
        PartsState { parts, next_index: 0, current: None }
    }

    /// What to do next: read the open part, open the next one, or stop after the last.
    pub fn next(&self) -> (r: PartsNext)
        requires
            self.wf(),
        ensures
            self.current() is Some ==> r is Read,
            self.current() is None && self.opened_count() >= self.parts().len() ==> r is Finished,
            self.current() is None && self.opened_count() < self.parts().len() ==> (r matches PartsNext::Open(n)
                && n@ == self.parts()[self.opened_count()].0),
    {
        if self.current.is_some() {
            return PartsNext::Read;
        }
        if self.next_index >= self.parts.len() {
            return PartsNext::Finished;
        }
        PartsNext::Open(self.parts[self.next_index].name.clone())
    }

    /// The agent's answer to opening the next part: its error, if any, and the size it reports.
    pub fn opened(&mut self, open_error: Option<&str>, reported_size: Option<u64>) -> (r: Result<(), PartError>)
        requires
            old(self).wf(),
            old(self).current() is None,
            old(self).opened_count() < old(self).parts().len(),
        ensures
            final(self).wf(),
            final(self).parts() == old(self).parts(),
            match open_problem(old(self).parts()[old(self).opened_count()], match open_error {
                Some(e) => Some(e@),
                None => None,
            }, reported_size) {
                None => r is Ok && final(self).opened_count() == old(self).opened_count() + 1
                    && final(self).current() == Some((old(self).parts()[old(self).opened_count()], 0u64))
                    && final(self).current_input() == Seq::<u8>::empty(),
                Some((invalid, m)) => (r matches Err(e) && e.invalid_data == invalid && e.message@ == m)
                    && final(self).opened_count() == old(self).opened_count() && final(self).current() is None,
            },
    {
        let idx = self.next_index;
        let count = self.parts.len();
        assert(idx < count);
        let spec = clone_part(&self.parts[idx]);
        proof {
            assert(self.parts()[idx as int] == part_view(self.parts@[idx as int]));
        }
        match open_error {
            Some(e) => {
                if trim_str(e).unicode_len() > 0 {
                    let mut m = owned("agent open part ");
                    m.append(spec.name.as_str());
                    m.append(" failed: ");
                    m.append(e);
                    return Err(PartError { invalid_data: false, message: m });
                }
            },
            None => {},
        }
        match reported_size {
            Some(sz) => {
                if sz != spec.size {
                    let mut m = owned("part size mismatch for ");
                    m.append(spec.name.as_str());
                    m.append(": expected ");
                    append_decimal(&mut m, spec.size);
                    m.append(", got ");
                    append_decimal(&mut m, sz);
                    return Err(PartError { invalid_data: true, message: m });
                }
            },
            None => {},
        }
        self.current = Some(ActivePart { spec, read_bytes: 0, hasher: new_part_hasher() });
        self.next_index = idx + 1;
        Ok(())
    }

    /// Bytes read from the open part: they are hashed and counted, and more than the part's
    /// size is refused.
    pub fn took(&mut self, data: &[u8]) -> (r: Result<(), PartError>)
        requires
            old(self).wf(),
            old(self).current() is Some,
        ensures
            final(self).wf(),
            final(self).parts() == old(self).parts(),
            final(self).opened_count() == old(self).opened_count(),
            final(self).current_input() == old(self).current_input() + data@,
            ({
                let (p, read) = old(self).current()->0;
                let now: u64 = if read + data@.len() > u64::MAX { u64::MAX } else { (read + data@.len()) as u64 };
                &&& final(self).current() == Some((p, now))
                &&& now <= p.1 ==> r is Ok
                &&& now > p.1 ==> (r matches Err(e) && e.invalid_data && e.message@ == overflow_message(p.0, p.1))
            }),
    {
        let mut active = match self.current.take() {
            Some(a) => a,
            None => { return Ok(()); },
        };
        feed_part_hasher(&mut active.hasher, data);
        let len = data.len() as u64;
        let now: u64 = if active.read_bytes > u64::MAX - len { u64::MAX } else { active.read_bytes + len };
        active.read_bytes = now;
        let over = now > active.spec.size;
        let mut m = String::new();
        if over {
            m = owned("part size overflow for ");
            m.append(active.spec.name.as_str());
            m.append(": expected ");
            append_decimal(&mut m, active.spec.size);
            m.append(", got >");
            append_decimal(&mut m, active.spec.size);
        }
        self.current = Some(active);
        if over {
            return Err(PartError { invalid_data: true, message: m });
        }
        Ok(())
    }

    /// The open part reached its end: it is closed and checked; with no part open, nothing
    /// happens.
    pub fn finish(&mut self) -> (r: Result<(), PartError>)
        requires
            old(self).wf(),
        ensures
            final(self).wf(),
            final(self).parts() == old(self).parts(),
            final(self).opened_count() == old(self).opened_count(),
            final(self).current() is None,
            old(self).current() is None ==> r is Ok,
            old(self).current() matches Some((p, read)) ==> {
                &&& read != p.1 ==> (r matches Err(e) && e.invalid_data && e.message@ == read_mismatch_message(p.0, p.1, read))
                &&& read == p.1 && p.2 is Some ==> (r matches Err(e) && e.invalid_data
                    && e.message@ == unsupported_message(p.2->0))
                &&& read == p.1 && p.2 is None && blake3_hex(old(self).current_input()) == p.3 ==> r is Ok
                &&& read == p.1 && p.2 is None && blake3_hex(old(self).current_input()) != p.3 ==> (r matches Err(e)
                    && e.invalid_data && e.message@ == hash_mismatch_message(p.0, p.3, blake3_hex(old(self).current_input())))
                &&& r is Ok ==> read == p.1 && p.2 is None
            },
    {
        let active = match self.current.take() {
            Some(a) => a,
            None => { return Ok(()); },
        };
        let computed = match &active.spec.hash_alg {
            PartHashAlg::Blake3 => part_hasher_hex(&active.hasher),
            PartHashAlg::Other(_) => String::new(),
        };
        check_finished_part(&active.spec, active.read_bytes, computed.as_str())
    }
}

} // verus!
