//! Framing: the byte stream of a connection cut into lines that end in CR LF,
//! whatever the sizes of the reads that deliver it.
use vstd::prelude::*;

verus! {

/// `i` is where the first CR LF of `s` starts.
pub open spec fn is_first_crlf(s: Seq<u8>, i: int) -> bool {
    &&& 0 <= i
    &&& i + 1 < s.len()
    &&& s[i] == 13 && s[i + 1] == 10
    &&& forall|j: int| 0 <= j < i ==> !(s[j] == 13 && #[trigger] s[j + 1] == 10)
}

/// Where the first CR LF of `s` starts, if `s` holds one.
pub open spec fn first_crlf(s: Seq<u8>) -> Option<int> {
    if exists|i: int| is_first_crlf(s, i) {
        Some(choose|i: int| is_first_crlf(s, i))
    } else {
        None
    }
}

proof fn lemma_first_crlf_found(s: Seq<u8>, i: int)
    requires
        is_first_crlf(s, i),
    ensures
        first_crlf(s) == Some(i),
{
    let k = choose|k: int| is_first_crlf(s, k);
    assert(is_first_crlf(s, k));
    if k < i {
        assert(!(s[k] == 13 && s[k + 1] == 10));
    } else if i < k {
        assert(!(s[i] == 13 && s[i + 1] == 10));
    }
}

/// The complete lines of `s`, each without its CR LF, in order.
pub open spec fn split_lines(s: Seq<u8>) -> Seq<Seq<u8>>
    decreases s.len(),
{
    match first_crlf(s) {
        Some(i) => if i + 2 <= s.len() {
            seq![s.take(i)] + split_lines(s.skip(i + 2))
        } else {
            Seq::empty()
        },
        None => Seq::empty(),
    }
}

/// What follows the last complete line of `s`: a line not yet terminated.
pub open spec fn remainder(s: Seq<u8>) -> Seq<u8>
    decreases s.len(),
{
    match first_crlf(s) {
        Some(i) => if i + 2 <= s.len() {
            remainder(s.skip(i + 2))
        } else {
            s
        },
        None => s,
    }
}

proof fn lemma_first_crlf_prefix(a: Seq<u8>, b: Seq<u8>, i: int)
    requires
        first_crlf(a) == Some(i),
    ensures
        first_crlf(a + b) == Some(i),
        i + 2 <= a.len(),
{
    assert(is_first_crlf(a, i));
    assert forall|j: int| 0 <= j < i implies !((a + b)[j] == 13 && #[trigger] (a + b)[j + 1] == 10) by {
        assert((a + b)[j] == a[j]);
        assert((a + b)[j + 1] == a[j + 1]);
        assert(!(a[j] == 13 && a[j + 1] == 10));
    }
    assert(is_first_crlf(a + b, i));
    lemma_first_crlf_found(a + b, i);
}

/// Cutting `a + b` into lines gives the lines of `a`, then the lines of what
/// `a` left unterminated followed by `b`.
pub proof fn lemma_split_lines_append(a: Seq<u8>, b: Seq<u8>)
    ensures
        split_lines(a + b) == split_lines(a) + split_lines(remainder(a) + b),
        remainder(a + b) == remainder(remainder(a) + b),
    decreases a.len(),
{
    match first_crlf(a) {
        Some(i) => {
            lemma_first_crlf_prefix(a, b, i);
            let rest = a.skip(i + 2);
            assert((a + b).skip(i + 2) =~= rest + b);
            assert((a + b).take(i) =~= a.take(i));
            lemma_split_lines_append(rest, b);
            assert(split_lines(a + b) =~= split_lines(a) + split_lines(remainder(a) + b));
        },
        None => {
            assert(split_lines(a + b) =~= split_lines(a) + split_lines(remainder(a) + b));
        },
    }
}

/// The lines that a reader yields when it starts with `rest` unterminated and
/// is then fed `chunks`, one read after another.
pub open spec fn lines_fed(rest: Seq<u8>, chunks: Seq<Seq<u8>>) -> Seq<Seq<u8>>
    decreases chunks.len(),
{
    if chunks.len() == 0 {
        Seq::empty()
    } else {
        split_lines(rest + chunks[0]) + lines_fed(remainder(rest + chunks[0]), chunks.drop_first())
    }
}

/// What such a reader holds unterminated at the end.
pub open spec fn left_fed(rest: Seq<u8>, chunks: Seq<Seq<u8>>) -> Seq<u8>
    decreases chunks.len(),
{
    if chunks.len() == 0 {
        rest
    } else {
        left_fed(remainder(rest + chunks[0]), chunks.drop_first())
    }
}

proof fn lemma_fed_from(rest: Seq<u8>, chunks: Seq<Seq<u8>>)
    requires
        split_lines(rest) == Seq::<Seq<u8>>::empty(),
        remainder(rest) == rest,
    ensures
        lines_fed(rest, chunks) == split_lines(rest + chunks.flatten()),
        left_fed(rest, chunks) == remainder(rest + chunks.flatten()),
    decreases chunks.len(),
{
    if chunks.len() == 0 {
        assert(rest + chunks.flatten() =~= rest);
    } else {
        let a = rest + chunks[0];
        let f = chunks.drop_first().flatten();
        assert(rest + chunks.flatten() =~= a + f);
        lemma_split_lines_append(a, f);
        lemma_remainder_is_tail(a);
        lemma_fed_from(remainder(a), chunks.drop_first());
    }
}

/// What is left unterminated holds no complete line.
proof fn lemma_remainder_is_tail(s: Seq<u8>)
    ensures
        split_lines(remainder(s)) == Seq::<Seq<u8>>::empty(),
        remainder(remainder(s)) == remainder(s),
    decreases s.len(),
{
    match first_crlf(s) {
        Some(i) => {
            assert(is_first_crlf(s, i));
            lemma_remainder_is_tail(s.skip(i + 2));
        },
        None => {},
    }
}

/// The lines that a reader yields do not depend on how the stream is cut into
/// reads: fed `chunks` one after another from empty, it yields exactly the
/// lines of their concatenation, and keeps what follows the last of them.
pub proof fn lemma_chunking_invariant(chunks: Seq<Seq<u8>>)
    ensures
        lines_fed(Seq::empty(), chunks) == split_lines(chunks.flatten()),
        left_fed(Seq::empty(), chunks) == remainder(chunks.flatten()),
{
    let e = Seq::<u8>::empty();
    assert(first_crlf(e).is_none());
    assert(e + chunks.flatten() =~= chunks.flatten());
    lemma_fed_from(e, chunks);
}

/// The carry-over buffer of a connection: bytes received and not yet handed
/// out as lines.
pub struct FrameReader {
    buffer: Vec<u8>,
}

impl View for FrameReader {
    type V = Seq<u8>;

    closed spec fn view(&self) -> Seq<u8> {
        self.buffer@
    }
}

/// The bytes of `v` between `lo` and `hi`.
fn copy_range(v: &Vec<u8>, lo: usize, hi: usize) -> (r: Vec<u8>)
    requires
        lo <= hi <= v@.len(),
    ensures
        r@ == v@.subrange(lo as int, hi as int),
{
    let mut r: Vec<u8> = Vec::new();
    let mut i = lo;
    while i < hi
        invariant
            lo <= i <= hi <= v@.len(),
            r@ == v@.subrange(lo as int, i as int),
        decreases hi - i,
    {
        r.push(v[i]);
        i = i + 1;
        assert(r@ =~= v@.subrange(lo as int, i as int));
    }
    r
}

/// Appends the bytes of `b` to `v`.
pub fn append_bytes(v: &mut Vec<u8>, b: &[u8])
    ensures
        final(v)@ == old(v)@ + b@,
{
    let mut i: usize = 0;
    while i < b.len()
        invariant
            i <= b@.len(),
            v@ == old(v)@ + b@.take(i as int),
        decreases b@.len() - i,
    {
        v.push(b[i]);
        i = i + 1;
        assert(v@ =~= old(v)@ + b@.take(i as int));
    }
    assert(b@.take(b@.len() as int) =~= b@);
}

impl FrameReader {
    pub fn new() -> (r: Self)
        ensures
            r@ == Seq::<u8>::empty(),
    {
        FrameReader { buffer: Vec::new() }
    }

    /// Whether no byte is held.
    pub fn is_empty(&self) -> (r: bool)
        ensures
            r == (self@.len() == 0),
    {
        self.buffer.len() == 0
    }

    /// Takes in the bytes of one read.
    pub fn push(&mut self, chunk: &[u8])
        ensures
            final(self)@ == old(self)@ + chunk@,
    {
        append_bytes(&mut self.buffer, chunk);
    }

    /// Hands out the first complete line held, without its CR LF, and keeps
    /// what follows it.
    pub fn next_line(&mut self) -> (r: Option<Vec<u8>>)
        ensures
            match r {
                Some(line) => {
                    &&& first_crlf(old(self)@) == Some(line@.len() as int)
                    &&& line@ == old(self)@.take(line@.len() as int)
                    &&& final(self)@ == old(self)@.skip(line@.len() as int + 2)
                    &&& split_lines(old(self)@) == seq![line@] + split_lines(final(self)@)
                    &&& remainder(old(self)@) == remainder(final(self)@)
                },
                None => {
                    &&& first_crlf(old(self)@).is_none()
                    &&& split_lines(old(self)@) == Seq::<Seq<u8>>::empty()
                    &&& remainder(old(self)@) == old(self)@
                    &&& final(self)@ == old(self)@
                },
            },
    {
        let n = self.buffer.len();
        let mut i: usize = 0;
        while n > 0 && i < n - 1
            invariant
                n == self.buffer@.len(),
                self.buffer@ == old(self)@,
                forall|j: int| 0 <= j < i ==> !(self.buffer@[j] == 13 && #[trigger] self.buffer@[j + 1] == 10),
            decreases n - i,
        {
            if self.buffer[i] == 13 && self.buffer[i + 1] == 10 {
                let line = copy_range(&self.buffer, 0, i);
                let rest = copy_range(&self.buffer, i + 2, n);
                proof {
                    assert(is_first_crlf(old(self)@, i as int));
                    lemma_first_crlf_found(old(self)@, i as int);
                    assert(rest@ =~= old(self)@.skip(i + 2));
                    assert(line@ =~= old(self)@.take(i as int));
                }
                self.buffer = rest;
                return Some(line);
            }
            i = i + 1;
        }
        proof {
            assert forall|k: int| !is_first_crlf(old(self)@, k) by {
                if 0 <= k && k + 1 < n {
                    assert(k < i);
                    assert(!(old(self)@[k] == 13 && old(self)@[k + 1] == 10));
                }
            }
        }
        None
    }

    /// Takes in the bytes of one read and hands out every line they complete,
    /// in order; what follows the last of them stays held.
    pub fn feed(&mut self, chunk: &[u8]) -> (lines: Vec<Vec<u8>>)
        ensures
            lines@.map_values(|l: Vec<u8>| l@) == split_lines(old(self)@ + chunk@),
            final(self)@ == remainder(old(self)@ + chunk@),
    {
        self.push(chunk);
        let ghost all = old(self)@ + chunk@;
        let mut lines: Vec<Vec<u8>> = Vec::new();
        loop
            invariant
                all == old(self)@ + chunk@,
                split_lines(all) == lines@.map_values(|l: Vec<u8>| l@) + split_lines(self@),
                remainder(all) == remainder(self@),
            decreases self@.len(),
        {
            let ghost held = self@;
            match self.next_line() {
                Some(line) => {
                    let ghost lv = line@;
                    let ghost done = lines@.map_values(|l: Vec<u8>| l@);
                    lines.push(line);
                    assert(lines@.map_values(|l: Vec<u8>| l@) =~= done.push(lv));
                    assert(done + split_lines(held) =~= done.push(lv) + split_lines(self@));
                },
                None => {
                    assert(lines@.map_values(|l: Vec<u8>| l@) + Seq::<Seq<u8>>::empty() =~= lines@.map_values(|l: Vec<u8>| l@));
                    return lines;
                },
            }
        }
    }
}

} // verus!
