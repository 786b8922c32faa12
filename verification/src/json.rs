//! A line-buffering byte sink: write calls collect full lines, and a
//! flush frames the collected lines as a bracketed, comma-separated
//! list. Turning values into JSON bytes is an external concern; this
//! buffer only frames the bytes it is handed.

use vstd::prelude::*;

verus! {

/// The collected lines joined with a comma between each pair.
pub open spec fn spec_joined_lines(lines: Seq<Vec<u8>>) -> Seq<u8>
    decreases lines.len(),
{
    if lines.len() == 0 {
        Seq::empty()
    } else if lines.len() == 1 {
        lines[0]@
    } else {
        spec_joined_lines(lines.drop_last()) + seq![44u8] + lines.last()@
    }
}

/// A line-buffering sink.
pub struct Json {
    buf: Vec<u8>,
    lines: Vec<Vec<u8>>,
}

impl Json {
    /// The bytes of the line being collected.
    pub closed spec fn spec_buf(&self) -> Seq<u8> {
        self.buf@
    }

    /// The full lines collected so far.
    pub closed spec fn spec_lines(&self) -> Seq<Vec<u8>> {
        self.lines@
    }

    /// An empty sink.
    pub fn new() -> (r: Json)
        ensures
            r.spec_buf() == Seq::<u8>::empty(),
            r.spec_lines() == Seq::<Vec<u8>>::empty(),
    {
        Json { buf: Vec::new(), lines: Vec::new() }
    }

    /// Collects bytes: a chunk holding a newline ends the line being
    /// collected, which moves to the finished lines; any other chunk
    /// extends the line being collected.
    pub fn write(&mut self, data: &[u8])
        ensures
            if data@.contains(10u8) {
                &&& final(self).spec_buf() == Seq::<u8>::empty()
                &&& final(self).spec_lines().len() == old(self).spec_lines().len() + 1
                &&& final(self).spec_lines().last()@ == old(self).spec_buf()
                &&& forall|i: int|
                    0 <= i < old(self).spec_lines().len() ==> final(self).spec_lines()[i] == old(
                        self,
                    ).spec_lines()[i]
            } else {
                &&& final(self).spec_buf() == old(self).spec_buf() + data@
                &&& final(self).spec_lines() == old(self).spec_lines()
            },
    {
        let mut has_newline = false;
        let mut i: usize = 0;
        while i < data.len()
            invariant
                0 <= i <= data@.len(),
                has_newline == data@.take(i as int).contains(10u8),
            decreases data@.len() - i,
        {
            proof {
                assert(data@.take(i + 1).drop_last() =~= data@.take(i as int));
                assert(data@.take(i + 1).last() == data@[i as int]);
                if data@.take(i as int).contains(10u8) {
                    let w = choose|m: int|
                        0 <= m < i && #[trigger] data@.take(i as int)[m] == 10u8;
                    assert(data@.take(i + 1)[w] == 10u8);
                }
            }
            if data[i] == 10 {
                has_newline = true;
                proof {
                    assert(data@.take(i + 1)[i as int] == 10u8);
                }
            } else {
                proof {
                    if data@.take(i + 1).contains(10u8) {
                        let w = choose|m: int|
                            0 <= m <= i && #[trigger] data@.take(i + 1)[m] == 10u8;
                        if w < i {
                            assert(data@.take(i as int)[w] == 10u8);
                        }
                    }
                }
            }
            i = i + 1;
        }
        proof {
            assert(data@.take(data@.len() as int) =~= data@);
        }
        if has_newline {
            let mut finished: Vec<u8> = Vec::new();
            core::mem::swap(&mut finished, &mut self.buf);
            self.lines.push(finished);
        } else {
            let mut j: usize = 0;
            while j < data.len()
                invariant
                    0 <= j <= data@.len(),
                    self.buf@ == old(self).spec_buf() + data@.take(j as int),
                    self.lines@ == old(self).spec_lines(),
                decreases data@.len() - j,
            {
                proof {
                    assert(data@.take(j + 1) =~= data@.take(j as int).push(data@[j as int]));
                }
                self.buf.push(data[j]);
                j = j + 1;
            }
            proof {
                assert(data@.take(data@.len() as int) =~= data@);
            }
        }
    }

    /// Frames and drains the collected lines: nothing when no line was
    /// finished, else the lines joined with commas between square
    /// brackets. The line still being collected stays.
    pub fn flush(&mut self) -> (r: Vec<u8>)
        ensures
            final(self).spec_buf() == old(self).spec_buf(),
            final(self).spec_lines() == Seq::<Vec<u8>>::empty(),
            r@ == (if old(self).spec_lines().len() == 0 {
                Seq::<u8>::empty()
            } else {
                seq![91u8] + spec_joined_lines(old(self).spec_lines()) + seq![93u8]
            }),
    {
        if self.lines.len() == 0 {
            return Vec::new();
        }
        let mut out: Vec<u8> = Vec::new();
        out.push(91);
        let ghost all = self.lines@;
        let mut k: usize = 0;
        proof {
            assert(all.take(0) =~= Seq::<Vec<u8>>::empty());
            assert(out@ =~= seq![91u8] + spec_joined_lines(all.take(0)));
        }
        while k < self.lines.len()
            invariant
                self.lines@ == all,
                self.buf@ == old(self).spec_buf(),
                0 <= k <= all.len(),
                out@ == seq![91u8] + spec_joined_lines(all.take(k as int)),
            decreases all.len() - k,
        {
            proof {
                assert(all.take(k + 1).drop_last() =~= all.take(k as int));
                assert(all.take(k + 1).last() == all[k as int]);
            }
            if k > 0 {
                out.push(44);
            }
            let ghost mid = out@;
            let line = &self.lines[k];
            let mut b: usize = 0;
            while b < line.len()
                invariant
                    line == all[k as int],
                    0 <= b <= line@.len(),
                    out@ == mid + line@.take(b as int),
                decreases line@.len() - b,
            {
                proof {
                    assert(line@.take(b + 1) =~= line@.take(b as int).push(line@[b as int]));
                }
                out.push(line[b]);
                b = b + 1;
            }
            proof {
                assert(line@.take(line@.len() as int) =~= line@);
                assert(out@ =~= seq![91u8] + spec_joined_lines(all.take(k + 1)));
            }
            k = k + 1;
        }
        proof {
            assert(all.take(all.len() as int) =~= all);
        }
        out.push(93);
        self.lines = Vec::new();
        proof {
            assert(out@ =~= seq![91u8] + spec_joined_lines(all) + seq![93u8]);
        }
        out
    }
}

} // verus!
