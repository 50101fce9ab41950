//! Showing the last line that a program has printed.

use crate::util::text::{lemma_split_not_empty, lemma_split_one, split, texts};
use vstd::prelude::*;

verus! {

/// The byte that ends a line.
pub const LINE_END: u8 = 10;

/// Bytes as the characters with their numbers.
pub open spec fn latin_text(bytes: Seq<u8>) -> Seq<char> {
    bytes.map_values(|b: u8| b as char)
}

/// Lines as texts.
pub open spec fn latin_texts(lines: Seq<Seq<u8>>) -> Seq<Seq<char>> {
    lines.map_values(|l: Seq<u8>| latin_text(l))
}

/// What comes before the last line end, in lines.
pub open spec fn whole_lines(bytes: Seq<u8>) -> Seq<Seq<u8>> {
    split(bytes, LINE_END).drop_last()
}

/// What comes behind the last line end.
pub open spec fn last_line(bytes: Seq<u8>) -> Seq<u8> {
    split(bytes, LINE_END).last()
}

/// Cuts what is written to it into lines. Its view is the line that has not ended yet.
#[derive(Debug)]
pub struct ProgressBarWriter {
    pub buffer: Vec<u8>,
}

impl View for ProgressBarWriter {
    type V = Seq<u8>;

    open spec fn view(&self) -> Seq<u8> {
        self.buffer@
    }
}

fn to_message(line: &Vec<u8>) -> (r: String)
    ensures
        r@ == latin_text(line@),
{
    let mut out: String = String::new();
    let mut i: usize = 0;
    assert(out@ =~= latin_text(line@).take(0));
    while i < line.len()
        invariant
            0 <= i <= line@.len(),
            out@ == latin_text(line@).take(i as int),
        decreases line@.len() - i,
    {
        let c: char = line[i] as char;
        let ghost all = latin_text(line@);
        out.push(c);
        assert(all.take(i + 1) =~= all.take(i as int).push(all[i as int]));
        i = i + 1;
    }
    assert(latin_text(line@).take(line@.len() as int) =~= latin_text(line@));
    out
}

impl ProgressBarWriter {
    /// The line that has not ended yet holds no line end.
    pub open spec fn wf(self) -> bool {
        !self@.contains(LINE_END)
    }

    /// Nothing has been written yet.
    pub fn init() -> (r: ProgressBarWriter)
        ensures
            r.wf(),
            r@ == Seq::<u8>::empty(),
    {
        ProgressBarWriter { buffer: Vec::new() }
    }

    /// Writes bytes. The lines that have ended with them are the messages to show, one after the
    /// other.
    pub fn write(&mut self, bytes: &[u8]) -> (r: Vec<String>)
        requires
            old(self).wf(),
        ensures
            final(self).wf(),
            texts(r@) == latin_texts(whole_lines(old(self)@ + bytes@)),
            final(self)@ == last_line(old(self)@ + bytes@),
    {
        let mut messages: Vec<String> = Vec::new();
        let mut i: usize = 0;
        let ghost start = self@;
        proof {
            lemma_split_one(start, LINE_END);
            assert(start + bytes@.take(0) =~= start);
            assert(texts(messages@) =~= latin_texts(whole_lines(start)));
        }
        while i < bytes.len()
            invariant
                0 <= i <= bytes@.len(),
                self.wf(),
                texts(messages@) == latin_texts(whole_lines(start + bytes@.take(i as int))),
                self@ == last_line(start + bytes@.take(i as int)),
            decreases bytes@.len() - i,
        {
            let b: u8 = bytes[i];
            let ghost so_far = start + bytes@.take(i as int);
            let ghost next = start + bytes@.take(i + 1);
            let ghost parts = split(so_far, LINE_END);
            let ghost before = texts(messages@);
            let ghost line = self@;
            proof {
                lemma_split_not_empty(so_far, LINE_END);
                assert(next =~= so_far.push(b));
                assert(next.drop_last() =~= so_far);
            }
            if b == LINE_END {
                let message: String = to_message(&self.buffer);
                messages.push(message);
                self.buffer.clear();
                proof {
                    assert(texts(messages@) =~= before.push(latin_text(line)));
                    assert(whole_lines(next) =~= parts);
                    assert(latin_texts(parts) =~= latin_texts(parts.drop_last()).push(
                        latin_text(parts.last()),
                    ));
                }
            } else {
                self.buffer.push(b);
                proof {
                    assert(whole_lines(next) =~= parts.drop_last());
                    assert(self@ =~= last_line(next));
                    assert(forall|k: int| 0 <= k < line.len() ==> self@[k] == line[k]);
                    assert(!self@.contains(LINE_END));
                }
            }
            i = i + 1;
        }
        assert(start + bytes@.take(i as int) =~= start + bytes@);
        messages
    }
}

// ---------------------------------------------------------------------------
// Laws
// ---------------------------------------------------------------------------

proof fn lemma_split_concat(a: Seq<u8>, b: Seq<u8>)
    ensures
        whole_lines(a + b) == whole_lines(a) + whole_lines(last_line(a) + b),
        last_line(a + b) == last_line(last_line(a) + b),
    decreases b.len(),
{
    lemma_split_not_empty(a, LINE_END);
    if b.len() == 0 {
        assert(a + b =~= a);
        assert(last_line(a) + b =~= last_line(a));
        lemma_last_line_has_no_end(a);
        lemma_split_one(last_line(a), LINE_END);
        assert(whole_lines(last_line(a)) =~= Seq::empty());
        assert(whole_lines(a) + Seq::<Seq<u8>>::empty() =~= whole_lines(a));
    } else {
        let front = b.drop_last();
        lemma_split_concat(a, front);
        let x = a + b;
        let y = last_line(a) + b;
        assert(x.drop_last() =~= a + front);
        assert(y.drop_last() =~= last_line(a) + front);
        lemma_split_not_empty(a + front, LINE_END);
        lemma_split_not_empty(last_line(a) + front, LINE_END);
        let parts = split(a + front, LINE_END);
        let tail = split(last_line(a) + front, LINE_END);
        assert(parts.drop_last().push(parts.last()) =~= parts);
        assert(tail.drop_last().push(tail.last()) =~= tail);
        if b.last() == LINE_END {
            assert(whole_lines(x) =~= parts);
            assert(whole_lines(y) =~= tail);
            assert(whole_lines(x) =~= whole_lines(a) + whole_lines(y));
        } else {
            assert(whole_lines(x) =~= parts.drop_last());
            assert(whole_lines(y) =~= tail.drop_last());
        }
    }
}

proof fn lemma_last_line_has_no_end(a: Seq<u8>)
    ensures
        !last_line(a).contains(LINE_END),
    decreases a.len(),
{
    if a.len() > 0 {
        lemma_last_line_has_no_end(a.drop_last());
        lemma_split_not_empty(a.drop_last(), LINE_END);
        if a.last() != LINE_END {
            let before = last_line(a.drop_last());
            assert(last_line(a) =~= before.push(a.last()));
            assert forall|i: int| 0 <= i < last_line(a).len() implies last_line(a)[i]
                != LINE_END by {
                if i < before.len() {
                    assert(before[i] != LINE_END);
                }
            }
        }
    }
}

/// It makes no difference into which pieces the bytes are cut: the messages of two pieces written
/// one after the other are those of the whole, and so is the line that has not ended yet.
pub proof fn lemma_pieces_make_no_difference(line: Seq<u8>, first: Seq<u8>, second: Seq<u8>)
    ensures
        latin_texts(whole_lines(line + (first + second))) == latin_texts(whole_lines(line + first))
            + latin_texts(whole_lines(last_line(line + first) + second)),
        last_line(line + (first + second)) == last_line(last_line(line + first) + second),
{
    assert(line + (first + second) =~= (line + first) + second);
    lemma_split_concat(line + first, second);
    let a = whole_lines(line + first);
    let b = whole_lines(last_line(line + first) + second);
    assert(latin_texts(a + b) =~= latin_texts(a) + latin_texts(b));
}

/// Bytes without a line end show nothing yet.
pub proof fn lemma_unended_line_shows_nothing(line: Seq<u8>, bytes: Seq<u8>)
    requires
        !line.contains(LINE_END),
        !bytes.contains(LINE_END),
    ensures
        whole_lines(line + bytes).len() == 0,
        last_line(line + bytes) == line + bytes,
{
    let all = line + bytes;
    assert forall|i: int| 0 <= i < all.len() implies all[i] != LINE_END by {
        if i < line.len() {
            assert(line[i] != LINE_END);
        } else {
            assert(bytes[i - line.len()] != LINE_END);
        }
    }
    lemma_split_one(all, LINE_END);
}

} // verus!
