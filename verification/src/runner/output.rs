//! What a process writes: exact counts, bounded text.

use crate::json::{field, field_views, object, Json, JsonView};
use crate::report::OutputReport;
use crate::text::{chars_of, same_text, slice_of, string_of};
use vstd::prelude::*;
use vstd::utf8::{decode_utf8, valid_utf8};

verus! {

/// How many characters of each stream are kept.
pub const TAIL_LIMIT_CHARS: usize = 4096;

/// The text of some bytes, with a replacement character for what is not UTF-8.
pub uninterp spec fn lossy(bytes: Seq<u8>) -> Seq<char>;

/// `String::from_utf8_lossy`: the text depends on the bytes alone, and is the
/// one that they encode where they are UTF-8.
#[verifier::external_body]
fn lossy_text(bytes: &[u8]) -> (text: String)
    ensures
        text@ == lossy(bytes@),
        valid_utf8(bytes@) ==> text@ == decode_utf8(bytes@),
{
    String::from_utf8_lossy(bytes).into_owned()
}

/// The last `n` characters of a text.
pub open spec fn tail_of(text: Seq<char>, n: nat) -> Seq<char> {
    if text.len() > n {
        text.skip(text.len() - n)
    } else {
        text
    }
}

/// Appends to a tail, and notes whether anything is lost.
pub fn append_tail(target: &mut String, truncated: &mut bool, text: &str)
    ensures
        final(target)@ == tail_of(old(target)@ + text@, TAIL_LIMIT_CHARS as nat),
        *final(truncated) == (*old(truncated) || (old(target)@ + text@).len() > TAIL_LIMIT_CHARS),
{
    let ghost whole = target@ + text@;
    target.append(text);
    let chars = chars_of(target.as_str());
    if chars.len() > TAIL_LIMIT_CHARS {
        let kept = slice_of(chars.as_slice(), chars.len() - TAIL_LIMIT_CHARS, chars.len());
        assert(kept@ =~= tail_of(whole, TAIL_LIMIT_CHARS as nat));
        *target = string_of(kept.as_slice());
        *truncated = true;
    }
}

/// Keeping the tail piece by piece keeps the tail of the whole: if a tail is
/// that of all the text so far, so is the tail after one more piece, and the
/// text counts as cut exactly when the whole is longer than a tail.
pub proof fn a_tail_is_that_of_the_whole(whole: Seq<char>, piece: Seq<char>, n: nat)
    ensures
        tail_of(tail_of(whole, n) + piece, n) == tail_of(whole + piece, n),
        (whole.len() > n || (tail_of(whole, n) + piece).len() > n) == ((whole + piece).len() > n),
{
    assert(tail_of(tail_of(whole, n) + piece, n) =~= tail_of(whole + piece, n));
}

/// What is kept of what a process writes.
#[derive(Debug, PartialEq, Eq)]
pub struct OutputAccumulator {
    pub stdout_bytes: u64,
    pub stderr_bytes: u64,
    pub stdout_tail: String,
    pub stderr_tail: String,
    pub stdout_truncated: bool,
    pub stderr_truncated: bool,
}

impl Default for OutputAccumulator {
    fn default() -> (a: Self)
        ensures
            a.stdout_bytes == 0,
            a.stderr_bytes == 0,
            a.stdout_tail@.len() == 0,
            a.stderr_tail@.len() == 0,
            !a.stdout_truncated,
            !a.stderr_truncated,
    {
        OutputAccumulator {
            stdout_bytes: 0,
            stderr_bytes: 0,
            stdout_tail: String::new(),
            stderr_tail: String::new(),
            stdout_truncated: false,
            stderr_truncated: false,
        }
    }
}

/// `after` is `before` with a piece of one stream taken in: the bytes are
/// counted, and the text is added to the tail of that stream.
pub open spec fn takes_text(
    before: OutputAccumulator,
    after: OutputAccumulator,
    kind: Seq<char>,
    size: nat,
    text: Seq<char>,
) -> bool {
    if kind == "stderr.chunk"@ {
        &&& after.stderr_bytes == before.stderr_bytes + size
        &&& after.stderr_tail@ == tail_of(before.stderr_tail@ + text, TAIL_LIMIT_CHARS as nat)
        &&& after.stderr_truncated == (before.stderr_truncated || (before.stderr_tail@ + text).len() > TAIL_LIMIT_CHARS)
        &&& after.stdout_bytes == before.stdout_bytes
        &&& after.stdout_tail == before.stdout_tail
        &&& after.stdout_truncated == before.stdout_truncated
    } else {
        &&& after.stdout_bytes == before.stdout_bytes + size
        &&& after.stdout_tail@ == tail_of(before.stdout_tail@ + text, TAIL_LIMIT_CHARS as nat)
        &&& after.stdout_truncated == (before.stdout_truncated || (before.stdout_tail@ + text).len() > TAIL_LIMIT_CHARS)
        &&& after.stderr_bytes == before.stderr_bytes
        &&& after.stderr_tail == before.stderr_tail
        &&& after.stderr_truncated == before.stderr_truncated
    }
}

impl OutputAccumulator {
    /// Takes in a piece of one stream: how many bytes it has, and its text.
    /// Every kind of piece but that of the error stream belongs to the output stream.
    pub fn take_text(&mut self, kind: &str, size: u64, text: &str)
        requires
            old(self).stderr_bytes + size <= u64::MAX,
            old(self).stdout_bytes + size <= u64::MAX,
        ensures
            takes_text(*old(self), *final(self), kind@, size as nat, text@),
    {
        if same_text(kind, "stderr.chunk") {
            self.stderr_bytes = self.stderr_bytes + size;
            append_tail(&mut self.stderr_tail, &mut self.stderr_truncated, text);
        } else {
            self.stdout_bytes = self.stdout_bytes + size;
            append_tail(&mut self.stdout_tail, &mut self.stdout_truncated, text);
        }
    }

    /// Takes in a piece of one stream.
    pub fn push(&mut self, kind: &str, bytes: &[u8])
        requires
            old(self).stderr_bytes + bytes@.len() <= u64::MAX,
            old(self).stdout_bytes + bytes@.len() <= u64::MAX,
        ensures
            takes_text(*old(self), *final(self), kind@, bytes@.len(), lossy(bytes@)),
            valid_utf8(bytes@) ==> lossy(bytes@) == decode_utf8(bytes@),
    {
        let text = lossy_text(bytes);
        self.take_text(kind, bytes.len() as u64, text.as_str());
    }

    /// The report of what was kept.
    pub fn report(&self) -> (r: OutputReport)
        ensures
            r.stdout_bytes == self.stdout_bytes,
            r.stderr_bytes == self.stderr_bytes,
            r.stdout_truncated == self.stdout_truncated,
            r.stderr_truncated == self.stderr_truncated,
            r.stdout_tail@ == self.stdout_tail@,
            r.stderr_tail@ == self.stderr_tail@,
    {
        OutputReport {
            stdout_bytes: self.stdout_bytes,
            stderr_bytes: self.stderr_bytes,
            stdout_truncated: self.stdout_truncated,
            stderr_truncated: self.stderr_truncated,
            stdout_tail: self.stdout_tail.clone(),
            stderr_tail: self.stderr_tail.clone(),
        }
    }
}

/// How many bytes of a stream's text may still go into the trace; no bound where there is none.
#[derive(Debug, Clone, Copy, PartialEq, Eq)]
pub struct TraceBudget {
    pub remaining: Option<u64>,
}

/// How many of `n` bytes go into the trace.
pub open spec fn admitted(remaining: Option<u64>, n: nat) -> nat {
    match remaining {
        Some(left) => if n <= left {
            n
        } else {
            left as nat
        },
        None => n,
    }
}

/// What is left of a budget after `n` bytes.
pub open spec fn left_over(remaining: Option<u64>, n: nat) -> Option<u64> {
    match remaining {
        Some(left) => Some((left - admitted(remaining, n)) as u64),
        None => None,
    }
}

/// The data of the event for a piece: its size is exact; its text is that of
/// the bytes that were kept, and where some were not, the event tells how many.
pub open spec fn chunk_form(size: nat, kept: nat, text: Seq<char>) -> JsonView {
    JsonView::Object(
        if kept == size {
            seq![
                ("bytes"@, JsonView::Number(size as int)),
                ("text"@, JsonView::Text(text)),
                ("truncated"@, JsonView::Bool(false)),
            ]
        } else {
            seq![
                ("bytes"@, JsonView::Number(size as int)),
                ("omitted_bytes"@, JsonView::Number(size - kept)),
                ("text"@, JsonView::Text(text)),
                ("truncated"@, JsonView::Bool(true)),
            ]
        },
    )
}

/// The data of the event for a piece of which some bytes were kept.
pub fn chunk_json(size: usize, kept: usize, text: String) -> (data: Json)
    requires
        kept <= size,
    ensures
        data@ == chunk_form(size as nat, kept as nat, text@),
{
    let mut fields: Vec<(String, Json)> = Vec::new();
    assert(field_views(fields@) =~= Seq::empty());
    field(&mut fields, "bytes", Json::UInt(size as u128));
    if kept < size {
        field(&mut fields, "omitted_bytes", Json::UInt((size - kept) as u128));
    }
    field(&mut fields, "text", Json::Text(text));
    field(&mut fields, "truncated", Json::Bool(kept < size));
    assert(field_views(fields@) =~= chunk_form(size as nat, kept as nat, text@)->Object_0);
    object(fields)
}

impl TraceBudget {
    /// How many of `size` bytes go into the trace; the budget shrinks by as many.
    pub fn spend(&mut self, size: usize) -> (kept: usize)
        ensures
            kept == admitted(old(self).remaining, size as nat),
            final(self).remaining == left_over(old(self).remaining, size as nat),
    {
        let kept: usize = match self.remaining {
            Some(left) => if size as u64 <= left {
                size
            } else {
                left as usize
            },
            None => size,
        };
        self.remaining = match self.remaining {
            Some(left) => Some(left - kept as u64),
            None => None,
        };
        kept
    }

    /// The data of the event for a piece; the budget shrinks by what goes into it.
    pub fn chunk_data(&mut self, bytes: &[u8]) -> (data: Json)
        ensures
            ({
                let kept = admitted(old(self).remaining, bytes@.len());
                data@ == chunk_form(bytes@.len(), kept, lossy(bytes@.take(kept as int)))
            }),
            final(self).remaining == left_over(old(self).remaining, bytes@.len()),
    {
        let kept: usize = self.spend(bytes.len());
        let mut part: Vec<u8> = Vec::new();
        for i in 0..kept
            invariant
                kept <= bytes@.len(),
                part@ == bytes@.take(i as int),
        {
            part.push(bytes[i]);
            assert(bytes@.take(i + 1) =~= bytes@.take(i as int).push(bytes@[i as int]));
        }
        chunk_json(bytes.len(), kept, lossy_text(part.as_slice()))
    }
}

/// What is left of a budget after pieces of these sizes.
pub open spec fn budget_after(remaining: Option<u64>, sizes: Seq<nat>) -> Option<u64>
    decreases sizes.len(),
{
    if sizes.len() == 0 {
        remaining
    } else {
        left_over(budget_after(remaining, sizes.drop_last()), sizes.last())
    }
}

/// How many bytes of pieces of these sizes go into the trace.
pub open spec fn admitted_in_all(remaining: Option<u64>, sizes: Seq<nat>) -> nat
    decreases sizes.len(),
{
    if sizes.len() == 0 {
        0
    } else {
        admitted_in_all(remaining, sizes.drop_last()) + admitted(budget_after(remaining, sizes.drop_last()), sizes.last())
    }
}

/// A budget admits no more bytes than it has, over any number of pieces: what
/// is admitted and what is left add up to what there was.
pub proof fn a_budget_is_never_exceeded(remaining: u64, sizes: Seq<nat>)
    ensures
        budget_after(Some(remaining), sizes) matches Some(left) && admitted_in_all(Some(remaining), sizes) + left == remaining,
    decreases sizes.len(),
{
    if sizes.len() > 0 {
        a_budget_is_never_exceeded(remaining, sizes.drop_last());
    }
}

} // verus!
