//! The prompt record and the full assembly pipeline: serialize the record,
//! count its tokens, decide whether to split, size the chunks, partition the
//! text, and emit one message pair per slice.

use crate::budget::{compute_budget, spec_remaining, BudgetDecision};
use crate::errors::PromptizeError;
use crate::optimizer::{get_chunk_size_tokens, spec_chunk_size};
use crate::partition::{chunk_string, compute_chunk_size_chars, spec_chunk_size_chars, spec_chunks};
use crate::serialize::{append_member, push_char, spec_member};
use crate::tokenizer::{bpe_available, count_tokens, token_count};
use vstd::prelude::*;
use vstd::string::StrSliceExecFns;
use vstd::string::StringExecFns;

verus! {

/// One named string field of a prompt record.
#[derive(Clone, Debug)]
pub struct PromptField {
    pub name: String,
    pub value: String,
}

/// A prompt record: the two instructional prompts, any further fixed context
/// fields in order, and the one field designated splittable. Holding the
/// splittable field in a slot of its own makes "exactly one splittable field"
/// a property of the type rather than a runtime check.
#[derive(Clone, Debug)]
pub struct PromptRecord {
    pub system_prompt: String,
    pub user_prompt: String,
    pub context_fields: Vec<PromptField>,
    pub splittable: PromptField,
}

/// The final output unit: the fixed instructional content paired with one
/// payload, each pair an independent, fully owned copy.
#[derive(Clone, Debug)]
pub struct MessagePair {
    pub instructional: String,
    pub payload: String,
}

/// The members of a JSON object after the first one: each is preceded by a
/// comma.
pub open spec fn spec_members_tail(fields: Seq<(Seq<char>, Seq<char>)>) -> Seq<char>
    decreases fields.len(),
{
    if fields.len() == 0 {
        Seq::empty()
    } else {
        spec_members_tail(fields.drop_last()) + seq![','] + spec_member(
            fields.last().0,
            fields.last().1,
        )
    }
}

impl PromptRecord {
    /// The fields that follow the leading system prompt in the serialized
    /// object, in order: the user prompt, the context fields, and the
    /// splittable field last.
    pub open spec fn spec_tail_fields(self) -> Seq<(Seq<char>, Seq<char>)> {
        seq![("user_prompt"@, self.user_prompt@)] + self.context_fields@.map_values(
            |f: PromptField| (f.name@, f.value@),
        ) + seq![(self.splittable.name@, self.splittable.value@)]
    }

    /// The serialized prompt: a JSON object holding every field of the record
    /// in order, with JSON string escaping. This whole text — not the
    /// splittable field alone — is what is counted and partitioned.
    pub open spec fn spec_serialized(self) -> Seq<char> {
        seq!['{'] + spec_member("system_prompt"@, self.system_prompt@) + spec_members_tail(
            self.spec_tail_fields(),
        ) + seq!['}']
    }

    /// Serializes the record as a JSON object, fields in record order.
    pub fn serialize(&self) -> (r: String)
        ensures
            r@ == self.spec_serialized(),
            r@.len() >= 2,
    {
        let ghost pairs = self.spec_tail_fields();
        let mut out = String::new();
        push_char(&mut out, '{');
        append_member(&mut out, "system_prompt", self.system_prompt.as_str());
        let ghost head = seq!['{'] + spec_member("system_prompt"@, self.system_prompt@);
        proof {
            assert(Seq::<char>::empty().push('{') + spec_member(
                "system_prompt"@,
                self.system_prompt@,
            ) =~= head);
        }
        push_char(&mut out, ',');
        append_member(&mut out, "user_prompt", self.user_prompt.as_str());
        proof {
            let t1 = pairs.take(1);
            assert(pairs[0] == ("user_prompt"@, self.user_prompt@));
            assert(t1.last() == ("user_prompt"@, self.user_prompt@));
            assert(t1.drop_last() =~= Seq::<(Seq<char>, Seq<char>)>::empty());
            assert(spec_members_tail(t1.drop_last()) == Seq::<char>::empty());
            assert(spec_members_tail(t1) == Seq::<char>::empty() + seq![','] + spec_member(
                "user_prompt"@,
                self.user_prompt@,
            ));
            assert(head.push(',') + spec_member("user_prompt"@, self.user_prompt@) =~= head
                + spec_members_tail(t1));
        }
        let mut i: usize = 0;
        let n: usize = self.context_fields.len();
        while i < n
            invariant
                i <= n,
                n == self.context_fields@.len(),
                pairs == self.spec_tail_fields(),
                head == seq!['{'] + spec_member("system_prompt"@, self.system_prompt@),
                out@ == head + spec_members_tail(pairs.take(1 + i as int)),
            decreases n - i,
        {
            let f = &self.context_fields[i];
            push_char(&mut out, ',');
            append_member(&mut out, f.name.as_str(), f.value.as_str());
            proof {
                let j = 1 + i as int;
                assert(pairs.take(j + 1).drop_last() =~= pairs.take(j));
                assert(pairs.take(j + 1).last() == (f.name@, f.value@));
                assert((head + spec_members_tail(pairs.take(j))).push(',') + spec_member(
                    f.name@,
                    f.value@,
                ) =~= head + spec_members_tail(pairs.take(j + 1)));
            }
            i = i + 1;
        }
        push_char(&mut out, ',');
        append_member(&mut out, self.splittable.name.as_str(), self.splittable.value.as_str());
        push_char(&mut out, '}');
        proof {
            let m = pairs.len() as int;
            assert(pairs.take(m).drop_last() =~= pairs.take(m - 1));
            assert(pairs.take(m - 1) =~= pairs.take(1 + n as int));
            assert(pairs.take(m).last() == (self.splittable.name@, self.splittable.value@));
            assert(pairs.take(m) =~= pairs);
            assert(((head + spec_members_tail(pairs.take(1 + n as int))).push(',') + spec_member(
                self.splittable.name@,
                self.splittable.value@,
            )).push('}') =~= self.spec_serialized());
        }
        out
    }
}

/// For every slice, one message pair: the instructional content repeated
/// unchanged, the slice as the payload, pairs in slice order. No slice is
/// skipped or merged.
pub fn assemble_pairs(fixed: &str, slices: &Vec<String>) -> (r: Vec<MessagePair>)
    ensures
        r@.len() == slices@.len(),
        forall|i: int|
            0 <= i < r@.len() ==> (#[trigger] r@[i]).instructional@ == fixed@ && r@[i].payload@
                == slices@[i]@,
{
    let mut out: Vec<MessagePair> = Vec::new();
    let n: usize = slices.len();
    let mut i: usize = 0;
    while i < n
        invariant
            i <= n,
            n == slices@.len(),
            out@.len() == i,
            forall|j: int|
                0 <= j < i ==> (#[trigger] out@[j]).instructional@ == fixed@ && out@[j].payload@
                    == slices@[j]@,
        decreases n - i,
    {
        let repeated: String = String::from_str(fixed);
        let payload: String = slices[i].clone();
        let pair = MessagePair { instructional: repeated, payload };
        let ghost pv = pair;
        let ghost prev = out@;
        out.push(pair);
        proof {
            assert forall|j: int| 0 <= j < i + 1 implies (out@[j].instructional@ == fixed@
                && out@[j].payload@ == slices@[j]@) by {
                if j < i as int {
                    assert(out@[j] == prev[j]);
                } else {
                    assert(out@[j] == pv);
                }
            }
        }
        i = i + 1;
    }
    out
}

/// Everything prompt assembly promises, stated over the views the pipeline
/// depends on: the serialized prompt text, the splittable field's value, the
/// instructional content, and the model identifier. Success comes if and only
/// if the model has a tokenizer and either the whole prompt fits under the
/// overall limit or the remaining per-chunk budget honors the per-chunk
/// limit; a fitting prompt yields exactly one pair carrying the splittable
/// field unchanged; an oversized one yields one pair per character slice of
/// the serialized text, the instructional content repeated in each.
pub open spec fn spec_build_prompt_post(
    ser: Seq<char>,
    splittable_value: Seq<char>,
    system: Seq<char>,
    model: Seq<char>,
    total_limit: u64,
    chunk_limit: u64,
    r: Result<Vec<MessagePair>, PromptizeError>,
) -> bool {
    let total = token_count(model, ser) as int;
    let ct = token_count(model, splittable_value) as int;
    let rem = spec_remaining(total, ct, total_limit as int);
    &&& (r is Ok <==> bpe_available(model) && (total <= total_limit || rem >= chunk_limit))
    &&& (r is Err ==> (r->Err_0 is TokenizerUnavailable <==> !bpe_available(model)))
    &&& (r is Err ==> r->Err_0 is TokenizerUnavailable || r->Err_0 is BudgetExceeded)
    &&& (r is Err && r->Err_0 is BudgetExceeded ==> total > total_limit && rem < chunk_limit)
    &&& (bpe_available(model) && total <= total_limit ==> r is Ok && r->Ok_0@.len() == 1
        && r->Ok_0@[0].instructional@ == system && r->Ok_0@[0].payload@ == splittable_value)
    &&& (bpe_available(model) && total > total_limit && rem >= chunk_limit ==> {
        let cst = spec_chunk_size(ct, rem);
        let csc = spec_chunk_size_chars(cst, ct, ser.len() as int);
        let slices = spec_chunks(ser, csc);
        &&& r is Ok
        &&& r->Ok_0@.len() == slices.len()
        &&& forall|i: int|
            0 <= i < slices.len() ==> (#[trigger] r->Ok_0@[i]).payload@ == slices[i]
                && r->Ok_0@[i].instructional@ == system
    })
}

/// Lossless partition and order preservation at the pipeline level: whenever
/// assembly splits the prompt, the payloads of the returned pairs,
/// concatenated in order, are exactly the serialized prompt text, and the
/// pair at position `i` carries the characters of the serialized text from
/// `i` times the chunk size up to the next chunk boundary — so earlier pairs
/// hold strictly earlier characters.
pub proof fn lemma_split_payloads_reassemble(
    ser: Seq<char>,
    splittable_value: Seq<char>,
    system: Seq<char>,
    model: Seq<char>,
    total_limit: u64,
    chunk_limit: u64,
    r: Result<Vec<MessagePair>, PromptizeError>,
)
    requires
        spec_build_prompt_post(ser, splittable_value, system, model, total_limit, chunk_limit, r),
        bpe_available(model),
        1 <= chunk_limit,
        1 <= ser.len(),
        token_count(model, ser) > total_limit,
        spec_remaining(
            token_count(model, ser) as int,
            token_count(model, splittable_value) as int,
            total_limit as int,
        ) >= chunk_limit,
    ensures
        r is Ok,
        ({
            let total = token_count(model, ser) as int;
            let ct = token_count(model, splittable_value) as int;
            let rem = spec_remaining(total, ct, total_limit as int);
            let csc = spec_chunk_size_chars(spec_chunk_size(ct, rem), ct, ser.len() as int);
            &&& 1 <= csc <= ser.len()
            &&& r->Ok_0@.map_values(|p: MessagePair| p.payload@).flatten() == ser
            &&& forall|i: int|
                0 <= i < r->Ok_0@.len() ==> (#[trigger] r->Ok_0@[i]).payload@ == ser.subrange(
                    i * csc,
                    if (i + 1) * csc <= ser.len() { (i + 1) * csc } else { ser.len() as int },
                )
        }),
{
    let total = token_count(model, ser) as int;
    let ct = token_count(model, splittable_value) as int;
    let rem = spec_remaining(total, ct, total_limit as int);
    let cst = spec_chunk_size(ct, rem);
    let csc = spec_chunk_size_chars(cst, ct, ser.len() as int);
    let slices = spec_chunks(ser, csc);
    // The remaining budget is positive and strictly below the splittable
    // field's count, so the optimizer's bounds apply.
    assert(rem < ct);
    crate::optimizer::lemma_even_split_respects_limit(ct, rem);
    crate::partition::lemma_chunk_size_chars_bounds(cst, ct, ser.len() as int);
    let payloads = r->Ok_0@.map_values(|p: MessagePair| p.payload@);
    assert(payloads =~= slices);
    crate::partition::lemma_chunks_concat(ser, csc);
    assert forall|i: int| 0 <= i < r->Ok_0@.len() implies (#[trigger] r->Ok_0@[i]).payload@
        == ser.subrange(
        i * csc,
        if (i + 1) * csc <= ser.len() { (i + 1) * csc } else { ser.len() as int },
    ) by {
        crate::partition::lemma_chunks_index(ser, csc, i);
    }
}

impl PromptRecord {
    /// Assembles the request payload under the token budget. A record whose
    /// serialized form fits under `total_limit` yields exactly one message
    /// pair carrying the splittable field unchanged. Otherwise the serialized
    /// text is partitioned and one message pair is emitted per slice, the
    /// instructional content repeated in each; concatenating the payloads in
    /// order reproduces the serialized text. A model without a tokenizer is
    /// rejected, as is a record whose fixed overhead leaves less room per
    /// chunk than `chunk_limit`.
    pub fn build_prompt(&self, model: &str, total_limit: u64, chunk_limit: u64) -> (r: Result<
        Vec<MessagePair>,
        PromptizeError,
    >)
        requires
            1 <= total_limit,
            1 <= chunk_limit,
        ensures
            spec_build_prompt_post(
                self.spec_serialized(),
                self.splittable.value@,
                self.system_prompt@,
                model@,
                total_limit,
                chunk_limit,
                r,
            ),
    {
        let prompt_string = self.serialize();
        let total_tokens: u64 = match count_tokens(model, prompt_string.as_str()) {
            Ok(n) => n,
            Err(e) => {
                return Err(e);
            },
        };
        let chunkable_tokens: u64 = match count_tokens(model, self.splittable.value.as_str()) {
            Ok(n) => n,
            Err(e) => {
                return Err(e);
            },
        };
        match compute_budget(total_tokens, chunkable_tokens, total_limit, chunk_limit) {
            BudgetDecision::NoSplit => {
                let pair = MessagePair {
                    instructional: self.system_prompt.clone(),
                    payload: self.splittable.value.clone(),
                };
                let mut pairs: Vec<MessagePair> = Vec::new();
                pairs.push(pair);
                Ok(pairs)
            },
            BudgetDecision::Exceeded => Err(PromptizeError::BudgetExceeded),
            BudgetDecision::Split { remaining } => {
                let split = match get_chunk_size_tokens(chunkable_tokens, remaining) {
                    Ok(split) => split,
                    Err(e) => {
                        // Unreachable: on this path the remaining budget and
                        // the splittable field's count are both positive.
                        return Err(e);
                    },
                };
                let total_chars: usize = prompt_string.as_str().unicode_len();
                let chunk_size_chars = compute_chunk_size_chars(
                    split.chunk_size_tokens,
                    chunkable_tokens,
                    total_chars,
                );
                let slices = chunk_string(prompt_string.as_str(), chunk_size_chars);
                let pairs = assemble_pairs(self.system_prompt.as_str(), &slices);
                proof {
                    let ser = self.spec_serialized();
                    let ct = token_count(model@, self.splittable.value@) as int;
                    let rem = spec_remaining(
                        token_count(model@, ser) as int,
                        ct,
                        total_limit as int,
                    );
                    let csc = spec_chunk_size_chars(
                        spec_chunk_size(ct, rem),
                        ct,
                        ser.len() as int,
                    );
                    assert(slices@.map_values(|c: String| c@) == spec_chunks(ser, csc));
                    assert forall|i: int| 0 <= i < spec_chunks(ser, csc).len() implies pairs@[i].payload@
                        == spec_chunks(ser, csc)[i] && pairs@[i].instructional@
                        == self.system_prompt@ by {
                        assert(slices@.map_values(|c: String| c@)[i] == slices@[i]@);
                    }
                }
                Ok(pairs)
            },
        }
    }
}

} // verus!
