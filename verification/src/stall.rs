//! Exact-hash stall detector for agent turns.
//!
//! The same tool called with byte-identical args producing byte-identical
//! output, N times in a row, is a loop, not progress. Anything that differs
//! (args or output) resets the streak, so legitimate polling and retries are
//! unaffected. Callers stop the turn when [`StallTracker::observe_result`]
//! returns true.
use std::collections::hash_map::DefaultHasher;
use std::hash::Hasher;
use vstd::hash_map::StringHashMap;
use vstd::prelude::*;
use vstd::std_specs::hash::DefaultHasherAdditionalSpecFns;

verus! {

/// Consecutive identical (tool, args, output) pairs that declare a stall.
/// Two in a row can be a legitimate retry; three is a loop.
pub const IDENTICAL_REPEATS: usize = 3;

/// The writes by which one string enters a hasher: its bytes, then the byte
/// 0xff, which ends no UTF-8 text and so keeps two strings apart.
pub open spec fn text_writes(text: Seq<char>) -> Seq<Seq<u8>> {
    seq![vstd::utf8::encode_utf8(text), seq![0xffu8]]
}

/// The hash of a tool call: the tool's name, then its arguments.
pub open spec fn call_hash(tool: Seq<char>, args_json: Seq<char>) -> u64 {
    DefaultHasher::spec_finish(text_writes(tool) + text_writes(args_json))
}

/// The hash of a completed pair: the call's hash, then the output.
pub open spec fn pair_hash(input_hash: u64, output: Seq<char>) -> u64 {
    DefaultHasher::spec_finish(
        seq![vstd::bytes::spec_u64_to_le_bytes(input_hash)] + text_writes(output),
    )
}

/// What a tracker knows: the repeat limit, the calls that still wait for their
/// result, the last completed pair and how often in a row it has been seen.
pub struct StallView {
    pub repeats: nat,
    pub inputs: Map<Seq<char>, u64>,
    pub last: Option<u64>,
    pub streak: nat,
}

impl StallView {
    /// A tracker that has seen nothing.
    pub open spec fn fresh(repeats: nat) -> StallView {
        StallView { repeats, inputs: Map::empty(), last: None, streak: 0 }
    }

    /// After the call `id` of `tool` with `args_json` was observed.
    pub open spec fn after_call(self, id: Seq<char>, tool: Seq<char>, args_json: Seq<char>) -> StallView {
        StallView { inputs: self.inputs.insert(id, call_hash(tool, args_json)), ..self }
    }

    /// The streak once a pair with hash `pair` has completed. It counts up to
    /// the largest `usize` and stays there.
    pub open spec fn next_streak(self, pair: u64) -> nat {
        if self.last != Some(pair) {
            1
        } else if self.streak < usize::MAX {
            self.streak + 1
        } else {
            self.streak
        }
    }

    /// After the result of call `id` was observed. A result without its call
    /// changes nothing.
    pub open spec fn after_result(self, id: Seq<char>, output: Seq<char>) -> StallView {
        if self.inputs.contains_key(id) {
            let pair = pair_hash(self.inputs[id], output);
            StallView {
                repeats: self.repeats,
                inputs: self.inputs.remove(id),
                last: Some(pair),
                streak: self.next_streak(pair),
            }
        } else {
            self
        }
    }

    /// The streak has reached the limit.
    pub open spec fn stalled(self) -> bool {
        self.streak >= self.repeats
    }
}

fn write_text(hasher: &mut DefaultHasher, text: &str)
    ensures
        final(hasher)@ == old(hasher)@ + text_writes(text@),
{
    hasher.write(text.as_bytes());
    let end: [u8; 1] = [0xffu8];
    hasher.write(&end);
    assert(end@ =~= seq![0xffu8]);
}

/// The hash of a completed pair, from the hash of its call and its output.
pub fn hash_pair(input_hash: u64, output: &str) -> (pair: u64)
    ensures
        pair == pair_hash(input_hash, output@),
{
    let mut h = DefaultHasher::new();
    let input: Vec<u8> = vstd::bytes::u64_to_le_bytes(input_hash);
    h.write(input.as_slice());
    write_text(&mut h, output);
    assert(h@ =~= seq![vstd::bytes::spec_u64_to_le_bytes(input_hash)] + text_writes(output@));
    h.finish()
}

/// Tracks one turn's tool (input, output) pairs by call id.
pub struct StallTracker {
    repeats: usize,
    inputs: StringHashMap<u64>,
    last: Option<u64>,
    streak: usize,
}

impl View for StallTracker {
    type V = StallView;

    closed spec fn view(&self) -> StallView {
        StallView {
            repeats: self.repeats as nat,
            inputs: self.inputs@,
            last: self.last,
            streak: self.streak as nat,
        }
    }
}

impl StallTracker {
    pub fn new(repeats: usize) -> (tracker: StallTracker)
        ensures
            tracker@ == StallView::fresh(repeats as nat),
    {
        StallTracker { repeats, inputs: StringHashMap::new(), last: None, streak: 0 }
    }

    /// Record a tool call's exact input; the matching result completes the pair.
    /// `args_json` must be canonical (e.g. rendered with sorted keys) so
    /// equivalent args hash equally.
    pub fn observe_call(&mut self, id: &str, tool: &str, args_json: &str)
        ensures
            final(self)@ == old(self)@.after_call(id@, tool@, args_json@),
    {
        let mut h = DefaultHasher::new();
        write_text(&mut h, tool);
        write_text(&mut h, args_json);
        assert(h@ =~= text_writes(tool@) + text_writes(args_json@));
        self.inputs.insert(id.to_owned(), h.finish());
    }

    /// Record a tool result. Returns true when this completes an identical
    /// streak that hits the repeat limit (caller should stop the turn).
    /// Results with no matching call are ignored and leave the streak alone.
    pub fn observe_result(&mut self, id: &str, output: &str) -> (stop: bool)
        ensures
            final(self)@ == old(self)@.after_result(id@, output@),
            stop == (old(self)@.inputs.contains_key(id@) && final(self)@.stalled()),
    {
        let input: u64 = match self.inputs.get(id) {
            Some(input) => *input,
            None => {
                return false;
            },
        };
        self.inputs.remove(id);
        let pair: u64 = hash_pair(input, output);
        let same: bool = match self.last {
            Some(last) => last == pair,
            None => false,
        };
        if same {
            self.streak = self.streak.saturating_add(1);
        } else {
            self.last = Some(pair);
            self.streak = 1;
        }
        self.streak >= self.repeats
    }

    /// Forget all state (e.g. the engine is retrying the attempt from scratch).
    pub fn reset(&mut self)
        ensures
            final(self)@ == StallView::fresh(old(self)@.repeats),
    {
        self.inputs.clear();
        self.last = None;
        self.streak = 0;
    }
}

/// One observation of a tracker.
pub enum StallEvent {
    Call { id: Seq<char>, tool: Seq<char>, args_json: Seq<char> },
    Result { id: Seq<char>, output: Seq<char> },
}

impl StallView {
    /// After one observation.
    pub open spec fn after(self, event: StallEvent) -> StallView {
        match event {
            StallEvent::Call { id, tool, args_json } => self.after_call(id, tool, args_json),
            StallEvent::Result { id, output } => self.after_result(id, output),
        }
    }

    /// After `ids.len()` exchanges with the same tool, args and output, whose
    /// call ids are `ids`.
    pub open spec fn after_exchanges(
        self,
        ids: Seq<Seq<char>>,
        tool: Seq<char>,
        args_json: Seq<char>,
        output: Seq<char>,
    ) -> StallView
        decreases ids.len(),
    {
        if ids.len() == 0 {
            self
        } else {
            self.after_exchanges(ids.drop_last(), tool, args_json, output).after_call(
                ids.last(),
                tool,
                args_json,
            ).after_result(ids.last(), output)
        }
    }
}

/// A tracker with limit `repeats` after a whole turn.
pub open spec fn turn(repeats: nat, events: Seq<StallEvent>) -> StallView
    decreases events.len(),
{
    if events.len() == 0 {
        StallView::fresh(repeats)
    } else {
        turn(repeats, events.drop_last()).after(events.last())
    }
}

/// The hashes of the pairs that a turn completes, in the order of their results.
pub open spec fn completed_pairs(events: Seq<StallEvent>) -> Seq<u64>
    decreases events.len(),
{
    if events.len() == 0 {
        Seq::empty()
    } else {
        let before = completed_pairs(events.drop_last());
        let inputs = turn(0, events.drop_last()).inputs;
        match events.last() {
            StallEvent::Result { id, output } if inputs.contains_key(id) => before.push(
                pair_hash(inputs[id], output),
            ),
            _ => before,
        }
    }
}

/// How many equal hashes `pairs` ends in.
pub open spec fn trailing_run(pairs: Seq<u64>) -> nat
    decreases pairs.len(),
{
    if pairs.len() == 0 {
        0
    } else if pairs.len() > 1 && pairs.last() == pairs.drop_last().last() {
        trailing_run(pairs.drop_last()) + 1
    } else {
        1
    }
}

proof fn lemma_inputs_ignore_limit(repeats: nat, events: Seq<StallEvent>)
    ensures
        turn(repeats, events).inputs == turn(0, events).inputs,
        turn(repeats, events).repeats == repeats,
    decreases events.len(),
{
    if events.len() > 0 {
        lemma_inputs_ignore_limit(repeats, events.drop_last());
    }
}

/// However calls and results interleave, the last hash is that of the last
/// completed pair and the streak is the number of equal pairs the turn ends in
/// (counted up to the largest `usize`).
pub proof fn law_streak_counts_trailing_pairs(repeats: nat, events: Seq<StallEvent>)
    ensures
        ({
            let pairs = completed_pairs(events);
            let view = turn(repeats, events);
            &&& view.last == if pairs.len() == 0 { None } else { Some(pairs.last()) }
            &&& view.streak == if trailing_run(pairs) <= usize::MAX {
                trailing_run(pairs)
            } else {
                usize::MAX as nat
            }
        }),
    decreases events.len(),
{
    if events.len() > 0 {
        law_streak_counts_trailing_pairs(repeats, events.drop_last());
        lemma_inputs_ignore_limit(repeats, events.drop_last());
        let before = completed_pairs(events.drop_last());
        let pairs = completed_pairs(events);
        if pairs.len() != before.len() {
            assert(pairs.drop_last() =~= before);
        }
    }
}

proof fn lemma_trailing_run(pairs: Seq<u64>, n: nat)
    requires
        n >= 1,
    ensures
        trailing_run(pairs) <= pairs.len(),
        trailing_run(pairs) >= n <==> pairs.len() >= n && forall|i: int|
            pairs.len() - n <= i < pairs.len() ==> pairs[i] == pairs.last(),
    decreases pairs.len(),
{
    if pairs.len() > 0 {
        let init = pairs.drop_last();
        if n > 1 {
            lemma_trailing_run(init, (n - 1) as nat);
            if pairs.len() >= n && forall|i: int|
                pairs.len() - n <= i < pairs.len() ==> pairs[i] == pairs.last() {
                assert(pairs[pairs.len() - 2] == pairs.last());
                assert forall|i: int| init.len() - (n - 1) <= i < init.len() implies init[i]
                    == init.last() by {
                    assert(pairs[i] == pairs.last());
                }
            }
            if trailing_run(pairs) >= n {
                assert forall|i: int| pairs.len() - n <= i < pairs.len() implies pairs[i]
                    == pairs.last() by {
                    if i < pairs.len() - 1 {
                        assert(init[i] == init.last());
                    }
                }
            }
        } else {
            lemma_trailing_run(init, 1);
        }
    }
}

/// A turn is stalled exactly when its last `repeats` completed pairs have the
/// same hash: fewer repetitions, or a different pair among them, is progress.
pub proof fn law_stalled_iff_last_pairs_equal(repeats: usize, events: Seq<StallEvent>)
    ensures
        ({
            let pairs = completed_pairs(events);
            turn(repeats as nat, events).stalled() <==> pairs.len() >= repeats && forall|i: int|
                pairs.len() - repeats <= i < pairs.len() ==> pairs[i] == pairs.last()
        }),
{
    law_streak_counts_trailing_pairs(repeats as nat, events);
    lemma_inputs_ignore_limit(repeats as nat, events);
    if repeats >= 1 {
        lemma_trailing_run(completed_pairs(events), repeats as nat);
    }
}

/// A completed exchange: the tool, its args and its output.
pub struct Exchange {
    pub tool: Seq<char>,
    pub args_json: Seq<char>,
    pub output: Seq<char>,
}

impl Exchange {
    pub open spec fn hash(self) -> u64 {
        pair_hash(call_hash(self.tool, self.args_json), self.output)
    }
}

/// The calls of a turn that still wait for their result: tool and args by id.
pub open spec fn pending_calls(events: Seq<StallEvent>) -> Map<Seq<char>, (Seq<char>, Seq<char>)>
    decreases events.len(),
{
    if events.len() == 0 {
        Map::empty()
    } else {
        let before = pending_calls(events.drop_last());
        match events.last() {
            StallEvent::Call { id, tool, args_json } => before.insert(id, (tool, args_json)),
            StallEvent::Result { id, output } => before.remove(id),
        }
    }
}

/// The exchanges that a turn completes, in the order of their results.
pub open spec fn completed_exchanges(events: Seq<StallEvent>) -> Seq<Exchange>
    decreases events.len(),
{
    if events.len() == 0 {
        Seq::empty()
    } else {
        let before = completed_exchanges(events.drop_last());
        let calls = pending_calls(events.drop_last());
        match events.last() {
            StallEvent::Result { id, output } if calls.contains_key(id) => before.push(
                Exchange { tool: calls[id].0, args_json: calls[id].1, output },
            ),
            _ => before,
        }
    }
}

/// A tracker holds the hash of each pending call, and its pairs are the hashes
/// of the completed exchanges.
proof fn lemma_tracker_hashes_exchanges(repeats: nat, events: Seq<StallEvent>)
    ensures
        ({
            let inputs = turn(repeats, events).inputs;
            let calls = pending_calls(events);
            let done = completed_exchanges(events);
            let pairs = completed_pairs(events);
            &&& forall|id: Seq<char>|
                #![trigger inputs.contains_key(id)]
                #![trigger calls.contains_key(id)]
                inputs.contains_key(id) == calls.contains_key(id)
            &&& forall|id: Seq<char>|
                calls.contains_key(id) ==> #[trigger] inputs[id] == call_hash(
                    calls[id].0,
                    calls[id].1,
                )
            &&& pairs.len() == done.len()
            &&& forall|i: int| 0 <= i < done.len() ==> #[trigger] pairs[i] == done[i].hash()
        }),
    decreases events.len(),
{
    if events.len() > 0 {
        let init = events.drop_last();
        lemma_tracker_hashes_exchanges(repeats, init);
        lemma_inputs_ignore_limit(repeats, init);
    }
}

/// Where no two different completed exchanges of a turn collide in their hash,
/// a result stops the turn exactly when it completes an exchange and the last
/// `repeats` exchanges, this one among them, are equal byte for byte.
pub proof fn law_stops_iff_last_exchanges_identical(
    repeats: usize,
    events: Seq<StallEvent>,
    id: Seq<char>,
    output: Seq<char>,
)
    requires
        ({
            let done = completed_exchanges(events.push(StallEvent::Result { id, output }));
            forall|i: int, j: int|
                0 <= i < done.len() && 0 <= j < done.len() && #[trigger] done[i].hash()
                    == #[trigger] done[j].hash() ==> done[i] == done[j]
        }),
    ensures
        ({
            let before = turn(repeats as nat, events);
            let done = completed_exchanges(events.push(StallEvent::Result { id, output }));
            before.inputs.contains_key(id) && before.after_result(id, output).stalled() <==> {
                &&& pending_calls(events).contains_key(id)
                &&& done.len() >= repeats
                &&& forall|i: int|
                    done.len() - repeats <= i < done.len() ==> #[trigger] done[i] == done.last()
            }
        }),
{
    let whole = events.push(StallEvent::Result { id, output });
    assert(whole.drop_last() =~= events);
    lemma_tracker_hashes_exchanges(repeats as nat, events);
    lemma_tracker_hashes_exchanges(repeats as nat, whole);
    law_stalled_iff_last_pairs_equal(repeats, whole);
    let done = completed_exchanges(whole);
    let pairs = completed_pairs(whole);
    assert(turn(repeats as nat, whole) == turn(repeats as nat, events).after_result(id, output));
    if pending_calls(events).contains_key(id) {
        assert(done.len() >= 1);
        assert(pairs.last() == done.last().hash());
        if turn(repeats as nat, whole).stalled() {
            assert forall|i: int| done.len() - repeats <= i < done.len() implies #[trigger] done[i]
                == done.last() by {
                assert(pairs[i] == done[i].hash());
                assert(done[i].hash() == done[done.len() - 1].hash());
            }
        }
        if done.len() >= repeats && forall|i: int|
            done.len() - repeats <= i < done.len() ==> #[trigger] done[i] == done.last() {
            assert forall|i: int| pairs.len() - repeats <= i < pairs.len() implies pairs[i]
                == pairs.last() by {
                assert(pairs[i] == done[i].hash());
                assert(done[i] == done.last());
            }
        }
    }
}

proof fn lemma_exchanges(
    view: StallView,
    ids: Seq<Seq<char>>,
    tool: Seq<char>,
    args_json: Seq<char>,
    output: Seq<char>,
)
    ensures
        ({
            let done = view.after_exchanges(ids, tool, args_json, output);
            &&& done.repeats == view.repeats
            &&& ids.len() > 0 ==> done.last == Some(pair_hash(call_hash(tool, args_json), output))
            &&& ids.len() > 0 ==> done.streak >= ids.len() || done.streak >= usize::MAX
        }),
    decreases ids.len(),
{
    if ids.len() > 0 {
        lemma_exchanges(view, ids.drop_last(), tool, args_json, output);
    }
}

/// The same tool called with identical args producing identical output
/// `repeats` times in a row is a stall, whatever was observed before.
pub proof fn law_identical_exchanges_stall(
    view: StallView,
    ids: Seq<Seq<char>>,
    tool: Seq<char>,
    args_json: Seq<char>,
    output: Seq<char>,
)
    requires
        view.repeats <= usize::MAX,
        ids.len() >= view.repeats,
    ensures
        view.after_exchanges(ids, tool, args_json, output).stalled(),
{
    lemma_exchanges(view, ids, tool, args_json, output);
}

/// A pair whose hash differs from the last one restarts the streak, so it
/// stalls no tracker whose limit is two or more.
pub proof fn law_different_pair_restarts(view: StallView, id: Seq<char>, output: Seq<char>)
    requires
        view.inputs.contains_key(id),
        view.last != Some(pair_hash(view.inputs[id], output)),
    ensures
        view.after_result(id, output).streak == 1,
        view.repeats >= 2 ==> !view.after_result(id, output).stalled(),
{
}

/// A call only becomes pending: it completes nothing, and neither the limit, the
/// last pair nor the streak changes. The other pending calls stay as they were,
/// and a call under a used id takes its place.
pub proof fn law_calls_only_become_pending(
    view: StallView,
    id: Seq<char>,
    tool: Seq<char>,
    args_json: Seq<char>,
    other: Seq<char>,
)
    ensures
        ({
            let next = view.after_call(id, tool, args_json);
            &&& next.repeats == view.repeats && next.last == view.last && next.streak == view.streak
            &&& next.inputs.contains_key(id) && next.inputs[id] == call_hash(tool, args_json)
            &&& other != id ==> next.inputs.contains_key(other) == view.inputs.contains_key(other)
            &&& other != id && view.inputs.contains_key(other) ==> next.inputs[other]
                == view.inputs[other]
        }),
{
}

/// A tracker that has seen nothing knows no call and no pair.
pub proof fn law_fresh_knows_nothing(repeats: nat, id: Seq<char>, output: Seq<char>)
    ensures
        StallView::fresh(repeats).repeats == repeats,
        StallView::fresh(repeats).last is None,
        StallView::fresh(repeats).streak == 0,
        !StallView::fresh(repeats).inputs.contains_key(id),
        StallView::fresh(repeats).after_result(id, output) == StallView::fresh(repeats),
{
}

/// From any state, a completed pair equal to the last one lengthens the streak
/// by one, up to the largest `usize`.
pub proof fn law_equal_pair_lengthens_streak(view: StallView, id: Seq<char>, output: Seq<char>)
    requires
        view.inputs.contains_key(id),
        view.last == Some(pair_hash(view.inputs[id], output)),
        view.streak < usize::MAX,
    ensures
        view.after_result(id, output).streak == view.streak + 1,
        view.after_result(id, output).last == view.last,
        view.after_result(id, output).stalled() <==> view.streak + 1 >= view.repeats,
{
}

/// A result with a pending call makes its pair the last one, whatever came
/// before, and the limit stays. At the largest `usize` the streak stays too. A
/// result without its call changes nothing.
pub proof fn law_result_makes_the_last_pair(view: StallView, id: Seq<char>, output: Seq<char>)
    ensures
        ({
            let next = view.after_result(id, output);
            let pair = pair_hash(view.inputs[id], output);
            &&& next.repeats == view.repeats
            &&& !next.inputs.contains_key(id)
            &&& view.inputs.contains_key(id) ==> next.last == Some(pair) && next.streak >= 1
            &&& view.inputs.contains_key(id) && view.last == Some(pair) && view.streak == usize::MAX
                ==> next.streak == usize::MAX
            &&& !view.inputs.contains_key(id) ==> next == view
        }),
{
}

/// Stalled means that the streak is at the limit or beyond.
pub proof fn law_limit_is_inclusive(view: StallView)
    ensures
        view.streak < view.repeats ==> !view.stalled(),
        view.streak == view.repeats ==> view.stalled(),
        view.streak > view.repeats ==> view.stalled(),
{
}

/// The limit of a turn: two identical pairs can be a retry, three are a loop.
pub proof fn law_three_are_a_loop(view: StallView)
    requires
        view.repeats == IDENTICAL_REPEATS,
    ensures
        view.stalled() <==> view.streak >= 3,
{
}

/// A result completes its call: a second result with the same id changes nothing.
pub proof fn law_result_consumes_its_call(
    view: StallView,
    id: Seq<char>,
    output: Seq<char>,
    again: Seq<char>,
)
    ensures
        view.after_result(id, output).after_result(id, again) == view.after_result(id, output),
{
}

/// The result of one call leaves every other pending call as it was.
pub proof fn law_results_leave_other_calls(
    view: StallView,
    id: Seq<char>,
    output: Seq<char>,
    other: Seq<char>,
)
    requires
        other != id,
    ensures
        view.after_result(id, output).inputs.contains_key(other) == view.inputs.contains_key(other),
        view.inputs.contains_key(other) ==> view.after_result(id, output).inputs[other]
            == view.inputs[other],
{
}

proof fn lemma_scalar_bytes(c: u32)
    requires
        vstd::utf8::is_scalar(c),
    ensures
        forall|i: int|
            0 <= i < vstd::utf8::encode_scalar(c).len() ==> vstd::utf8::encode_scalar(c)[i] != 0xff,
{
    assert((c & 0x7F) as u8 != 0xff) by (bit_vector);
    assert(0xC0u8 | ((c >> 6) & 0x1F) as u8 != 0xff) by (bit_vector);
    assert(0xE0u8 | ((c >> 12) & 0x0F) as u8 != 0xff) by (bit_vector);
    assert(0xF0u8 | ((c >> 18) & 0x07) as u8 != 0xff) by (bit_vector);
    assert(0x80u8 | (c & 0x3F) as u8 != 0xff) by (bit_vector);
    assert(0x80u8 | ((c >> 6) & 0x3F) as u8 != 0xff) by (bit_vector);
    assert(0x80u8 | ((c >> 12) & 0x3F) as u8 != 0xff) by (bit_vector);
}

/// UTF-8 text holds no byte 0xff.
proof fn lemma_text_bytes(text: Seq<char>)
    ensures
        forall|i: int|
            0 <= i < vstd::utf8::encode_utf8(text).len() ==> vstd::utf8::encode_utf8(text)[i]
                != 0xff,
    decreases text.len(),
{
    if text.len() > 0 {
        vstd::utf8::char_is_scalar(text[0]);
        lemma_scalar_bytes(text[0] as u32);
        lemma_text_bytes(text.drop_first());
        let head = vstd::utf8::encode_scalar(text[0] as u32);
        let tail = vstd::utf8::encode_utf8(text.drop_first());
        assert(vstd::utf8::encode_utf8(text) == head + tail);
        assert forall|i: int| 0 <= i < (head + tail).len() implies (head + tail)[i] != 0xff by {
            if i < head.len() {
                assert((head + tail)[i] == head[i]);
            } else {
                assert((head + tail)[i] == tail[i - head.len()]);
            }
        }
    }
}

/// Two texts followed by 0xff and more bytes agree only if both parts agree.
proof fn lemma_text_prefix(a: Seq<char>, b: Seq<char>, x: Seq<u8>, y: Seq<u8>)
    requires
        vstd::utf8::encode_utf8(a) + seq![0xffu8] + x == vstd::utf8::encode_utf8(b) + seq![0xffu8]
            + y,
    ensures
        a == b,
        x == y,
{
    let ea = vstd::utf8::encode_utf8(a);
    let eb = vstd::utf8::encode_utf8(b);
    let whole = ea + seq![0xffu8] + x;
    lemma_text_bytes(a);
    lemma_text_bytes(b);
    assert(whole[ea.len() as int] == 0xff);
    assert(whole[eb.len() as int] == 0xff);
    if ea.len() < eb.len() {
        assert(whole[ea.len() as int] == eb[ea.len() as int]);
    }
    if eb.len() < ea.len() {
        assert(whole[eb.len() as int] == ea[eb.len() as int]);
    }
    assert(ea =~= whole.take(ea.len() as int));
    assert(eb =~= whole.take(ea.len() as int));
    assert(x =~= whole.skip((ea.len() + 1) as int));
    assert(y =~= whole.skip((ea.len() + 1) as int));
    vstd::utf8::encode_utf8_decode_utf8(a);
    vstd::utf8::encode_utf8_decode_utf8(b);
}

/// A hash is the hasher's finish over bytes that tell its inputs apart: any two
/// calls that differ in the tool or in the args, and any two pairs that differ
/// in the call's hash or anywhere in the output, are hashed from different
/// bytes. Only a collision of the hasher itself can take one for the other.
pub proof fn law_hashed_bytes_tell_inputs_apart(
    tool: Seq<char>,
    args_json: Seq<char>,
    output: Seq<char>,
    input_hash: u64,
    other_tool: Seq<char>,
    other_args: Seq<char>,
    other_output: Seq<char>,
    other_hash: u64,
)
    ensures
        call_hash(tool, args_json) == DefaultHasher::spec_finish(
            text_writes(tool) + text_writes(args_json),
        ),
        pair_hash(input_hash, output) == DefaultHasher::spec_finish(
            seq![vstd::bytes::spec_u64_to_le_bytes(input_hash)] + text_writes(output),
        ),
        (text_writes(tool) + text_writes(args_json)).flatten() == (text_writes(other_tool)
            + text_writes(other_args)).flatten() ==> tool == other_tool && args_json == other_args,
        (seq![vstd::bytes::spec_u64_to_le_bytes(input_hash)] + text_writes(output)).flatten() == (
        seq![vstd::bytes::spec_u64_to_le_bytes(other_hash)] + text_writes(other_output)).flatten()
            ==> input_hash == other_hash && output == other_output,
{
    lemma_call_bytes(tool, args_json);
    lemma_call_bytes(other_tool, other_args);
    lemma_pair_bytes(input_hash, output);
    lemma_pair_bytes(other_hash, other_output);
    let end = seq![0xffu8];
    let empty = Seq::<u8>::empty();
    if (text_writes(tool) + text_writes(args_json)).flatten() == (text_writes(other_tool)
        + text_writes(other_args)).flatten() {
        let x = vstd::utf8::encode_utf8(args_json) + end;
        let y = vstd::utf8::encode_utf8(other_args) + end;
        lemma_text_prefix(tool, other_tool, x, y);
        assert(x + empty =~= x && y + empty =~= y);
        lemma_text_prefix(args_json, other_args, empty, empty);
    }
    let a = vstd::bytes::spec_u64_to_le_bytes(input_hash);
    let b = vstd::bytes::spec_u64_to_le_bytes(other_hash);
    if (seq![a] + text_writes(output)).flatten() == (seq![b] + text_writes(other_output)).flatten() {
        vstd::bytes::lemma_auto_spec_u64_to_from_le_bytes();
        let x = vstd::utf8::encode_utf8(output) + end;
        let y = vstd::utf8::encode_utf8(other_output) + end;
        assert(a =~= (a + x).take(8) && b =~= (b + y).take(8));
        assert(x =~= (a + x).skip(8) && y =~= (b + y).skip(8));
        assert(x + empty =~= x && y + empty =~= y);
        lemma_text_prefix(output, other_output, empty, empty);
    }
}

proof fn lemma_call_bytes(tool: Seq<char>, args_json: Seq<char>)
    ensures
        (text_writes(tool) + text_writes(args_json)).flatten() == vstd::utf8::encode_utf8(tool)
            + seq![0xffu8] + (vstd::utf8::encode_utf8(args_json) + seq![0xffu8]),
{
    let writes = text_writes(tool) + text_writes(args_json);
    reveal_with_fuel(Seq::<_>::flatten, 5);
    assert(writes.drop_first().drop_first().drop_first().drop_first() =~= Seq::empty());
    assert(writes.flatten() =~= vstd::utf8::encode_utf8(tool) + seq![0xffu8] + (
    vstd::utf8::encode_utf8(args_json) + seq![0xffu8]));
}

proof fn lemma_pair_bytes(input_hash: u64, output: Seq<char>)
    ensures
        (seq![vstd::bytes::spec_u64_to_le_bytes(input_hash)] + text_writes(output)).flatten()
            == vstd::bytes::spec_u64_to_le_bytes(input_hash) + (vstd::utf8::encode_utf8(output)
            + seq![0xffu8]),
{
    let writes = seq![vstd::bytes::spec_u64_to_le_bytes(input_hash)] + text_writes(output);
    reveal_with_fuel(Seq::<_>::flatten, 4);
    assert(writes.drop_first().drop_first().drop_first() =~= Seq::empty());
    assert(writes.flatten() =~= vstd::bytes::spec_u64_to_le_bytes(input_hash) + (
    vstd::utf8::encode_utf8(output) + seq![0xffu8]));
}

/// A call is hashed from the bytes of the tool's name and of its args, all of
/// them and each text followed by 0xff.
pub proof fn law_call_bytes(tool: Seq<char>, args_json: Seq<char>)
    ensures
        call_hash(tool, args_json) == DefaultHasher::spec_finish(
            seq![
                vstd::utf8::encode_utf8(tool),
                seq![0xffu8],
                vstd::utf8::encode_utf8(args_json),
                seq![0xffu8],
            ],
        ),
{
    assert(text_writes(tool) + text_writes(args_json) =~= seq![
        vstd::utf8::encode_utf8(tool),
        seq![0xffu8],
        vstd::utf8::encode_utf8(args_json),
        seq![0xffu8],
    ]);
}

/// A pair is hashed from the eight bytes of the call's hash, lowest first, and
/// all bytes of the output, followed by 0xff.
pub proof fn law_pair_bytes(input_hash: u64, output: Seq<char>)
    ensures
        pair_hash(input_hash, output) == DefaultHasher::spec_finish(
            seq![
                vstd::bytes::spec_u64_to_le_bytes(input_hash),
                vstd::utf8::encode_utf8(output),
                seq![0xffu8],
            ],
        ),
{
    assert(seq![vstd::bytes::spec_u64_to_le_bytes(input_hash)] + text_writes(output) =~= seq![
        vstd::bytes::spec_u64_to_le_bytes(input_hash),
        vstd::utf8::encode_utf8(output),
        seq![0xffu8],
    ]);
}

/// An exchange that differs from the one before it, in tool, args or output,
/// restarts the streak, unless the two collide in a hash.
pub proof fn law_different_exchange_restarts(
    view: StallView,
    id: Seq<char>,
    tool: Seq<char>,
    args_json: Seq<char>,
    output: Seq<char>,
    next_id: Seq<char>,
    next_tool: Seq<char>,
    next_args: Seq<char>,
    next_output: Seq<char>,
)
    requires
        tool != next_tool || args_json != next_args || output != next_output,
        tool != next_tool || args_json != next_args ==> call_hash(tool, args_json) != call_hash(
            next_tool,
            next_args,
        ),
        call_hash(tool, args_json) != call_hash(next_tool, next_args) || output != next_output
            ==> pair_hash(call_hash(tool, args_json), output) != pair_hash(
            call_hash(next_tool, next_args),
            next_output,
        ),
    ensures
        ({
            let done = view.after_call(id, tool, args_json).after_result(id, output).after_call(
                next_id,
                next_tool,
                next_args,
            ).after_result(next_id, next_output);
            done.streak == 1 && (view.repeats >= 2 ==> !done.stalled())
        }),
{
}

} // verus!
