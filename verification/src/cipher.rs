//! A keystream cipher: a linear congruential generator whose low byte is
//! combined with the data by exclusive or.

use vstd::prelude::*;

verus! {

/// Multiplier of the generator.
pub const LCG_A: u64 = 1103515245;

/// Increment of the generator.
pub const LCG_C: u64 = 12345;

/// Modulus of the generator: two to the power of 32.
pub const LCG_M: u64 = 0x1_0000_0000;

/// The state that follows `state`: `(state * A + C) mod M`.
pub open spec fn lcg_next(state: u64) -> u64 {
    ((state as int * LCG_A as int + LCG_C as int) % (LCG_M as int)) as u64
}

/// The low eight bits of a state.
pub open spec fn low_byte(state: u64) -> u8 {
    (state % 256) as u8
}

/// The state reached from `state` after `n` steps of the generator.
pub open spec fn state_after(state: u64, n: nat) -> u64
    decreases n,
{
    if n == 0 {
        state
    } else {
        lcg_next(state_after(state, (n - 1) as nat))
    }
}

/// The byte that a generator started in `state` emits at position `i`,
/// counted from zero.
pub open spec fn keystream_byte(state: u64, i: nat) -> u8 {
    low_byte(state_after(state, i + 1))
}

/// The first `n` bytes that a generator started in `state` emits.
pub open spec fn keystream(state: u64, n: nat) -> Seq<u8> {
    Seq::new(n, |i: int| keystream_byte(state, i as nat))
}

/// `data` with each byte combined, by exclusive or, with the keystream byte
/// of the same position.
pub open spec fn xor_stream(state: u64, data: Seq<u8>) -> Seq<u8> {
    Seq::new(data.len(), |i: int| data[i] ^ keystream_byte(state, i as nat))
}

/// Taking `a` steps and then `b` more is taking `a + b` steps.
pub proof fn lemma_state_after_adds(state: u64, a: nat, b: nat)
    ensures
        state_after(state_after(state, a), b) == state_after(state, a + b),
    decreases b,
{
    if b > 0 {
        lemma_state_after_adds(state, a, (b - 1) as nat);
        assert(a + b - 1 == a + (b - 1) as nat);
    }
}

/// Two generators in the same state, advanced by the same number of steps,
/// are again in the same state and emit the same bytes from there on.
pub proof fn lemma_same_seed_same_keystream(first: u64, second: u64, steps: nat, n: nat)
    requires
        first == second,
    ensures
        state_after(first, steps) == state_after(second, steps),
        keystream(first, n) == keystream(second, n),
        keystream(state_after(first, steps), n) == keystream(state_after(second, steps), n),
{
}

/// Applying the same keystream twice gives the data back: whatever was
/// combined with the stream of a generator is recovered by a generator that
/// starts in the same state.
pub proof fn lemma_xor_stream_round_trip(state: u64, data: Seq<u8>)
    ensures
        xor_stream(state, xor_stream(state, data)) == data,
{
    let once = xor_stream(state, data);
    let twice = xor_stream(state, once);
    assert forall|i: int| 0 <= i < data.len() implies twice[i] == data[i] by {
        let d = data[i];
        let k = keystream_byte(state, i as nat);
        assert((d ^ k) ^ k == d) by (bit_vector);
    }
    assert(twice =~= data);
}

/// Processing two pieces one after the other, without resetting the
/// generator in between, is processing their concatenation in one go.
pub proof fn lemma_xor_stream_concat(state: u64, head: Seq<u8>, tail: Seq<u8>)
    ensures
        xor_stream(state, head + tail) == xor_stream(state, head) + xor_stream(
            state_after(state, head.len()),
            tail,
        ),
{
    let whole = xor_stream(state, head + tail);
    let parts = xor_stream(state, head) + xor_stream(state_after(state, head.len()), tail);
    assert forall|i: int| 0 <= i < whole.len() implies whole[i] == parts[i] by {
        if i >= head.len() {
            let j = (i - head.len()) as nat;
            lemma_state_after_adds(state, head.len(), j + 1);
            assert(head.len() + (j + 1) == i + 1);
        }
    }
    assert(whole =~= parts);
}

/// The cipher of one direction of a session: a generator state that advances
/// by one step for every byte processed.
pub struct StreamCipher {
    state: u64,
}

impl View for StreamCipher {
    type V = u64;

    closed spec fn view(&self) -> u64 {
        self.state
    }
}

impl StreamCipher {
    /// A cipher whose generator starts in `seed`.
    pub fn new(seed: u64) -> (cipher: StreamCipher)
        ensures
            cipher@ == seed,
    {
        StreamCipher { state: seed }
    }

    /// The current state of the generator.
    pub fn state(&self) -> (state: u64)
        ensures
            state == self@,
    {
        self.state
    }

    /// Advances the generator by one step and returns the low byte of the
    /// new state.
    pub fn next_byte(&mut self) -> (byte: u8)
        ensures
            final(self)@ == lcg_next(old(self)@),
            byte == low_byte(final(self)@),
            byte == keystream_byte(old(self)@, 0),
    {
        assert(self.state as u128 * LCG_A as u128 + LCG_C as u128 <= u128::MAX) by (nonlinear_arith)
            requires
                self.state <= u64::MAX,
                LCG_A == 1103515245,
                LCG_C == 12345,
        ;
        let wide: u128 = (self.state as u128 * LCG_A as u128 + LCG_C as u128) % (LCG_M as u128);
        self.state = wide as u64;
        let state = self.state;
        assert(state & 0xFF == state % 256) by (bit_vector);
        assert(state_after(old(self)@, 1) == lcg_next(state_after(old(self)@, 0)));
        (self.state & 0xFF) as u8
    }

    /// Combines `data` with the next `data.len()` bytes of the keystream.
    pub fn encrypt(&mut self, data: &[u8]) -> (out: Vec<u8>)
        ensures
            out@ == xor_stream(old(self)@, data@),
            final(self)@ == state_after(old(self)@, data@.len()),
    {
        let mut out: Vec<u8> = Vec::with_capacity(data.len());
        let mut i: usize = 0;
        while i < data.len()
            invariant
                i <= data.len(),
                out@.len() == i,
                self@ == state_after(old(self)@, i as nat),
                forall|j: int|
                    0 <= j < i ==> out@[j] == data@[j] ^ keystream_byte(old(self)@, j as nat),
            decreases data.len() - i,
        {
            let key = self.next_byte();
            out.push(data[i] ^ key);
            i += 1;
        }
        assert(out@ =~= xor_stream(old(self)@, data@));
        out
    }

    /// Recovers what [`StreamCipher::encrypt`] hid: the same operation, as
    /// exclusive or undoes itself.
    pub fn decrypt(&mut self, data: &[u8]) -> (out: Vec<u8>)
        ensures
            out@ == xor_stream(old(self)@, data@),
            final(self)@ == state_after(old(self)@, data@.len()),
    {
        self.encrypt(data)
    }
}

} // verus!
