//! The two file decoders. A frame byte cannot have its top bit set, so the
//! device sends the top bit of each data byte apart, in a sign bitmap at the
//! front of the frame, and the decoders put it back.
//!
//! Samples are 8-bit values and all arithmetic on them wraps around.

use vstd::prelude::*;

verus! {

/// The sample that stands for a reading that could not be decoded.
pub const INVALID_SAMPLE: u8 = 0xFF;

/// Bit `index` of a sign bitmap; bits that the bitmap does not have are clear.
pub open spec fn sign_bit(signs: u32, index: nat) -> bool {
    index < 32 && signs & (1u32 << (index as u32)) != 0
}

/// The top nibble of a data byte, with its highest bit restored from the sign bitmap.
pub open spec fn top_nibble(byte: u8, sign: bool) -> u8 {
    if sign {
        ((byte >> 4) & 0x0F) | 0b1000
    } else {
        (byte >> 4) & 0x0F
    }
}

/// The bottom nibble of a data byte, which needs nothing restored.
pub open spec fn bottom_nibble(byte: u8) -> u8 {
    byte & 0x0F
}

/// `samples` with `sample` behind it, unless `target` samples are there already.
pub open spec fn emit(samples: Seq<u8>, target: nat, sample: u8) -> Seq<u8> {
    if samples.len() < target {
        samples.push(sample)
    } else {
        samples
    }
}

/// The state of the decoder for one channel of an automatically recorded
/// file: the base value from which deltas count down, whether the high half
/// of a new base value has been set and its low half is awaited, the samples
/// so far and the number of samples that the file holds.
pub struct AutoState {
    pub base: u8,
    pub half_set: bool,
    pub samples: Seq<u8>,
    pub target: nat,
}

impl AutoState {
    pub open spec fn start(target: nat) -> AutoState {
        AutoState { base: 0, half_set: false, samples: Seq::empty(), target }
    }

    pub open spec fn complete(self) -> bool {
        self.samples.len() >= self.target
    }

    /// The decoder holds no more samples than the file has.
    pub open spec fn within_target(self) -> bool {
        self.samples.len() <= self.target
    }

    pub open spec fn emitting(self, sample: u8) -> AutoState {
        AutoState { samples: emit(self.samples, self.target, sample), ..self }
    }

    /// One data byte with its sign bit. Once the file is complete nothing
    /// changes any more. A top nibble of 0xF marks a byte without deltas: with
    /// a bottom nibble of 0xF outside a base update it stands for two invalid
    /// samples, otherwise its bottom nibble is the next half of a new base
    /// value, high half first. Any other byte holds two deltas, of which a
    /// bottom nibble of 0xF is left out.
    pub open spec fn step(self, byte: u8, sign: bool) -> AutoState {
        let top = top_nibble(byte, sign);
        let bottom = bottom_nibble(byte);
        if self.complete() {
            self
        } else if top == 0x0F {
            if bottom == 0x0F && !self.half_set {
                self.emitting(INVALID_SAMPLE).emitting(INVALID_SAMPLE)
            } else if self.half_set {
                AutoState { base: self.base | bottom, half_set: false, ..self }
            } else {
                AutoState { base: bottom << 4, half_set: true, ..self }
            }
        } else {
            let first = self.emitting(self.base.wrapping_sub(top));
            if bottom != 0x0F {
                first.emitting(self.base.wrapping_sub(bottom))
            } else {
                first
            }
        }
    }

    /// The data bytes of one frame, in order, byte `j` with bit `j` of the bitmap.
    pub open spec fn consume(self, data: Seq<u8>, signs: u32) -> AutoState
        decreases data.len(),
    {
        if data.len() == 0 {
            self
        } else {
            self.consume(data.drop_last(), signs).step(
                data.last(),
                sign_bit(signs, (data.len() - 1) as nat),
            )
        }
    }
}

/// The decoder never holds more samples than the file has, and what it holds
/// stays: each step only adds behind it.
pub proof fn lemma_auto_step_extends(state: AutoState, byte: u8, sign: bool)
    requires
        state.within_target(),
    ensures
        state.step(byte, sign).target == state.target,
        state.step(byte, sign).samples.len() <= state.target,
        state.samples.len() <= state.step(byte, sign).samples.len(),
        state.step(byte, sign).samples.take(state.samples.len() as int) == state.samples,
{
    let after = state.step(byte, sign);
    assert(after.samples.take(state.samples.len() as int) =~= state.samples);
}

pub proof fn lemma_auto_consume_extends(state: AutoState, data: Seq<u8>, signs: u32)
    requires
        state.within_target(),
    ensures
        state.consume(data, signs).target == state.target,
        state.consume(data, signs).samples.len() <= state.target,
        state.samples.len() <= state.consume(data, signs).samples.len(),
        state.consume(data, signs).samples.take(state.samples.len() as int) == state.samples,
    decreases data.len(),
{
    if data.len() == 0 {
        assert(state.samples.take(state.samples.len() as int) =~= state.samples);
    } else {
        let before = state.consume(data.drop_last(), signs);
        lemma_auto_consume_extends(state, data.drop_last(), signs);
        lemma_auto_step_extends(before, data.last(), sign_bit(signs, (data.len() - 1) as nat));
        let after = state.consume(data, signs);
        assert(after.samples.take(state.samples.len() as int) =~= before.samples.take(
            state.samples.len() as int,
        ));
    }
}

/// Decoder for one channel of an automatically recorded file.
pub struct AutoDecoder {
    base_value: u8,
    base_value_top_nibble: bool,
    values: Vec<u8>,
    target: usize,
}

impl View for AutoDecoder {
    type V = AutoState;

    closed spec fn view(&self) -> AutoState {
        AutoState {
            base: self.base_value,
            half_set: self.base_value_top_nibble,
            samples: self.values@,
            target: self.target as nat,
        }
    }
}

impl AutoDecoder {
    /// A decoder for a file of `target` samples, with nothing decoded yet.
    pub fn new(target: usize) -> (decoder: Self)
        ensures
            decoder@ == AutoState::start(target as nat),
            decoder@.within_target(),
    {
        AutoDecoder { base_value: 0, base_value_top_nibble: false, values: Vec::new(), target }
    }

    /// Whether all samples of the file have been decoded.
    pub fn is_complete(&self) -> (complete: bool)
        ensures
            complete == self@.complete(),
    {
        self.values.len() >= self.target
    }

    /// The samples decoded so far.
    pub fn values(&self) -> (values: &Vec<u8>)
        ensures
            values@ == self@.samples,
    {
        &self.values
    }

    /// The samples decoded so far, leaving the decoder behind.
    pub fn into_values(self) -> (values: Vec<u8>)
        ensures
            values@ == self@.samples,
    {
        self.values
    }

    fn push_value(&mut self, value: u8)
        ensures
            final(self)@ == old(self)@.emitting(value),
    {
        if self.values.len() < self.target {
            self.values.push(value);
        }
    }

    fn consume_byte(&mut self, byte: u8, sign: bool)
        ensures
            final(self)@ == old(self)@.step(byte, sign),
    {
        if self.values.len() >= self.target {
            return ;
        }
        // top nibble needs the additional bit from the sign bits
        let mut top_nibble = (byte >> 4) & 0x0F;
        if sign {
            top_nibble = top_nibble | 0b1000;
        }
        // bottom nibble does not
        let bottom_nibble = byte & 0x0F;

        if top_nibble == 0x0F {
            if bottom_nibble == 0x0F && !self.base_value_top_nibble {
                // invalid value
                // (unless we are waiting for the bottom nibble of the new base value)
                self.push_value(INVALID_SAMPLE);
                self.push_value(INVALID_SAMPLE);
                return ;
            }
            // we are changing the base value!
            if self.base_value_top_nibble {
                self.base_value = self.base_value | bottom_nibble;
                self.base_value_top_nibble = false;
            } else {
                self.base_value = bottom_nibble << 4;
                self.base_value_top_nibble = true;
            }
            // note that this does not generate a value
        } else {
            // the nibbles are (downward) deltas from the current base value
            self.push_value(self.base_value.wrapping_sub(top_nibble));
            if bottom_nibble != 0x0F {
                // 0x0F is invalid
                self.push_value(self.base_value.wrapping_sub(bottom_nibble));
            }
        }
    }

    /// Decodes the data bytes of one frame. `sign_bits` holds the top bit of
    /// byte `j` of `data` in its bit `j`.
    pub fn consume(&mut self, sign_bits: u32, data: &[u8])
        ensures
            final(self)@ == old(self)@.consume(data@, sign_bits),
            old(self)@.within_target() ==> final(self)@.within_target(),
    {
        proof {
            if old(self)@.within_target() {
                lemma_auto_consume_extends(old(self)@, data@, sign_bits);
            }
        }
        let mut j: usize = 0;
        while j < data.len()
            invariant
                0 <= j <= data.len(),
                self@ == old(self)@.consume(data@.take(j as int), sign_bits),
            decreases data.len() - j,
        {
            let sign = j < 32 && sign_bits & (1u32 << (j as u32)) != 0;
            proof {
                assert(data@.take(j + 1).drop_last() =~= data@.take(j as int));
            }
            self.consume_byte(data[j], sign);
            j += 1;
        }
        proof {
            assert(data@.take(j as int) =~= data@);
        }
    }
}

/// What one nibble of a manually recorded file does to the running value:
/// 0xF spoils it for good, a set highest bit subtracts the low three bits,
/// a clear one adds them.
pub open spec fn manual_delta(value: u8, nibble: u8) -> u8 {
    if nibble == 0x0F {
        INVALID_SAMPLE
    } else if nibble & 0b1000 != 0 {
        value.wrapping_sub(nibble & 0b0111)
    } else {
        value.wrapping_add(nibble & 0b0111)
    }
}

/// The running value of the manual decoder and the samples it has given.
pub struct ManualRun {
    pub value: u8,
    pub samples: Seq<u8>,
}

impl ManualRun {
    /// The run begins with the seed, which is itself the first sample. Bit 0
    /// of the bitmap is the seed's top bit.
    pub open spec fn start(seed: u8, signs: u32) -> ManualRun {
        let value = if sign_bit(signs, 0) {
            seed | 0b1000_0000
        } else {
            seed
        };
        ManualRun { value, samples: seq![value] }
    }

    /// One nibble: the running value changes and is the next sample.
    pub open spec fn nibble(self, nibble: u8) -> ManualRun {
        let value = manual_delta(self.value, nibble);
        ManualRun { value, samples: self.samples.push(value) }
    }

    /// One data byte: its top nibble with the sign bit restored, then its
    /// bottom nibble.
    pub open spec fn step(self, byte: u8, sign: bool) -> ManualRun {
        self.nibble(top_nibble(byte, sign)).nibble(bottom_nibble(byte))
    }

    /// The data bytes behind the seed, byte `i` with bit `i + 1` of the bitmap.
    pub open spec fn consume(self, data: Seq<u8>, signs: u32) -> ManualRun
        decreases data.len(),
    {
        if data.len() == 0 {
            self
        } else {
            self.consume(data.drop_last(), signs).step(
                data.last(),
                sign_bit(signs, data.len() as nat),
            )
        }
    }
}

/// The samples that one frame of a manually recorded file holds: the seed
/// and two for each data byte.
pub open spec fn manual_samples(seed: u8, data: Seq<u8>, signs: u32) -> Seq<u8> {
    ManualRun::start(seed, signs).consume(data, signs).samples
}

/// `samples` cut down to `target` samples where it has more.
pub open spec fn capped(samples: Seq<u8>, target: nat) -> Seq<u8> {
    if samples.len() > target {
        samples.take(target as int)
    } else {
        samples
    }
}

pub proof fn lemma_manual_consume_len(run: ManualRun, data: Seq<u8>, signs: u32)
    ensures
        run.consume(data, signs).samples.len() == run.samples.len() + 2 * data.len(),
    decreases data.len(),
{
    if data.len() > 0 {
        lemma_manual_consume_len(run, data.drop_last(), signs);
    }
}

/// A frame gives one sample for its seed and two for each data byte.
pub proof fn lemma_manual_samples_len(seed: u8, data: Seq<u8>, signs: u32)
    ensures
        manual_samples(seed, data, signs).len() == 1 + 2 * data.len(),
{
    lemma_manual_consume_len(ManualRun::start(seed, signs), data, signs);
}

/// Decodes one frame of a manually recorded file and appends its samples to
/// `values`, which never grows beyond `target` samples.
pub fn decode_manual(values: &mut Vec<u8>, target: usize, sign_bits: u32, seed: u8, data: &[u8])
    ensures
        final(values)@ == capped(old(values)@ + manual_samples(seed, data@, sign_bits), target as nat),
{
    let ghost before = values@;
    let mut value_byte = seed;
    // the signs also contain the sign for the value byte
    if sign_bits & (1u32 << 0u32) != 0 {
        value_byte = value_byte | 0b1000_0000;
    }
    // this base value is also part of the output!
    values.push(value_byte);
    let ghost mut run = ManualRun::start(seed, sign_bits);
    let mut i: usize = 0;
    while i < data.len()
        invariant
            0 <= i <= data.len(),
            run == ManualRun::start(seed, sign_bits).consume(data@.take(i as int), sign_bits),
            run.value == value_byte,
            values@ == before + run.samples,
        decreases data.len() - i,
    {
        let b = data[i];
        // take top nibble sign from signs
        // (adding 1 to the left-shift because 0 is used for the initial value byte)
        let sign = i < 31 && sign_bits & (1u32 << ((i + 1) as u32)) != 0;
        let mut top = (b >> 4) & 0x0F;
        if sign {
            top = top | 0b1000;
        }
        let bottom = b & 0x0F;
        proof {
            assert(data@.take(i + 1).drop_last() =~= data@.take(i as int));
            assert(sign == sign_bit(sign_bits, (i + 1) as nat));
        }
        value_byte = apply_manual_delta(value_byte, top);
        values.push(value_byte);
        value_byte = apply_manual_delta(value_byte, bottom);
        values.push(value_byte);
        proof {
            let mid = run.nibble(top);
            let next = mid.nibble(bottom);
            assert(before + mid.samples =~= (before + run.samples).push(mid.value));
            assert(before + next.samples =~= (before + mid.samples).push(next.value));
            run = next;
        }
        i += 1;
    }
    proof {
        assert(data@.take(i as int) =~= data@);
    }
    if values.len() > target {
        values.truncate(target);
    }
}

fn apply_manual_delta(value: u8, nibble: u8) -> (next: u8)
    ensures
        next == manual_delta(value, nibble),
{
    if nibble == 0x0F {
        INVALID_SAMPLE
    } else if nibble & 0b1000 != 0 {
        // subtract from base value
        value.wrapping_sub(nibble & 0b0111)
    } else {
        // add to base value
        value.wrapping_add(nibble & 0b0111)
    }
}

} // verus!
