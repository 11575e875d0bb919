//! How commands, windows and pixel samples are framed as bus cycles.

use vstd::prelude::*;
use crate::bus::{
    copies, lemma_copies_either_end, plain_events, repeated, word_events, BusEvent, BusState,
    BusWidth, ParallelBus, SelectPhase,
};
use crate::color::{PixelFormat, PixelSample};
use crate::config::{COLUMN_ADDRESS_SET, MEMORY_WRITE, ROW_ADDRESS_SET};
use crate::geometry::AddressWindow;

verus! {

/// The bytes of `bytes`, one bus word each.
pub open spec fn byte_events(bytes: Seq<u8>) -> Seq<BusEvent> {
    Seq::new(bytes.len(), |i: int| BusEvent::Word(bytes[i] as u16))
}

/// A command on the bus: the opcode in the command phase, then its
/// parameters, if it has any, in the data phase.
pub open spec fn command_events(opcode: u8, params: Seq<u8>) -> Seq<BusEvent> {
    let head = seq![BusEvent::Select(SelectPhase::Command), BusEvent::Word(opcode as u16)];
    if params.len() == 0 {
        head
    } else {
        head + seq![BusEvent::Select(SelectPhase::Data)] + byte_events(params)
    }
}

/// A boundary value as a parameter pair, high byte first.
pub open spec fn boundary(v: u16) -> Seq<u8> {
    seq![(v / 256) as u8, (v % 256) as u8]
}

/// Programming a window: column address set and row address set with the
/// four boundaries, then memory write, which arms the panel for pixel data.
pub open spec fn window_events(rect: AddressWindow) -> Seq<BusEvent> {
    command_events(COLUMN_ADDRESS_SET, boundary(rect.x0) + boundary(rect.x1)) + command_events(
        ROW_ADDRESS_SET,
        boundary(rect.y0) + boundary(rect.y1),
    ) + command_events(MEMORY_WRITE, seq![])
}

/// Number of bus words that carry one sample.
pub open spec fn words_per_sample(format: PixelFormat, width: BusWidth) -> nat {
    match (width, format) {
        (BusWidth::Eight, PixelFormat::Bits16) => 2,
        (BusWidth::Eight, _) => 3,
        (BusWidth::Sixteen, PixelFormat::Bits16) => 1,
        (BusWidth::Sixteen, _) => 2,
    }
}

/// The bus words of one sample, most significant first. Bits of the value
/// above the format's sample width are not transmitted.
pub open spec fn sample_words(format: PixelFormat, width: BusWidth, sample: PixelSample) -> Seq<
    u16,
> {
    let v = sample.value as int;
    match (width, format) {
        (BusWidth::Eight, PixelFormat::Bits16) => seq![(v / 256 % 256) as u16, (v % 256) as u16],
        (BusWidth::Eight, _) => seq![
            (v / 65536 % 256) as u16,
            (v / 256 % 256) as u16,
            (v % 256) as u16,
        ],
        (BusWidth::Sixteen, PixelFormat::Bits16) => seq![(v % 65536) as u16],
        (BusWidth::Sixteen, _) => seq![(v / 65536 % 256) as u16, (v % 65536) as u16],
    }
}

/// The bus words of a run of samples, in the order of the samples.
pub open spec fn stream_words(
    format: PixelFormat,
    width: BusWidth,
    samples: Seq<PixelSample>,
) -> Seq<u16>
    decreases samples.len(),
{
    if samples.len() == 0 {
        seq![]
    } else {
        stream_words(format, width, samples.drop_last()) + sample_words(
            format,
            width,
            samples.last(),
        )
    }
}

/// Streaming samples: the data phase is selected once, then every sample's
/// words follow in order.
pub open spec fn stream_events(
    format: PixelFormat,
    width: BusWidth,
    samples: Seq<PixelSample>,
) -> Seq<BusEvent> {
    seq![BusEvent::Select(SelectPhase::Data)] + plain_events(
        stream_words(format, width, samples),
    )
}

/// `count` copies of `sample`.
pub open spec fn constant_run(sample: PixelSample, count: int) -> Seq<PixelSample> {
    Seq::new(count as nat, |i: int| sample)
}

/// Filling a window: the window is programmed, then one sample for each of
/// its pixels is streamed.
pub open spec fn fill_events(
    format: PixelFormat,
    width: BusWidth,
    rect: AddressWindow,
    sample: PixelSample,
) -> Seq<BusEvent> {
    window_events(rect) + stream_events(format, width, constant_run(sample, rect.area()))
}

/// The words of a sample all fit the bus they are framed for.
pub proof fn lemma_sample_words_fit(format: PixelFormat, width: BusWidth, sample: PixelSample)
    ensures
        sample_words(format, width, sample).len() == words_per_sample(format, width),
        forall|i: int|
            0 <= i < words_per_sample(format, width) ==> width.fit(
                #[trigger] sample_words(format, width, sample)[i],
            ) == sample_words(format, width, sample)[i],
{
}

/// The words of a run are those of its samples, one after the other.
pub proof fn lemma_stream_words_len(format: PixelFormat, width: BusWidth, samples: Seq<PixelSample>)
    ensures
        stream_words(format, width, samples).len() == samples.len() * words_per_sample(
            format,
            width,
        ),
    decreases samples.len(),
{
    if samples.len() > 0 {
        lemma_stream_words_len(format, width, samples.drop_last());
        let n = words_per_sample(format, width) as int;
        let k = samples.len() as int;
        assert((k - 1) * n + n == k * n) by (nonlinear_arith);
    }
}

/// The events of a concatenation are the concatenation of the events.
pub proof fn lemma_plain_events_concat(a: Seq<u16>, b: Seq<u16>)
    ensures
        plain_events(a + b) =~= plain_events(a) + plain_events(b),
{
}

/// Programming a window takes sixteen cycles: each address command with its
/// four parameters, then memory write.
pub proof fn lemma_window_events_shape(rect: AddressWindow)
    ensures
        window_events(rect) =~= seq![
            BusEvent::Select(SelectPhase::Command),
            BusEvent::Word(COLUMN_ADDRESS_SET as u16),
            BusEvent::Select(SelectPhase::Data),
            BusEvent::Word(rect.x0 / 256),
            BusEvent::Word(rect.x0 % 256),
            BusEvent::Word(rect.x1 / 256),
            BusEvent::Word(rect.x1 % 256),
            BusEvent::Select(SelectPhase::Command),
            BusEvent::Word(ROW_ADDRESS_SET as u16),
            BusEvent::Select(SelectPhase::Data),
            BusEvent::Word(rect.y0 / 256),
            BusEvent::Word(rect.y0 % 256),
            BusEvent::Word(rect.y1 / 256),
            BusEvent::Word(rect.y1 % 256),
            BusEvent::Select(SelectPhase::Command),
            BusEvent::Word(MEMORY_WRITE as u16),
        ],
{
    let columns = command_events(COLUMN_ADDRESS_SET, boundary(rect.x0) + boundary(rect.x1));
    let rows = command_events(ROW_ADDRESS_SET, boundary(rect.y0) + boundary(rect.y1));
    assert(columns.len() == 7);
    assert(rows.len() == 7);
}

/// Puts a command on the bus.
pub fn send_command(bus: &mut ParallelBus, opcode: u8, params: &Vec<u8>)
    ensures
        final(bus)@ == (BusState {
            phase: if params@.len() == 0 {
                SelectPhase::Command
            } else {
                SelectPhase::Data
            },
            pending: old(bus)@.pending + command_events(opcode, params@),
            ..old(bus)@
        }),
{
    let ghost before = bus@;
    bus.select(SelectPhase::Command);
    bus.write_word(opcode as u16);
    assert(before.width.fit(opcode as u16) == opcode as u16);
    if params.len() == 0 {
        assert(bus@.pending =~= before.pending + command_events(opcode, params@));
        return ;
    }
    bus.select(SelectPhase::Data);
    let ghost head = bus@.pending;
    assert(head =~= before.pending + seq![
        BusEvent::Select(SelectPhase::Command),
        BusEvent::Word(opcode as u16),
        BusEvent::Select(SelectPhase::Data),
    ]);
    let mut i: usize = 0;
    while i < params.len()
        invariant
            i <= params.len(),
            bus@ == (BusState {
                phase: SelectPhase::Data,
                pending: head + byte_events(params@.take(i as int)),
                ..before
            }),
        decreases params.len() - i,
    {
        let byte: u8 = params[i];
        bus.write_word(byte as u16);
        proof {
            assert(before.width.fit(byte as u16) == byte as u16);
            assert(byte_events(params@.take(i as int)).push(BusEvent::Word(byte as u16))
                =~= byte_events(params@.take(i + 1)));
            assert(bus@.pending =~= head + byte_events(params@.take(i + 1)));
        }
        i += 1;
    }
    proof {
        assert(params@.take(i as int) =~= params@);
        assert(bus@.pending =~= before.pending + command_events(opcode, params@));
    }
}

/// Puts the commands that program `rect` on the bus.
pub fn send_window(bus: &mut ParallelBus, rect: AddressWindow)
    ensures
        final(bus)@ == (BusState {
            phase: SelectPhase::Command,
            pending: old(bus)@.pending + window_events(rect),
            ..old(bus)@
        }),
{
    let ghost before = bus@;
    let mut columns: Vec<u8> = Vec::new();
    columns.push((rect.x0 / 256) as u8);
    columns.push((rect.x0 % 256) as u8);
    columns.push((rect.x1 / 256) as u8);
    columns.push((rect.x1 % 256) as u8);
    assert(columns@ =~= boundary(rect.x0) + boundary(rect.x1));
    let mut rows: Vec<u8> = Vec::new();
    rows.push((rect.y0 / 256) as u8);
    rows.push((rect.y0 % 256) as u8);
    rows.push((rect.y1 / 256) as u8);
    rows.push((rect.y1 % 256) as u8);
    assert(rows@ =~= boundary(rect.y0) + boundary(rect.y1));
    let none: Vec<u8> = Vec::new();
    assert(none@ =~= seq![]);
    send_command(bus, COLUMN_ADDRESS_SET, &columns);
    send_command(bus, ROW_ADDRESS_SET, &rows);
    send_command(bus, MEMORY_WRITE, &none);
    assert(bus@.pending =~= before.pending + window_events(rect));
}

/// The bus words of one sample, most significant first.
pub fn words_of(format: PixelFormat, width: BusWidth, sample: PixelSample) -> (words: Vec<u16>)
    ensures
        words@ == sample_words(format, width, sample),
{
    let v: u32 = sample.value;
    let mut words: Vec<u16> = Vec::new();
    match width {
        BusWidth::Eight => {
            match format {
                PixelFormat::Bits16 => {},
                _ => {
                    words.push((v / 65536 % 256) as u16);
                },
            }
            words.push((v / 256 % 256) as u16);
            words.push((v % 256) as u16);
        },
        BusWidth::Sixteen => {
            match format {
                PixelFormat::Bits16 => {},
                _ => {
                    words.push((v / 65536 % 256) as u16);
                },
            }
            words.push((v % 65536) as u16);
        },
    }
    assert(words@ =~= sample_words(format, width, sample));
    words
}

/// The words of a run of samples all fit the bus they are framed for.
pub proof fn lemma_stream_words_fit(format: PixelFormat, width: BusWidth, samples: Seq<PixelSample>)
    ensures
        word_events(width, stream_words(format, width, samples)) == plain_events(
            stream_words(format, width, samples),
        ),
    decreases samples.len(),
{
    let words = stream_words(format, width, samples);
    if samples.len() > 0 {
        let head = stream_words(format, width, samples.drop_last());
        let tail = sample_words(format, width, samples.last());
        lemma_stream_words_fit(format, width, samples.drop_last());
        lemma_sample_words_fit(format, width, samples.last());
        assert forall|i: int| 0 <= i < words.len() implies width.fit(#[trigger] words[i])
            == words[i] by {
            if i < head.len() {
                assert(word_events(width, head)[i] == plain_events(head)[i]);
            } else {
                assert(words[i] == tail[i - head.len()]);
            }
        }
    }
    assert(word_events(width, words) =~= plain_events(words));
}

/// One sample for each of `count` pixels is the words of the sample,
/// `count` times over.
pub proof fn lemma_constant_run_repeats(
    format: PixelFormat,
    width: BusWidth,
    sample: PixelSample,
    count: nat,
)
    ensures
        repeated(width, sample_words(format, width, sample), count) == plain_events(
            stream_words(format, width, constant_run(sample, count as int)),
        ),
    decreases count,
{
    let pattern = sample_words(format, width, sample);
    let events = word_events(width, pattern);
    let run = constant_run(sample, count as int);
    if count == 0 {
        assert(stream_words(format, width, run) =~= seq![]);
        assert(plain_events(seq![]) =~= copies(events, 0));
    } else {
        let shorter = constant_run(sample, count - 1);
        lemma_constant_run_repeats(format, width, sample, (count - 1) as nat);
        lemma_sample_words_fit(format, width, sample);
        assert(events =~= plain_events(pattern));
        assert(run.drop_last() =~= shorter);
        assert(run.last() == sample);
        lemma_plain_events_concat(stream_words(format, width, shorter), pattern);
        lemma_copies_either_end(events, (count - 1) as nat);
    }
}

/// Puts a stream of samples on the bus: the data phase is selected once,
/// then the words of every sample follow in order.
pub fn send_stream(bus: &mut ParallelBus, format: PixelFormat, samples: &Vec<PixelSample>)
    ensures
        final(bus)@ == (BusState {
            phase: SelectPhase::Data,
            pending: old(bus)@.pending + stream_events(format, old(bus)@.width, samples@),
            ..old(bus)@
        }),
{
    let width = bus.width();
    let mut words: Vec<u16> = Vec::new();
    let mut i: usize = 0;
    while i < samples.len()
        invariant
            i <= samples.len(),
            words@ == stream_words(format, width, samples@.take(i as int)),
        decreases samples.len() - i,
    {
        let mut next = words_of(format, width, samples[i]);
        proof {
            assert(samples@.take(i + 1).drop_last() =~= samples@.take(i as int));
            assert(samples@.take(i + 1).last() == samples@[i as int]);
        }
        words.append(&mut next);
        i += 1;
    }
    proof {
        assert(samples@.take(i as int) =~= samples@);
        lemma_stream_words_fit(format, width, samples@);
    }
    bus.select(SelectPhase::Data);
    bus.write_burst(&words);
    assert(bus@.pending =~= old(bus)@.pending + stream_events(format, width, samples@));
}

/// Puts a fill on the bus: the window, then one sample for each of its
/// pixels.
pub fn send_fill(bus: &mut ParallelBus, format: PixelFormat, rect: AddressWindow, sample: PixelSample)
    ensures
        final(bus)@ == (BusState {
            phase: SelectPhase::Data,
            pending: old(bus)@.pending + fill_events(format, old(bus)@.width, rect, sample),
            ..old(bus)@
        }),
{
    let width = bus.width();
    let count: u64 = rect.pixel_count();
    let words = words_of(format, width, sample);
    send_window(bus, rect);
    bus.select(SelectPhase::Data);
    bus.write_repeated(&words, count);
    proof {
        lemma_constant_run_repeats(format, width, sample, count as nat);
        assert(bus@.pending =~= old(bus)@.pending + fill_events(format, width, rect, sample));
    }
}

} // verus!
