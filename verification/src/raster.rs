//! What bus cycles leave in the frame memory of the panel model: a window
//! followed by a stream of samples fills the window in raster order.

use vstd::prelude::*;
use crate::bus::{plain_events, BusEvent, BusWidth, SelectPhase};
use crate::color::{Color, PixelFormat, PixelSample};
use crate::driver::{pixel_window, pixels_events, ControllerState, DriverState, Pixel};
use crate::config::{COLUMN_ADDRESS_SET, MEMORY_WRITE, ROW_ADDRESS_SET};
use crate::geometry::{grid_index, AddressWindow};
use crate::panel::PanelState;
use crate::protocol::{
    boundary, byte_events, command_events, constant_run, fill_events, lemma_plain_events_concat,
    lemma_sample_words_fit, sample_words, stream_events, stream_words, window_events,
};

verus! {

/// The value that the panel stores for `sample`: the bits that are
/// transmitted.
pub open spec fn stored(m: PanelState, sample: PixelSample) -> u32 {
    (sample.value as int % m.format.sample_limit()) as u32
}

/// The model is taking pixel data for the window `rect`, between samples.
pub open spec fn streaming(m: PanelState, rect: AddressWindow) -> bool {
    &&& m.opcode == Some(MEMORY_WRITE)
    &&& m.phase == SelectPhase::Data
    &&& m.have == 0
    &&& m.acc == 0
    &&& m.window == rect
}

/// `after` has the frame of `before` but for the first pixels of `rect` in
/// raster order, which hold the samples of `samples` in their order.
pub open spec fn streamed_into(
    before: PanelState,
    after: PanelState,
    rect: AddressWindow,
    samples: Seq<PixelSample>,
) -> bool {
    &&& after.geometry == before.geometry
    &&& after.frame.len() == before.frame.len()
    &&& forall|x: int, y: int|
        0 <= x < before.geometry.width && 0 <= y < before.geometry.height ==> #[trigger] after.pixel(
            x,
            y,
        ) == if rect.covers(x, y) && rect.offset(x, y) < samples.len() {
            stored(before, samples[rect.offset(x, y)])
        } else {
            before.pixel(x, y)
        }
}

/// Two places of a grid `w` wide with the same index are the same place.
pub proof fn lemma_grid_injective(w: int, a: int, b: int, c: int, d: int)
    requires
        0 <= a < w,
        0 <= c < w,
        grid_index(w, a, b) == grid_index(w, c, d),
    ensures
        a == c,
        b == d,
{
    reveal(grid_index);
    if b < d {
        assert((d - b) * w >= w) by (nonlinear_arith)
            requires
                d - b >= 1,
                w > 0,
        ;
        assert((d - b) * w == d * w - b * w) by (nonlinear_arith);
    } else if d < b {
        assert((b - d) * w >= w) by (nonlinear_arith)
            requires
                b - d >= 1,
                w > 0,
        ;
        assert((b - d) * w == b * w - d * w) by (nonlinear_arith);
    }
}

/// A place of a grid `w` wide and `h` high has an index below `w * h`.
pub proof fn lemma_grid_bound(w: int, h: int, a: int, b: int)
    requires
        0 <= a < w,
        0 <= b < h,
    ensures
        0 <= grid_index(w, a, b) < w * h,
{
    reveal(grid_index);
    assert(b * w >= 0) by (nonlinear_arith)
        requires
            b >= 0,
            w > 0,
    ;
    assert((b + 1) * w <= h * w) by (nonlinear_arith)
        requires
            b + 1 <= h,
            w > 0,
    ;
    assert((b + 1) * w == b * w + w) by (nonlinear_arith);
    assert(h * w == w * h) by (nonlinear_arith);
}

/// In a grid, the place to the right is next, and so is the start of the
/// next row after the end of a row.
pub proof fn lemma_grid_next(w: int, a: int, b: int)
    requires
        0 <= a < w,
    ensures
        a + 1 < w ==> grid_index(w, a + 1, b) == grid_index(w, a, b) + 1,
        a + 1 == w ==> grid_index(w, 0, b + 1) == grid_index(w, a, b) + 1,
{
    reveal(grid_index);
    assert((b + 1) * w == b * w + w) by (nonlinear_arith);
}

/// Running no cycle changes nothing.
pub proof fn lemma_run_empty(m: PanelState)
    ensures
        m.run(Seq::empty()) == m,
{
    reveal(PanelState::run);
}

/// Running one more cycle is one more step.
pub proof fn lemma_run_push(m: PanelState, events: Seq<BusEvent>, event: BusEvent)
    ensures
        m.run(events.push(event)) == m.run(events).step(event),
{
    reveal(PanelState::run);
    assert(events.push(event).drop_last() =~= events);
}

/// Running two runs of cycles on end is running the first, then the second.
pub proof fn lemma_run_concat(m: PanelState, first: Seq<BusEvent>, second: Seq<BusEvent>)
    ensures
        m.run(first + second) == m.run(first).run(second),
    decreases second.len(),
{
    reveal(PanelState::run);
    if second.len() == 0 {
        assert(first + second =~= first);
    } else {
        lemma_run_concat(m, first, second.drop_last());
        assert((first + second).drop_last() =~= first + second.drop_last());
    }
}

/// The opcode of the column or of the row address command.
pub open spec fn address_opcode(columns: bool) -> u8 {
    if columns {
        COLUMN_ADDRESS_SET
    } else {
        ROW_ADDRESS_SET
    }
}

/// The fourth parameter of an address command sets its two boundaries.
pub proof fn lemma_step_parameters(m: PanelState, columns: bool, b0: u8, b1: u8, b2: u8, b3: u8)
    requires
        m.phase == SelectPhase::Data,
        m.opcode == Some(address_opcode(columns)),
        m.seen == 0,
    ensures
        ({
            let after = m.step(BusEvent::Word(b0 as u16)).step(BusEvent::Word(b1 as u16)).step(
                BusEvent::Word(b2 as u16),
            ).step(BusEvent::Word(b3 as u16));
            let low = (b0 * 256 + b1) as u16;
            let high = (b2 * 256 + b3) as u16;
            after == (PanelState {
                seen: 4,
                p0: b0,
                p1: b1,
                p2: b2,
                window: if columns {
                    AddressWindow { x0: low, x1: high, ..m.window }
                } else {
                    AddressWindow { y0: low, y1: high, ..m.window }
                },
                ..m
            })
        }),
{
    let m1 = m.step(BusEvent::Word(b0 as u16));
    assert(m1 == (PanelState { seen: 1, p0: b0, ..m }));
    let m2 = m1.step(BusEvent::Word(b1 as u16));
    assert(m2 == (PanelState { seen: 2, p1: b1, ..m1 }));
    let m3 = m2.step(BusEvent::Word(b2 as u16));
    assert(m3 == (PanelState { seen: 3, p2: b2, ..m2 }));
}

/// Running one cycle is one step.
pub proof fn lemma_run_one(m: PanelState, e0: BusEvent)
    ensures
        m.run(seq![e0]) == m.step(e0),
{
    let s0 = Seq::<BusEvent>::empty();
    lemma_run_empty(m);
    lemma_run_push(m, s0, e0);
    assert(seq![e0] =~= s0.push(e0));
}

/// Running two cycles is two steps.
pub proof fn lemma_run_two(m: PanelState, e0: BusEvent, e1: BusEvent)
    ensures
        m.run(seq![e0, e1]) == m.step(e0).step(e1),
{
    lemma_run_one(m, e0);
    lemma_run_push(m, seq![e0], e1);
    assert(seq![e0, e1] =~= seq![e0].push(e1));
}

/// Running three cycles is three steps.
pub proof fn lemma_run_three(m: PanelState, e0: BusEvent, e1: BusEvent, e2: BusEvent)
    ensures
        m.run(seq![e0, e1, e2]) == m.step(e0).step(e1).step(e2),
{
    let s0 = Seq::<BusEvent>::empty();
    lemma_run_empty(m);
    lemma_run_push(m, s0, e0);
    lemma_run_push(m, s0.push(e0), e1);
    lemma_run_push(m, s0.push(e0).push(e1), e2);
    assert(seq![e0, e1, e2] =~= s0.push(e0).push(e1).push(e2));
}

/// Running four cycles is four steps.
pub proof fn lemma_run_four(m: PanelState, e0: BusEvent, e1: BusEvent, e2: BusEvent, e3: BusEvent)
    ensures
        m.run(seq![e0, e1, e2, e3]) == m.step(e0).step(e1).step(e2).step(e3),
{
    lemma_run_three(m, e0, e1, e2);
    lemma_run_push(m, seq![e0, e1, e2], e3);
    assert(seq![e0, e1, e2, e3] =~= seq![e0, e1, e2].push(e3));
}

/// An address command with its two boundaries is its opcode and the
/// selection of the data phase, then four parameters.
pub proof fn lemma_address_events(columns: bool, low: u16, high: u16)
    ensures
        command_events(address_opcode(columns), boundary(low) + boundary(high)) =~= seq![
            BusEvent::Select(SelectPhase::Command),
            BusEvent::Word(address_opcode(columns) as u16),
            BusEvent::Select(SelectPhase::Data),
        ] + seq![
            BusEvent::Word(low / 256),
            BusEvent::Word(low % 256),
            BusEvent::Word(high / 256),
            BusEvent::Word(high % 256),
        ],
{
    let params = boundary(low) + boundary(high);
    assert(params.len() == 4);
    assert(byte_events(params) =~= seq![
        BusEvent::Word(low / 256),
        BusEvent::Word(low % 256),
        BusEvent::Word(high / 256),
        BusEvent::Word(high % 256),
    ]);
}

/// The opcode of an address command and the selection of the data phase
/// leave the model waiting for the first parameter.
pub proof fn lemma_run_address_opcode(m: PanelState, columns: bool)
    ensures
        m.run(
            seq![
                BusEvent::Select(SelectPhase::Command),
                BusEvent::Word(address_opcode(columns) as u16),
                BusEvent::Select(SelectPhase::Data),
            ],
        ) == (PanelState {
            phase: SelectPhase::Data,
            opcode: Some(address_opcode(columns)),
            seen: 0,
            ..m
        }),
{
    lemma_run_three(
        m,
        BusEvent::Select(SelectPhase::Command),
        BusEvent::Word(address_opcode(columns) as u16),
        BusEvent::Select(SelectPhase::Data),
    );
}

/// An address command with its two boundaries sets the registers it names.
pub proof fn lemma_run_address(m: PanelState, columns: bool, low: u16, high: u16)
    ensures
        ({
            let after = m.run(
                command_events(address_opcode(columns), boundary(low) + boundary(high)),
            );
            &&& after.geometry == m.geometry
            &&& after.format == m.format
            &&& after.width == m.width
            &&& after.frame == m.frame
            &&& after.window == if columns {
                AddressWindow { x0: low, x1: high, ..m.window }
            } else {
                AddressWindow { y0: low, y1: high, ..m.window }
            }
        }),
{
    let b0 = (low / 256) as u8;
    let b1 = (low % 256) as u8;
    let b2 = (high / 256) as u8;
    let b3 = (high % 256) as u8;
    let head = seq![
        BusEvent::Select(SelectPhase::Command),
        BusEvent::Word(address_opcode(columns) as u16),
        BusEvent::Select(SelectPhase::Data),
    ];
    let tail = seq![
        BusEvent::Word(b0 as u16),
        BusEvent::Word(b1 as u16),
        BusEvent::Word(b2 as u16),
        BusEvent::Word(b3 as u16),
    ];
    lemma_address_events(columns, low, high);
    lemma_run_concat(m, head, tail);
    lemma_run_address_opcode(m, columns);
    let waiting = m.run(head);
    lemma_run_four(
        waiting,
        BusEvent::Word(b0 as u16),
        BusEvent::Word(b1 as u16),
        BusEvent::Word(b2 as u16),
        BusEvent::Word(b3 as u16),
    );
    lemma_step_parameters(waiting, columns, b0, b1, b2, b3);
    assert(b0 * 256 + b1 == low);
    assert(b2 * 256 + b3 == high);
}

/// Programming a window sets both address registers to it and leaves the
/// cursor at its first pixel, with the frame untouched.
pub proof fn lemma_run_window(m: PanelState, rect: AddressWindow)
    ensures
        ({
            let after = m.run(window_events(rect));
            &&& after.geometry == m.geometry
            &&& after.format == m.format
            &&& after.width == m.width
            &&& after.frame == m.frame
            &&& after.window == rect
            &&& after.opcode == Some(MEMORY_WRITE)
            &&& after.have == 0
            &&& after.acc == 0
            &&& after.cx == rect.x0
            &&& after.cy == rect.y0
        }),
{
    let columns = command_events(address_opcode(true), boundary(rect.x0) + boundary(rect.x1));
    let rows = command_events(address_opcode(false), boundary(rect.y0) + boundary(rect.y1));
    let write = command_events(MEMORY_WRITE, seq![]);
    lemma_run_concat(m, columns + rows, write);
    lemma_run_concat(m, columns, rows);
    lemma_run_address(m, true, rect.x0, rect.x1);
    let m1 = m.run(columns);
    lemma_run_address(m1, false, rect.y0, rect.y1);
    let m2 = m1.run(rows);
    let e0 = BusEvent::Select(SelectPhase::Command);
    let e1 = BusEvent::Word(MEMORY_WRITE as u16);
    let s0 = Seq::<BusEvent>::empty();
    assert(write =~= s0.push(e0).push(e1));
    lemma_run_empty(m2);
    lemma_run_push(m2, s0, e0);
    lemma_run_push(m2, s0.push(e0), e1);
    assert(m2.run(write) == m2.step(e0).step(e1));
}

/// The state that takes pixel data after it took one whole sample of value
/// `value`.
pub open spec fn sampled(m: PanelState, value: u32) -> PanelState {
    PanelState {
        frame: m.painted(value),
        cx: m.next_cursor().0,
        cy: m.next_cursor().1,
        have: 0,
        acc: 0,
        ..m
    }
}

/// Two bytes, high first, hold the low sixteen bits of a value.
pub proof fn lemma_bytes_of_16(v: int)
    requires
        0 <= v,
    ensures
        (v / 256 % 256) * 256 + v % 256 == v % 0x1_0000,
{
}

/// Three bytes, high first, hold the low twenty-four bits of a value.
pub proof fn lemma_bytes_of_24(v: int)
    requires
        0 <= v,
    ensures
        ((v / 65536 % 256) * 256 + v / 256 % 256) * 256 + v % 256 == v % 0x100_0000,
{
    let q = v / 256;
    lemma_bytes_of_16(q);
    assert(q / 256 == v / 65536);
    assert(v % 0x100_0000 == (q % 0x1_0000) * 256 + v % 256);
}

/// A byte and a sixteen-bit word hold the low twenty-four bits of a value.
pub proof fn lemma_words_of_24(v: int)
    requires
        0 <= v,
    ensures
        (v / 65536 % 256) * 65536 + v % 65536 == v % 0x100_0000,
{
}

/// A word of a sample that is not its last is gathered.
pub proof fn lemma_gather_more(m: PanelState, word: u16)
    requires
        m.have + 1 < m.sample_len(),
        m.acc < 0x1_0000,
        word < m.width.limit(),
    ensures
        m.gather(word) == (PanelState {
            have: m.have + 1,
            acc: (m.acc * m.width.limit() + word) as u32,
            ..m
        }),
{
    assert(m.acc as int % 0x1_0000 == m.acc);
}

/// The last word of a sample completes it.
pub proof fn lemma_gather_last(m: PanelState, word: u16)
    requires
        m.have + 1 == m.sample_len(),
        m.acc < 0x1_0000,
        word < m.width.limit(),
    ensures
        m.gather(word) == sampled(
            m,
            ((m.acc * m.width.limit() + word) % m.format.sample_limit()) as u32,
        ),
{
    assert(m.acc as int % 0x1_0000 == m.acc);
}

/// A word of pixel data is gathered.
pub proof fn lemma_step_gathers(m: PanelState, word: u16)
    requires
        m.opcode == Some(MEMORY_WRITE),
        m.phase == SelectPhase::Data,
    ensures
        m.step(BusEvent::Word(word)) == m.gather(word),
{
}

/// A sample of one word is stored.
pub proof fn lemma_run_sample_of_one(m: PanelState, rect: AddressWindow, w0: u16)
    requires
        streaming(m, rect),
        m.sample_len() == 1,
        w0 < m.width.limit(),
    ensures
        m.run(seq![BusEvent::Word(w0)]) == sampled(
            m,
            (w0 as int % m.format.sample_limit()) as u32,
        ),
{
    lemma_run_one(m, BusEvent::Word(w0));
    lemma_step_gathers(m, w0);
    lemma_gather_last(m, w0);
}

/// A sample of two words is stored.
pub proof fn lemma_run_sample_of_two(m: PanelState, rect: AddressWindow, w0: u16, w1: u16)
    requires
        streaming(m, rect),
        m.sample_len() == 2,
        w0 < 256,
        w1 < m.width.limit(),
    ensures
        m.run(seq![BusEvent::Word(w0), BusEvent::Word(w1)]) == sampled(
            m,
            ((w0 * m.width.limit() + w1) % m.format.sample_limit()) as u32,
        ),
{
    lemma_run_two(m, BusEvent::Word(w0), BusEvent::Word(w1));
    lemma_step_gathers(m, w0);
    lemma_gather_more(m, w0);
    let m1 = m.gather(w0);
    lemma_step_gathers(m1, w1);
    lemma_gather_last(m1, w1);
}

/// A sample of three words is stored.
pub proof fn lemma_run_sample_of_three(
    m: PanelState,
    rect: AddressWindow,
    w0: u16,
    w1: u16,
    w2: u16,
)
    requires
        streaming(m, rect),
        m.sample_len() == 3,
        w0 < 256,
        w1 < 256,
        w2 < 256,
    ensures
        m.run(seq![BusEvent::Word(w0), BusEvent::Word(w1), BusEvent::Word(w2)]) == sampled(
            m,
            (((w0 * 256 + w1) * 256 + w2) % m.format.sample_limit()) as u32,
        ),
{
    lemma_run_three(m, BusEvent::Word(w0), BusEvent::Word(w1), BusEvent::Word(w2));
    lemma_step_gathers(m, w0);
    lemma_gather_more(m, w0);
    let m1 = m.gather(w0);
    lemma_step_gathers(m1, w1);
    lemma_gather_more(m1, w1);
    let m2 = m1.gather(w1);
    lemma_step_gathers(m2, w2);
    lemma_gather_last(m2, w2);
}

/// The words of one sample store the sample at the cursor and move the
/// cursor on.
pub proof fn lemma_run_sample(m: PanelState, rect: AddressWindow, sample: PixelSample)
    requires
        streaming(m, rect),
    ensures
        m.run(plain_events(sample_words(m.format, m.width, sample))) == sampled(
            m,
            stored(m, sample),
        ),
{
    let words = sample_words(m.format, m.width, sample);
    let v = sample.value as int;
    lemma_sample_words_fit(m.format, m.width, sample);
    if words.len() == 1 {
        assert(plain_events(words) =~= seq![BusEvent::Word(words[0])]);
        lemma_run_sample_of_one(m, rect, words[0]);
    } else if words.len() == 2 {
        assert(plain_events(words) =~= seq![BusEvent::Word(words[0]), BusEvent::Word(words[1])]);
        lemma_run_sample_of_two(m, rect, words[0], words[1]);
        lemma_bytes_of_16(v);
        lemma_words_of_24(v);
    } else {
        assert(plain_events(words) =~= seq![
            BusEvent::Word(words[0]),
            BusEvent::Word(words[1]),
            BusEvent::Word(words[2]),
        ]);
        lemma_run_sample_of_three(m, rect, words[0], words[1], words[2]);
        lemma_bytes_of_24(v);
    }
}

/// A pixel of a window has its place in the raster order of the window,
/// below the number of the window's pixels.
pub proof fn lemma_offset_bound(rect: AddressWindow, x: int, y: int)
    requires
        rect.ordered(),
        rect.covers(x, y),
    ensures
        0 <= rect.offset(x, y) < rect.area(),
{
    lemma_grid_bound(rect.columns(), rect.rows(), x - rect.x0, y - rect.y0);
}

/// Within a window, the cursor moves to the next place in raster order.
pub proof fn lemma_next_cursor(m: PanelState, rect: AddressWindow)
    requires
        m.window == rect,
        rect.ordered(),
        rect.covers(m.cx as int, m.cy as int),
        rect.offset(m.cx as int, m.cy as int) + 1 < rect.area(),
    ensures
        rect.covers(m.next_cursor().0 as int, m.next_cursor().1 as int),
        rect.offset(m.next_cursor().0 as int, m.next_cursor().1 as int) == rect.offset(
            m.cx as int,
            m.cy as int,
        ) + 1,
{
    let columns = rect.columns();
    let column = m.cx - rect.x0;
    let row = m.cy - rect.y0;
    lemma_grid_next(columns, column, row);
    if m.cx == rect.x1 && m.cy == rect.y1 {
        lemma_grid_bound(columns, rect.rows(), column, row);
        reveal(grid_index);
        assert((rect.rows() - 1) * columns + columns == rect.rows() * columns)
            by (nonlinear_arith);
    }
}

/// A run of samples, taken from the first pixel of the window on, fills the
/// window in raster order and touches nothing else.
pub proof fn lemma_run_stream(m: PanelState, rect: AddressWindow, samples: Seq<PixelSample>)
    requires
        m.wf(),
        rect.within(m.geometry),
        streaming(m, rect),
        m.cx == rect.x0,
        m.cy == rect.y0,
        samples.len() <= rect.area(),
    ensures
        ({
            let after = m.run(plain_events(stream_words(m.format, m.width, samples)));
            &&& streaming(after, rect)
            &&& after.format == m.format
            &&& after.width == m.width
            &&& samples.len() < rect.area() ==> rect.covers(after.cx as int, after.cy as int)
                && rect.offset(after.cx as int, after.cy as int) == samples.len()
            &&& streamed_into(m, after, rect, samples)
        }),
    decreases samples.len(),
{
    let width = m.geometry.width as int;
    let height = m.geometry.height as int;
    if samples.len() == 0 {
        assert(stream_words(m.format, m.width, samples) =~= seq![]);
        assert(plain_events(seq![]) =~= Seq::<BusEvent>::empty());
        lemma_run_empty(m);
        assert(rect.offset(rect.x0 as int, rect.y0 as int) == 0) by {
            reveal(grid_index);
        }
        assert forall|x: int, y: int| rect.covers(x, y) implies 0 <= #[trigger] rect.offset(
            x,
            y,
        ) by {
            lemma_offset_bound(rect, x, y);
        }
    } else {
        let init = samples.drop_last();
        let last = samples.last();
        let head = plain_events(stream_words(m.format, m.width, init));
        let tail = plain_events(sample_words(m.format, m.width, last));
        lemma_plain_events_concat(
            stream_words(m.format, m.width, init),
            sample_words(m.format, m.width, last),
        );
        lemma_run_concat(m, head, tail);
        lemma_run_stream(m, rect, init);
        let mid = m.run(head);
        lemma_run_sample(mid, rect, last);
        let after = sampled(mid, stored(mid, last));
        assert(after == m.run(plain_events(stream_words(m.format, m.width, samples))));
        let cx = mid.cx as int;
        let cy = mid.cy as int;
        let at = mid.index(cx, cy);
        lemma_grid_bound(width, height, cx, cy);
        assert(after.frame == mid.frame.update(at, stored(m, last)));
        assert forall|x: int, y: int| 0 <= x < width && 0 <= y < height implies #[trigger] after.pixel(
            x,
            y,
        ) == if rect.covers(x, y) && rect.offset(x, y) < samples.len() {
            stored(m, samples[rect.offset(x, y)])
        } else {
            m.pixel(x, y)
        } by {
            lemma_grid_bound(width, height, x, y);
            if x == cx && y == cy {
            } else {
                if grid_index(width, x, y) == grid_index(width, cx, cy) {
                    lemma_grid_injective(width, x, y, cx, cy);
                }
                assert(after.pixel(x, y) == mid.pixel(x, y));
                if rect.covers(x, y) {
                    lemma_offset_bound(rect, x, y);
                    if rect.offset(x, y) == rect.offset(cx, cy) {
                        lemma_grid_injective(
                            rect.columns(),
                            x - rect.x0,
                            y - rect.y0,
                            cx - rect.x0,
                            cy - rect.y0,
                        );
                    }
                }
            }
        }
        if samples.len() < rect.area() {
            lemma_next_cursor(mid, rect);
        }
    }
}

/// A window followed by a stream of no more samples than the window has
/// pixels leaves sample `k` in the `k`-th pixel of the window in raster
/// order, and every other pixel of the panel as it was.
pub proof fn lemma_window_then_stream(
    m: PanelState,
    rect: AddressWindow,
    samples: Seq<PixelSample>,
)
    requires
        m.wf(),
        rect.within(m.geometry),
        samples.len() <= rect.area(),
    ensures
        streamed_into(
            m,
            m.run(window_events(rect) + stream_events(m.format, m.width, samples)),
            rect,
            samples,
        ),
{
    let words = plain_events(stream_words(m.format, m.width, samples));
    let select = BusEvent::Select(SelectPhase::Data);
    lemma_run_concat(m, window_events(rect), stream_events(m.format, m.width, samples));
    lemma_run_window(m, rect);
    let armed = m.run(window_events(rect));
    lemma_run_concat(armed, seq![select], words);
    lemma_run_one(armed, select);
    let taking = armed.step(select);
    lemma_run_stream(taking, rect, samples);
    let after = taking.run(words);
    assert forall|x: int, y: int|
        0 <= x < m.geometry.width && 0 <= y < m.geometry.height implies #[trigger] after.pixel(
        x,
        y,
    ) == if rect.covers(x, y) && rect.offset(x, y) < samples.len() {
        stored(m, samples[rect.offset(x, y)])
    } else {
        m.pixel(x, y)
    } by {
        assert(taking.pixel(x, y) == m.pixel(x, y));
    }
}

/// Filling a window leaves the sample in every pixel of the window and every
/// other pixel of the panel as it was.
pub proof fn lemma_fill_paints_window(m: PanelState, rect: AddressWindow, sample: PixelSample)
    requires
        m.wf(),
        rect.within(m.geometry),
    ensures
        ({
            let after = m.run(fill_events(m.format, m.width, rect, sample));
            &&& after.geometry == m.geometry
            &&& after.wf()
            &&& forall|x: int, y: int|
                0 <= x < m.geometry.width && 0 <= y < m.geometry.height ==> #[trigger] after.pixel(
                    x,
                    y,
                ) == if rect.covers(x, y) {
                    stored(m, sample)
                } else {
                    m.pixel(x, y)
                }
        }),
{
    let samples = constant_run(sample, rect.area());
    lemma_window_then_stream(m, rect, samples);
    let after = m.run(fill_events(m.format, m.width, rect, sample));
    assert forall|x: int, y: int|
        0 <= x < m.geometry.width && 0 <= y < m.geometry.height implies #[trigger] after.pixel(
        x,
        y,
    ) == if rect.covers(x, y) {
        stored(m, sample)
    } else {
        m.pixel(x, y)
    } by {
        if rect.covers(x, y) {
            lemma_offset_bound(rect, x, y);
        }
    }
}

/// The sample of a color is stored whole: conversion leaves no bit that is
/// not transmitted.
pub proof fn lemma_sample_is_stored(m: PanelState, color: Color)
    ensures
        stored(m, m.format.sample_of(color)) == m.format.sample_of(color).value,
{
    crate::color::lemma_unpack(m.format, m.format.truncate(color));
}

/// Clearing the panel leaves the converted color in every pixel.
pub proof fn lemma_clear_paints_panel(m: PanelState, color: Color)
    requires
        m.wf(),
        m.geometry.valid(),
    ensures
        ({
            let sample = m.format.sample_of(color);
            let after = m.run(fill_events(m.format, m.width, m.geometry.full(), sample));
            &&& after.geometry == m.geometry
            &&& after.wf()
            &&& forall|x: int, y: int|
                0 <= x < m.geometry.width && 0 <= y < m.geometry.height ==> #[trigger] after.pixel(
                    x,
                    y,
                ) == sample.value
        }),
{
    let sample = m.format.sample_of(color);
    lemma_fill_paints_window(m, m.geometry.full(), sample);
    lemma_sample_is_stored(m, color);
}

/// What a ready driver queues for `clear`, taken by a panel of the same
/// geometry, format and bus width, leaves the converted color in every pixel
/// of the panel.
pub proof fn lemma_clear_shows_on_panel(d: DriverState, m: PanelState, color: Color)
    requires
        d.state == ControllerState::Ready,
        d.geometry.valid(),
        m.wf(),
        m.geometry == d.geometry,
        m.format == d.format(),
        m.width == d.bus.width,
    ensures
        ({
            let sample = d.format().sample_of(color);
            let cleared = d.after_fill(d.geometry.full(), sample);
            let after = m.run(cleared.bus.pending.skip(d.bus.pending.len() as int));
            forall|x: int, y: int|
                0 <= x < d.geometry.width && 0 <= y < d.geometry.height ==> #[trigger] after.pixel(
                    x,
                    y,
                ) == sample.value
        }),
{
    let sample = d.format().sample_of(color);
    let cleared = d.after_fill(d.geometry.full(), sample);
    let events = fill_events(m.format, m.width, m.geometry.full(), sample);
    assert(cleared.bus.pending.skip(d.bus.pending.len() as int) =~= events);
    lemma_clear_paints_panel(m, color);
}

/// What pixel (`x`, `y`) shows once `pixels` are drawn in their order: the
/// sample of the last of them that lies there, or `prior` if none does.
pub open spec fn shown(
    format: PixelFormat,
    pixels: Seq<Pixel>,
    x: int,
    y: int,
    prior: u32,
) -> u32
    decreases pixels.len(),
{
    if pixels.len() == 0 {
        prior
    } else if pixels.last().at.x == x && pixels.last().at.y == y {
        format.sample_of(pixels.last().color).value
    } else {
        shown(format, pixels.drop_last(), x, y, prior)
    }
}

/// Drawing one pixel that lies on the panel leaves its converted color
/// there and every other pixel of the panel as it was.
pub proof fn lemma_pixel_shows_on_panel(m: PanelState, pixel: Pixel)
    requires
        m.wf(),
        m.geometry.contains(pixel.at),
    ensures
        ({
            let after = m.run(
                fill_events(
                    m.format,
                    m.width,
                    pixel_window(pixel.at),
                    m.format.sample_of(pixel.color),
                ),
            );
            &&& after.geometry == m.geometry
            &&& after.format == m.format
            &&& after.width == m.width
            &&& after.wf()
            &&& forall|x: int, y: int|
                0 <= x < m.geometry.width && 0 <= y < m.geometry.height ==> #[trigger] after.pixel(
                    x,
                    y,
                ) == if pixel.at.x == x && pixel.at.y == y {
                    m.format.sample_of(pixel.color).value
                } else {
                    m.pixel(x, y)
                }
        }),
{
    let sample = m.format.sample_of(pixel.color);
    let rect = pixel_window(pixel.at);
    let events = fill_events(m.format, m.width, rect, sample);
    let after = m.run(events);
    assert(rect.within(m.geometry));
    lemma_fill_paints_window(m, rect, sample);
    lemma_run_format(m, events);
    lemma_sample_is_stored(m, pixel.color);
    assert forall|x: int, y: int|
        0 <= x < m.geometry.width && 0 <= y < m.geometry.height implies #[trigger] after.pixel(
        x,
        y,
    ) == if pixel.at.x == x && pixel.at.y == y {
        sample.value
    } else {
        m.pixel(x, y)
    } by {
        assert(rect.covers(x, y) <==> (pixel.at.x == x && pixel.at.y == y));
    }
}

/// Drawing pixels that all lie on the panel leaves in every pixel of the
/// panel the color drawn there last, converted, and what it held before if
/// nothing was drawn there.
pub proof fn lemma_pixels_show_on_panel(m: PanelState, pixels: Seq<Pixel>)
    requires
        m.wf(),
        forall|i: int| 0 <= i < pixels.len() ==> m.geometry.contains(#[trigger] pixels[i].at),
    ensures
        ({
            let after = m.run(pixels_events(m.format, m.width, pixels));
            &&& after.geometry == m.geometry
            &&& after.format == m.format
            &&& after.width == m.width
            &&& after.wf()
            &&& forall|x: int, y: int|
                0 <= x < m.geometry.width && 0 <= y < m.geometry.height ==> #[trigger] after.pixel(
                    x,
                    y,
                ) == shown(m.format, pixels, x, y, m.pixel(x, y))
        }),
    decreases pixels.len(),
{
    if pixels.len() == 0 {
        assert(pixels_events(m.format, m.width, pixels) =~= Seq::<BusEvent>::empty());
        lemma_run_empty(m);
    } else {
        let init = pixels.drop_last();
        let last = pixels.last();
        let head = pixels_events(m.format, m.width, init);
        let mid = m.run(head);
        assert forall|i: int| 0 <= i < init.len() implies m.geometry.contains(
            #[trigger] init[i].at,
        ) by {
            assert(init[i] == pixels[i]);
        }
        lemma_pixels_show_on_panel(m, init);
        lemma_pixel_shows_on_panel(mid, last);
        let tail = fill_events(
            mid.format,
            mid.width,
            pixel_window(last.at),
            mid.format.sample_of(last.color),
        );
        let after = mid.run(tail);
        lemma_run_concat(m, head, tail);
        assert(pixels_events(m.format, m.width, pixels) == head + tail);
        assert forall|x: int, y: int|
            0 <= x < m.geometry.width && 0 <= y < m.geometry.height implies #[trigger] after.pixel(
            x,
            y,
        ) == shown(m.format, pixels, x, y, m.pixel(x, y)) by {
            assert(mid.pixel(x, y) == shown(m.format, init, x, y, m.pixel(x, y)));
        }
    }
}

/// No bus cycle changes the geometry, the format or the bus width of the
/// model.
pub proof fn lemma_run_format(m: PanelState, events: Seq<BusEvent>)
    ensures
        m.run(events).geometry == m.geometry,
        m.run(events).format == m.format,
        m.run(events).width == m.width,
    decreases events.len(),
{
    reveal(PanelState::run);
    if events.len() > 0 {
        lemma_run_format(m, events.drop_last());
    }
}

} // verus!
