use ringbuf::HeapRb;
use ringbuf::Rb;
use vstd::prelude::*;

verus! {

/// The time that each of the latest frames took, in nanoseconds: a window
/// that forgets its oldest time when a new one comes and it is full. It is
/// a `ringbuf::HeapRb` of `u64`, which is looked into only through the
/// functions below.
#[verifier::external_body]
pub struct FrameTimes {
    ring: HeapRb<u64>,
}

/// The times that a window holds, oldest first.
pub uninterp spec fn window_times(window: FrameTimes) -> Seq<u64>;

/// The number of times that a window can hold.
pub uninterp spec fn window_capacity(window: FrameTimes) -> nat;

/// The times of `times` after one more: the oldest time makes room where
/// the window is full.
pub open spec fn pushed(times: Seq<u64>, capacity: nat, time: u64) -> Seq<u64> {
    if times.len() < capacity {
        times.push(time)
    } else {
        times.drop_first().push(time)
    }
}

/// `ringbuf::HeapRb::new`: an empty ring buffer with room for `capacity`
/// items. It panics where `capacity` is 0.
#[verifier::external_body]
fn window_new(capacity: usize) -> (window: FrameTimes)
    requires
        capacity > 0,
    ensures
        window_times(window) == Seq::<u64>::empty(),
        window_capacity(window) == capacity,
{
    FrameTimes { ring: HeapRb::new(capacity) }
}

/// `ringbuf::Rb::push_overwrite`: puts an item at the back; where the
/// buffer is full, the item at the front is taken out first. The capacity
/// stays, and the buffer never holds more than it.
#[verifier::external_body]
fn window_push(window: &mut FrameTimes, time: u64)
    ensures
        window_times(*final(window)) == pushed(
            window_times(*old(window)),
            window_capacity(*old(window)),
            time,
        ),
        window_capacity(*final(window)) == window_capacity(*old(window)),
        window_times(*final(window)).len() <= window_capacity(*final(window)),
{
    let _ = window.ring.push_overwrite(time);
}

/// `ringbuf::Rb::clear`: takes every item out. The capacity stays.
#[verifier::external_body]
fn window_clear(window: &mut FrameTimes)
    ensures
        window_times(*final(window)) == Seq::<u64>::empty(),
        window_capacity(*final(window)) == window_capacity(*old(window)),
{
    let _ = window.ring.clear();
}

/// `ringbuf::Rb::len`: the number of items in the buffer.
#[verifier::external_body]
fn window_len(window: &FrameTimes) -> (len: usize)
    ensures
        len == window_times(*window).len(),
{
    window.ring.len()
}

/// `ringbuf::Rb::iter`: the items from front to back, which is from the
/// oldest to the newest.
#[verifier::external_body]
fn window_items(window: &FrameTimes) -> (items: Vec<u64>)
    ensures
        items@ == window_times(*window),
{
    window.ring.iter().copied().collect()
}

impl View for FrameTimes {
    type V = Seq<u64>;

    open spec fn view(&self) -> Seq<u64> {
        window_times(*self)
    }
}

/// The sum of `times`.
pub open spec fn total(times: Seq<u64>) -> int
    decreases times.len(),
{
    if times.len() == 0 {
        0
    } else {
        total(times.drop_last()) + times.last()
    }
}

/// Whole frames per second where `frames` frames take `nanos` nanoseconds,
/// capped at `u32::MAX`; frames that take no time give the cap.
pub open spec fn rate_of(frames: int, nanos: int) -> int {
    if nanos <= 0 || frames * 1_000_000_000 / nanos > u32::MAX {
        u32::MAX as int
    } else {
        frames * 1_000_000_000 / nanos
    }
}

/// The frame rate that the newest time of `times` stands for, 0 where there
/// is none.
pub open spec fn instantaneous_rate(times: Seq<u64>) -> int {
    if times.len() == 0 {
        0
    } else {
        rate_of(1, times.last() as int)
    }
}

/// The frame rate that all of `times` stand for, 0 where there are none.
pub open spec fn average_rate(times: Seq<u64>) -> int {
    if times.len() == 0 {
        0
    } else {
        rate_of(times.len() as int, total(times))
    }
}

fn rate(frames: u64, nanos: u128) -> (fps: u32)
    ensures
        fps == rate_of(frames as int, nanos as int),
{
    if nanos == 0 {
        return u32::MAX;
    }
    let scaled: u128 = frames as u128 * 1_000_000_000;
    let fps: u128 = scaled / nanos;
    if fps > u32::MAX as u128 {
        u32::MAX
    } else {
        fps as u32
    }
}

impl FrameTimes {
    /// An empty window for `capacity` times.
    pub fn new(capacity: usize) -> (window: Self)
        requires
            capacity > 0,
        ensures
            window@ == Seq::<u64>::empty(),
            window_capacity(window) == capacity,
    {
        window_new(capacity)
    }

    /// Takes in the time of one more frame.
    pub fn push(&mut self, time: u64)
        ensures
            final(self)@ == pushed(old(self)@, window_capacity(*old(self)), time),
            window_capacity(*final(self)) == window_capacity(*old(self)),
            final(self)@.len() <= window_capacity(*final(self)),
    {
        window_push(self, time)
    }

    /// Forgets every time.
    pub fn clear(&mut self)
        ensures
            final(self)@ == Seq::<u64>::empty(),
            window_capacity(*final(self)) == window_capacity(*old(self)),
    {
        window_clear(self)
    }

    /// The number of times in the window.
    pub fn len(&self) -> (len: usize)
        ensures
            len == self@.len(),
    {
        window_len(self)
    }

    /// Whether the window holds no time.
    pub fn is_empty(&self) -> (empty: bool)
        ensures
            empty == (self@.len() == 0),
    {
        window_len(self) == 0
    }

    /// The times, oldest first.
    pub fn times(&self) -> (items: Vec<u64>)
        ensures
            items@ == self@,
    {
        window_items(self)
    }

    /// The frame rate of the newest frame.
    pub fn instantaneous_fps(&self) -> (fps: u32)
        ensures
            fps == instantaneous_rate(self@),
    {
        let items = window_items(self);
        if items.len() == 0 {
            0
        } else {
            rate(1, items[items.len() - 1] as u128)
        }
    }

    /// The frame rate over the whole window.
    pub fn average_fps(&self) -> (fps: u32)
        ensures
            fps == average_rate(self@),
    {
        let items = window_items(self);
        if items.len() == 0 {
            return 0;
        }
        let mut sum: u128 = 0;
        let mut i: usize = 0;
        while i < items.len()
            invariant
                i <= items@.len(),
                sum == total(items@.take(i as int)),
                sum <= i * u64::MAX,
            decreases items@.len() - i,
        {
            proof {
                let longer = items@.take(i + 1);
                assert(longer.drop_last() =~= items@.take(i as int));
                assert(longer.last() == items@[i as int]);
                assert((i + 1) * u64::MAX == i * u64::MAX + u64::MAX) by (nonlinear_arith);
                assert(i * u64::MAX <= usize::MAX * u64::MAX) by (nonlinear_arith)
                    requires
                        i <= usize::MAX,
                ;
            }
            sum = sum + items[i] as u128;
            i = i + 1;
        }
        assert(items@.take(i as int) =~= items@);
        rate(items.len() as u64, sum)
    }
}

} // verus!
