//! The instance buffer of the rectangles: what is uploaded for a frame, how
//! the buffer grows, and which instances each layer draws.
//!
//! A coordinate is held here as its bit pattern, a `u32`, which is also what
//! is uploaded.

use vstd::prelude::*;

verus! {

/// Bytes per instance: four words of rectangle and four of colour.
pub const INSTANCE_SIZE: u64 = 32;

/// The instances the buffer has room for before it first grows.
pub const FIRST_CAPACITY: u64 = 256;

/// The bit pattern of positive infinity: the largest that stands for a number
/// above zero.
pub const INFINITY: u32 = 0x7f80_0000;

/// One rectangle: where it lies, its linear colour, and how opaque it is.
#[derive(Copy, Clone, Debug, PartialEq, Eq, Structural)]
pub struct QuadBits {
    pub x: u32,
    pub y: u32,
    pub width: u32,
    pub height: u32,
    pub red: u32,
    pub green: u32,
    pub blue: u32,
    pub opacity: u32,
    /// The opacity of the colour as it was given; 0 is wholly transparent.
    pub alpha: u8,
}

/// Whether a bit pattern stands for a number above zero.
pub open spec fn above_zero(bits: u32) -> bool {
    0 < bits <= INFINITY
}

/// Whether a rectangle would put anything on screen.
pub open spec fn visible(quad: QuadBits) -> bool {
    above_zero(quad.width) && above_zero(quad.height) && quad.alpha != 0
}

/// Whether a rectangle would put anything on screen.
pub fn is_visible(quad: &QuadBits) -> (r: bool)
    ensures
        r == visible(*quad),
{
    0 < quad.width && quad.width <= INFINITY && 0 < quad.height && quad.height <= INFINITY
        && quad.alpha != 0
}

/// The four bytes of a word, the lowest first.
pub open spec fn word_bytes(word: u32) -> Seq<u8> {
    seq![
        (word % 256) as u8,
        (word / 256 % 256) as u8,
        (word / 65536 % 256) as u8,
        (word / 16777216) as u8,
    ]
}

/// The bytes of the words, one after the other.
pub open spec fn words_bytes(words: Seq<u32>) -> Seq<u8>
    decreases words.len(),
{
    if words.len() == 0 {
        Seq::empty()
    } else {
        words_bytes(words.drop_last()) + word_bytes(words.last())
    }
}

/// The words of an instance, in the order the shader reads them.
pub open spec fn instance_words(quad: QuadBits) -> Seq<u32> {
    seq![
        quad.x,
        quad.y,
        quad.width,
        quad.height,
        quad.red,
        quad.green,
        quad.blue,
        quad.opacity,
    ]
}

/// The visible ones among the rectangles, in their order.
pub open spec fn visible_of(quads: Seq<QuadBits>) -> Seq<QuadBits>
    decreases quads.len(),
{
    if quads.len() == 0 {
        Seq::empty()
    } else {
        let before = visible_of(quads.drop_last());
        if visible(quads.last()) {
            before.push(quads.last())
        } else {
            before
        }
    }
}

/// The words of the rectangles that are visible, in their order.
pub open spec fn staged_words(quads: Seq<QuadBits>) -> Seq<u32>
    decreases quads.len(),
{
    if quads.len() == 0 {
        Seq::empty()
    } else {
        let before = staged_words(quads.drop_last());
        if visible(quads.last()) {
            before + instance_words(quads.last())
        } else {
            before
        }
    }
}

/// Reads the words as bytes, each with its lowest byte first.
pub fn bytes_of_words(words: &Vec<u32>) -> (r: Vec<u8>)
    ensures
        r@ == words_bytes(words@),
        r.len() == 4 * words.len(),
{
    let mut out: Vec<u8> = Vec::new();
    for i in 0..words.len()
        invariant
            out@ == words_bytes(words@.take(i as int)),
            out.len() == 4 * i,
    {
        let word = words[i];
        let ghost before = out@;
        out.push((word % 256) as u8);
        out.push((word / 256 % 256) as u8);
        out.push((word / 65536 % 256) as u8);
        out.push((word / 16777216) as u8);
        assert(out@ =~= before + word_bytes(word));
        assert(words@.take(i + 1).drop_last() =~= words@.take(i as int));
    }
    assert(words@.take(words.len() as int) =~= words@);
    out
}

/// Visible rectangles of two layers are those of the one and of the other.
pub proof fn visible_of_adds(a: Seq<QuadBits>, b: Seq<QuadBits>)
    ensures
        visible_of(a + b) == visible_of(a) + visible_of(b),
    decreases b.len(),
{
    if b.len() == 0 {
        assert(a + b =~= a);
        assert(visible_of(a) + visible_of(b) =~= visible_of(a));
    } else {
        assert((a + b).drop_last() =~= a + b.drop_last());
        visible_of_adds(a, b.drop_last());
        assert(visible_of(a + b) =~= visible_of(a) + visible_of(b));
    }
}

/// Every visible rectangle takes eight words, and no other any.
pub proof fn staged_words_count(quads: Seq<QuadBits>)
    ensures
        staged_words(quads).len() == 8 * visible_of(quads).len(),
        visible_of(quads).len() <= quads.len(),
    decreases quads.len(),
{
    if quads.len() > 0 {
        staged_words_count(quads.drop_last());
    }
}

/// Appends the words of the visible ones among the rectangles, and counts
/// them.
fn stage(out: &mut Vec<u32>, quads: &Vec<QuadBits>, above: Ghost<Seq<QuadBits>>) -> (n: usize)
    requires
        old(out)@ == staged_words(above@),
    ensures
        final(out)@ == staged_words(above@ + quads@),
        n == visible_of(quads@).len(),
{
    let mut n: usize = 0;
    assert(above@ + quads@.take(0) =~= above@);
    for i in 0..quads.len()
        invariant
            out@ == staged_words(above@ + quads@.take(i as int)),
            n == visible_of(quads@.take(i as int)).len(),
            n <= i,
    {
        let quad = quads[i];
        let ghost before = out@;
        proof {
            assert(quads@.take(i + 1).drop_last() =~= quads@.take(i as int));
            assert((above@ + quads@.take(i + 1)).drop_last() =~= above@ + quads@.take(i as int));
            assert((above@ + quads@.take(i + 1)).last() == quad);
        }
        if is_visible(&quad) {
            out.push(quad.x);
            out.push(quad.y);
            out.push(quad.width);
            out.push(quad.height);
            out.push(quad.red);
            out.push(quad.green);
            out.push(quad.blue);
            out.push(quad.opacity);
            assert(out@ =~= before + instance_words(quad));
            n = n + 1;
        }
    }
    assert(quads@.take(quads.len() as int) =~= quads@);
    n
}

/// The least of `p`, twice `p`, four times `p` and so on that is not below `n`.
pub open spec fn doubled_to(p: int, n: int) -> int
    decreases 2 * n - p,
{
    if p <= 0 || p >= n {
        p
    } else {
        doubled_to(2 * p, n)
    }
}

/// The least power of two that is not below `n`.
pub fn power_of_two_from(n: u32) -> (r: u64)
    ensures
        r == doubled_to(1, n as int),
        r >= n,
{
    let mut p: u64 = 1;
    while p < n as u64
        invariant
            1 <= p <= 2 * (u32::MAX as u64),
            doubled_to(p as int, n as int) == doubled_to(1, n as int),
        decreases 2 * n - p,
    {
        p = p * 2;
    }
    p
}

/// Doubling stops at the first power that is enough.
pub proof fn doubling_stops_in_time(p: int, n: int)
    requires
        0 < p,
    ensures
        doubled_to(p, n) >= n,
        doubled_to(p, n) == p || doubled_to(p, n) < 2 * n,
    decreases 2 * n - p,
{
    if p < n {
        doubling_stops_in_time(2 * p, n);
    }
}

/// The instance buffer.
#[derive(Copy, Clone, Debug, PartialEq, Eq, Structural)]
pub struct Instances {
    /// How many instances belong to the base layer; the rest are the overlay.
    pub base_count: u32,
    /// How many instances there is room for.
    pub capacity: u64,
    pub count: u32,
}

/// The capacity after a frame of `count` instances.
pub open spec fn grown(capacity: u64, count: int) -> int {
    if count == 0 || count <= capacity {
        capacity as int
    } else {
        doubled_to(1, count)
    }
}

/// What a frame uploads.
pub struct Upload {
    /// The bytes of the instances, base layer first.
    pub staging: Vec<u8>,
    /// The size in bytes of the buffer to make before uploading, where the old
    /// one is too small.
    pub grow: Option<u64>,
}

impl Instances {
    /// A buffer that holds nothing yet.
    pub fn new() -> (r: Self)
        ensures
            r == (Instances { base_count: 0, capacity: FIRST_CAPACITY, count: 0 }),
    {
        Instances { base_count: 0, capacity: FIRST_CAPACITY, count: 0 }
    }

    /// Whether what was uploaded fits the buffer.
    pub open spec fn sound(&self) -> bool {
        &&& self.base_count <= self.count
        &&& self.count <= self.capacity
        &&& self.capacity * INSTANCE_SIZE <= u64::MAX
    }

    /// Takes this frame's rectangles, base layer first.
    ///
    /// What cannot be seen is left out and not counted.  A frame without a
    /// rectangle uploads nothing, and leaves the buffer as large as it was.
    pub fn prepare(&mut self, base: &Vec<QuadBits>, overlay: &Vec<QuadBits>) -> (r: Upload)
        requires
            old(self).sound(),
            base.len() + overlay.len() <= u32::MAX,
        ensures
            final(self).sound(),
            r.staging@ == words_bytes(staged_words(base@ + overlay@)),
            final(self).count == visible_of(base@ + overlay@).len(),
            final(self).base_count == visible_of(base@).len(),
            final(self).capacity == grown(
                old(self).capacity,
                visible_of(base@ + overlay@).len() as int,
            ),
            r.grow == (if final(self).capacity != old(self).capacity {
                Some((final(self).capacity * INSTANCE_SIZE) as u64)
            } else {
                None
            }),
            r.staging.len() == final(self).count * INSTANCE_SIZE,
    {
        let mut words: Vec<u32> = Vec::new();
        let below = stage(&mut words, base, Ghost(Seq::<QuadBits>::empty()));
        assert(Seq::<QuadBits>::empty() + base@ =~= base@);
        let above = stage(&mut words, overlay, Ghost(base@));
        proof {
            visible_of_adds(base@, overlay@);
            staged_words_count(base@);
            staged_words_count(overlay@);
            staged_words_count(base@ + overlay@);
        }
        let staging = bytes_of_words(&words);
        self.base_count = below as u32;
        self.count = (below + above) as u32;
        let mut grow: Option<u64> = None;
        if self.count as u64 > self.capacity {
            proof {
                doubling_stops_in_time(1, self.count as int);
            }
            self.capacity = power_of_two_from(self.count);
            grow = Some(self.capacity * INSTANCE_SIZE);
        }
        Upload { staging, grow }
    }

    /// The instances of the base layer: the first one and the one past the
    /// last, or `None` when there is nothing to draw.
    pub fn base_range(&self) -> (r: Option<(u32, u32)>)
        ensures
            r == (if self.base_count == 0 {
                None
            } else {
                Some((0u32, self.base_count))
            }),
    {
        if self.base_count == 0 {
            None
        } else {
            Some((0, self.base_count))
        }
    }

    /// The instances that float above the editor, or `None` when there are
    /// none.
    pub fn overlay_range(&self) -> (r: Option<(u32, u32)>)
        ensures
            r == (if self.count <= self.base_count {
                None
            } else {
                Some((self.base_count, self.count))
            }),
    {
        if self.count <= self.base_count {
            None
        } else {
            Some((self.base_count, self.count))
        }
    }

    /// Rectangles uploaded for the last frame.
    pub fn instance_count(&self) -> (r: u32)
        ensures
            r == self.count,
    {
        self.count
    }
}

/// The two layers share the buffer: every uploaded instance is drawn by one of
/// them, and none by both.
pub proof fn the_layers_share_the_buffer(base: Seq<QuadBits>, overlay: Seq<QuadBits>, i: int)
    requires
        0 <= i < visible_of(base + overlay).len(),
    ensures
        i < visible_of(base).len() ==> visible_of(base + overlay)[i] == visible_of(base)[i],
        i >= visible_of(base).len() ==> visible_of(base + overlay)[i] == visible_of(
            overlay,
        )[i - visible_of(base).len()],
{
    visible_of_adds(base, overlay);
}

/// The buffer never shrinks, and grows only when a frame does not fit.
pub proof fn the_buffer_grows_when_it_must(capacity: u64, count: int)
    requires
        0 <= count,
    ensures
        grown(capacity, count) >= capacity,
        grown(capacity, count) >= count,
        grown(capacity, count) > capacity <==> count > capacity,
{
    doubling_stops_in_time(1, count);
}

/// What is drawn is what has an extent both ways and is not wholly
/// transparent, in its order. An extent is a number above zero by its bits.
pub proof fn the_visible_rectangles_are_kept(quads: Seq<QuadBits>)
    ensures
        visible_of(quads) == quads.filter(
            |q: QuadBits|
                0 < q.width <= 0x7f80_0000 && 0 < q.height <= 0x7f80_0000 && q.alpha != 0,
        ),
    decreases quads.len(),
{
    reveal(Seq::filter);
    if quads.len() > 0 {
        the_visible_rectangles_are_kept(quads.drop_last());
    }
}

/// Each visible rectangle has eight words of its own: where it lies, its
/// extent, its colour and how opaque it is, in this order.
pub proof fn a_rectangle_has_its_own_words(quads: Seq<QuadBits>, at: int)
    requires
        0 <= at < visible_of(quads).len(),
    ensures
        ({
            let words = staged_words(quads);
            let quad = visible_of(quads)[at];
            &&& words.len() == 8 * visible_of(quads).len()
            &&& words[8 * at] == quad.x
            &&& words[8 * at + 1] == quad.y
            &&& words[8 * at + 2] == quad.width
            &&& words[8 * at + 3] == quad.height
            &&& words[8 * at + 4] == quad.red
            &&& words[8 * at + 5] == quad.green
            &&& words[8 * at + 6] == quad.blue
            &&& words[8 * at + 7] == quad.opacity
        }),
    decreases quads.len(),
{
    staged_words_count(quads);
    let front = quads.drop_last();
    staged_words_count(front);
    if at < visible_of(front).len() {
        a_rectangle_has_its_own_words(front, at);
    }
}

/// The bytes of the words read back as the words, the lowest byte first.
pub proof fn the_bytes_read_back(words: Seq<u32>, at: int)
    requires
        0 <= at < words.len(),
    ensures
        words_bytes(words).len() == 4 * words.len(),
        words_bytes(words)[4 * at] + 256 * words_bytes(words)[4 * at + 1] + 65536 * words_bytes(
            words,
        )[4 * at + 2] + 16777216 * words_bytes(words)[4 * at + 3] == words[at],
    decreases words.len(),
{
    bytes_are_four_a_word(words);
    let front = words.drop_last();
    bytes_are_four_a_word(front);
    if at < front.len() {
        the_bytes_read_back(front, at);
    }
}

proof fn bytes_are_four_a_word(words: Seq<u32>)
    ensures
        words_bytes(words).len() == 4 * words.len(),
    decreases words.len(),
{
    if words.len() > 0 {
        bytes_are_four_a_word(words.drop_last());
    }
}

/// Whether a number is one of 1, 2, 4, 8 and so on.
pub open spec fn power_of_two(n: int) -> bool
    decreases n,
{
    n == 1 || (n > 1 && n % 2 == 0 && power_of_two(n / 2))
}

proof fn doubling_keeps_powers(p: int, n: int)
    requires
        power_of_two(p),
        p >= 1,
    ensures
        power_of_two(doubled_to(p, n)),
    decreases 2 * n - p,
{
    if p < n {
        assert(2 * p / 2 == p);
        assert(power_of_two(2 * p));
        doubling_keeps_powers(2 * p, n);
    }
}

/// A buffer that has to grow has room for the frame afterwards, for a power of
/// two of instances and for less than twice as many as are needed.
pub proof fn the_buffer_grows_by_doubling(capacity: u64, count: int)
    requires
        count > capacity,
    ensures
        grown(capacity, count) >= count,
        grown(capacity, count) < 2 * count,
        power_of_two(grown(capacity, count)),
{
    doubling_stops_in_time(1, count);
    assert(power_of_two(1));
    doubling_keeps_powers(1, count);
}

} // verus!
