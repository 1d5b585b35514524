use vstd::prelude::*;

verus! {

/// Magnitude of one color channel: an accumulated hit count.
pub type Count = u64;

/// Names one channel of a color value.
#[derive(Clone, Copy, Debug, PartialEq, Eq, Structural)]
pub enum ColorChannel {
    Red,
    Green,
    Blue,
}

impl ColorChannel {
    /// Position of the channel in an RGB triple.
    pub open spec fn slot(self) -> nat {
        match self {
            ColorChannel::Red => 0,
            ColorChannel::Green => 1,
            ColorChannel::Blue => 2,
        }
    }
}

/// Every channel of a color of `arity` channels at zero.
pub open spec fn zeros(arity: nat) -> Seq<int> {
    Seq::new(arity, |i: int| 0int)
}

/// The color of `arity` channels whose channel at `slot` is one and the rest zero.
pub open spec fn unit(arity: nat, slot: nat) -> Seq<int> {
    Seq::new(arity, |i: int| if i == slot { 1int } else { 0int })
}

/// Where a channel lands in a color of `arity` channels: a single-channel
/// (grayscale) color takes every channel in its only slot.
pub open spec fn slot_in(arity: nat, channel: ColorChannel) -> nat {
    if arity == 1 {
        0
    } else {
        channel.slot()
    }
}

/// Every channel of `a` lies in the range of `Count`.
pub open spec fn in_range(a: Seq<int>) -> bool {
    forall|i: int| 0 <= i < a.len() ==> 0 <= #[trigger] a[i] <= Count::MAX
}

/// The channel-wise sums of `a` and `b` all fit in a `Count`.
pub open spec fn sums_fit(a: Seq<int>, b: Seq<int>) -> bool {
    &&& a.len() == b.len()
    &&& forall|i: int| 0 <= i < a.len() ==> #[trigger] a[i] + b[i] <= Count::MAX
}

/// Channel-wise sum.
pub open spec fn pointwise_sum(a: Seq<int>, b: Seq<int>) -> Seq<int> {
    Seq::new(a.len(), |i: int| a[i] + b[i])
}

/// Channel-wise maximum.
pub open spec fn pointwise_max(a: Seq<int>, b: Seq<int>) -> Seq<int> {
    Seq::new(a.len(), |i: int| if a[i] >= b[i] { a[i] } else { b[i] })
}

/// Channel-wise division, rounding down.
pub open spec fn pointwise_div(a: Seq<int>, b: Seq<int>) -> Seq<int> {
    Seq::new(a.len(), |i: int| a[i] / b[i])
}

/// No channel of `a` is zero.
pub open spec fn all_nonzero(a: Seq<int>) -> bool {
    forall|i: int| 0 <= i < a.len() ==> #[trigger] a[i] != 0
}

/// The RGB triple shown for a color: a grayscale value is repeated in all three
/// slots, and the channels that a color lacks read as zero.
pub open spec fn rgb_of(a: Seq<int>) -> (int, int, int) {
    if a.len() == 1 {
        (a[0], a[0], a[0])
    } else if a.len() == 2 {
        (a[0], a[1], 0)
    } else {
        (a[0], a[1], a[2])
    }
}

/// The channel-wise sums of two colors of one arity fit exactly where the
/// sums of their RGB triples do.
pub proof fn lemma_rgb_sums_fit(a: Seq<int>, b: Seq<int>)
    requires
        a.len() == b.len(),
        1 <= a.len() <= 3,
    ensures
        sums_fit(a, b) <==> (rgb_of(a).0 + rgb_of(b).0 <= Count::MAX && rgb_of(a).1 + rgb_of(b).1
            <= Count::MAX && rgb_of(a).2 + rgb_of(b).2 <= Count::MAX),
{
    if sums_fit(a, b) {
        assert(a[0] + b[0] <= Count::MAX);
        if a.len() >= 2 {
            assert(a[1] + b[1] <= Count::MAX);
        }
        if a.len() == 3 {
            assert(a[2] + b[2] <= Count::MAX);
        }
    }
}

/// A color value of fixed arity (one, two or three channels) that accumulates
/// hits channel by channel.
pub trait Color: Sized + Copy {
    /// The channels of the value, in order.
    spec fn channels(&self) -> Seq<int>;

    /// The number of channels of this color type.
    spec fn arity() -> nat;

    /// Whether `one` accepts `channel` for this color type.
    spec fn has_channel(channel: ColorChannel) -> bool;

    proof fn lemma_channels(c: Self)
        ensures
            c.channels().len() == Self::arity(),
            1 <= Self::arity() <= 3,
            in_range(c.channels()),
            Self::has_channel(ColorChannel::Red),
            forall|ch: ColorChannel|
                Self::arity() > 1 && #[trigger] Self::has_channel(ch) ==> ch.slot() < Self::arity(),
    ;

    proof fn lemma_channels_determine(a: Self, b: Self)
        requires
            a.channels() == b.channels(),
        ensures
            a == b,
    ;

    /// The additive identity: all channels zero.
    fn empty() -> (r: Self)
        ensures
            r.channels() == zeros(Self::arity()),
    ;

    /// Adds `rhs` channel by channel.
    fn add(&mut self, rhs: Self)
        requires
            sums_fit(old(self).channels(), rhs.channels()),
        ensures
            final(self).channels() == pointwise_sum(old(self).channels(), rhs.channels()),
    ;

    /// The channel-wise maximum.
    fn max(self, rhs: Self) -> (r: Self)
        ensures
            r.channels() == pointwise_max(self.channels(), rhs.channels()),
    ;

    /// Applies `f` to each channel; where `f` returns its argument, the value is
    /// unchanged.
    fn map<F: Fn(Count) -> Count>(self, f: F) -> (r: Self)
        requires
            forall|v: Count| f.requires((v,)),
        ensures
            r.channels().len() == self.channels().len(),
            forall|i: int|
                0 <= i < self.channels().len() ==> f.ensures(
                    (self.channels()[i] as Count,),
                    #[trigger] r.channels()[i] as Count,
                ),
            (forall|v: Count, w: Count| f.ensures((v,), w) ==> w == v) ==> r == self,
    ;

    /// The unit value of `channel`; a channel that this color type lacks (blue
    /// for a red-green color) is refused.
    fn one(channel: ColorChannel) -> (r: Self)
        requires
            Self::has_channel(channel),
        ensures
            r.channels() == unit(Self::arity(), slot_in(Self::arity(), channel)),
    ;

    /// Divides channel by channel, rounding down.
    fn cdiv_assign(&mut self, rhs: Self)
        requires
            all_nonzero(rhs.channels()),
        ensures
            final(self).channels() == pointwise_div(old(self).channels(), rhs.channels()),
    ;

    /// The RGB triple shown for the value.
    fn to_tuple_rgb(self) -> (r: (Count, Count, Count))
        ensures
            (r.0 as int, r.1 as int, r.2 as int) == rgb_of(self.channels()),
    ;
}

/// A single-channel (grayscale) color is a bare count.
impl Color for Count {
    open spec fn channels(&self) -> Seq<int> {
        seq![*self as int]
    }

    open spec fn arity() -> nat {
        1
    }

    open spec fn has_channel(channel: ColorChannel) -> bool {
        true
    }

    proof fn lemma_channels(c: Self) {
    }

    proof fn lemma_channels_determine(a: Self, b: Self) {
        assert(a.channels()[0] == a as int);
        assert(b.channels()[0] == b as int);
    }

    fn empty() -> (r: Self) {
        proof {
            assert(seq![0int] =~= zeros(1));
        }
        0
    }

    fn add(&mut self, rhs: Self) {
        proof {
            assert(old(self).channels()[0] + rhs.channels()[0] <= Count::MAX);
        }
        *self = *self + rhs;
        proof {
            assert(final(self).channels() =~= pointwise_sum(old(self).channels(), rhs.channels()));
        }
    }

    fn max(self, rhs: Self) -> (r: Self) {
        let r = if self >= rhs { self } else { rhs };
        proof {
            assert(r.channels() =~= pointwise_max(self.channels(), rhs.channels()));
        }
        r
    }

    fn map<F: Fn(Count) -> Count>(self, f: F) -> (r: Self) {
        f(self)
    }

    fn one(channel: ColorChannel) -> (r: Self) {
        proof {
            assert(seq![1int] =~= unit(1, 0));
        }
        1
    }

    fn cdiv_assign(&mut self, rhs: Self) {
        assert(rhs.channels()[0] != 0);
        *self = *self / rhs;
        proof {
            assert(final(self).channels() =~= pointwise_div(old(self).channels(), rhs.channels()));
        }
    }

    fn to_tuple_rgb(self) -> (r: (Count, Count, Count)) {
        (self, self, self)
    }
}

/// A two-channel color: red and green.
#[derive(Clone, Copy, Debug, PartialEq, Eq, Structural)]
pub struct Rg {
    pub r: Count,
    pub g: Count,
}

impl Rg {
    /// Builds a red-green color from its two channels.
    pub fn new(r: Count, g: Count) -> (c: Rg)
        ensures
            c.r == r,
            c.g == g,
    {
        Rg { r, g }
    }
}

impl From<(Count, Count)> for Rg {
    fn from(value: (Count, Count)) -> (r: Rg) {
        Rg { r: value.0, g: value.1 }
    }
}

impl vstd::std_specs::convert::FromSpecImpl<(Count, Count)> for Rg {
    open spec fn obeys_from_spec() -> bool {
        true
    }

    open spec fn from_spec(v: (Count, Count)) -> Rg {
        Rg { r: v.0, g: v.1 }
    }
}

impl Color for Rg {
    open spec fn channels(&self) -> Seq<int> {
        seq![self.r as int, self.g as int]
    }

    open spec fn arity() -> nat {
        2
    }

    open spec fn has_channel(channel: ColorChannel) -> bool {
        channel != ColorChannel::Blue
    }

    proof fn lemma_channels(c: Self) {
    }

    proof fn lemma_channels_determine(a: Self, b: Self) {
        assert(a.channels()[0] == b.channels()[0]);
        assert(a.channels()[1] == b.channels()[1]);
    }

    fn empty() -> (r: Self) {
        let r = Self::new(0, 0);
        proof {
            assert(r.channels() =~= zeros(2));
        }
        r
    }

    fn add(&mut self, rhs: Self) {
        proof {
            assert(old(self).channels()[0] + rhs.channels()[0] <= Count::MAX);
            assert(old(self).channels()[1] + rhs.channels()[1] <= Count::MAX);
        }
        self.r = self.r + rhs.r;
        self.g = self.g + rhs.g;
        proof {
            assert(final(self).channels() =~= pointwise_sum(old(self).channels(), rhs.channels()));
        }
    }

    fn max(self, rhs: Self) -> (r: Self) {
        let r = Rg {
            r: if self.r >= rhs.r { self.r } else { rhs.r },
            g: if self.g >= rhs.g { self.g } else { rhs.g },
        };
        proof {
            assert(r.channels() =~= pointwise_max(self.channels(), rhs.channels()));
        }
        r
    }

    fn map<F: Fn(Count) -> Count>(self, f: F) -> (r: Self) {
        let r = Rg { r: f(self.r), g: f(self.g) };
        assert(r.channels()[0] == r.r && r.channels()[1] == r.g);
        r
    }

    fn one(channel: ColorChannel) -> (r: Self) {
        let r = match channel {
            ColorChannel::Red => Self::new(1, 0),
            ColorChannel::Green => Self::new(0, 1),
            ColorChannel::Blue => vstd::pervasive::unreached(),
        };
        proof {
            assert(r.channels() =~= unit(2, slot_in(2, channel)));
        }
        r
    }

    fn cdiv_assign(&mut self, rhs: Self) {
        assert(rhs.channels()[0] != 0 && rhs.channels()[1] != 0);
        self.r = self.r / rhs.r;
        self.g = self.g / rhs.g;
        proof {
            assert(final(self).channels() =~= pointwise_div(old(self).channels(), rhs.channels()));
        }
    }

    fn to_tuple_rgb(self) -> (r: (Count, Count, Count)) {
        (self.r, self.g, 0)
    }
}

/// A three-channel color: red, green and blue.
#[derive(Clone, Copy, Debug, PartialEq, Eq, Structural)]
pub struct Rgb {
    pub r: Count,
    pub g: Count,
    pub b: Count,
}

impl Rgb {
    /// Builds a red-green-blue color from its three channels.
    pub fn new(r: Count, g: Count, b: Count) -> (c: Rgb)
        ensures
            c.r == r,
            c.g == g,
            c.b == b,
    {
        Rgb { r, g, b }
    }
}

impl From<(Count, Count, Count)> for Rgb {
    fn from(value: (Count, Count, Count)) -> (r: Rgb) {
        Rgb { r: value.0, g: value.1, b: value.2 }
    }
}

impl vstd::std_specs::convert::FromSpecImpl<(Count, Count, Count)> for Rgb {
    open spec fn obeys_from_spec() -> bool {
        true
    }

    open spec fn from_spec(v: (Count, Count, Count)) -> Rgb {
        Rgb { r: v.0, g: v.1, b: v.2 }
    }
}

impl From<Rgb> for (Count, Count, Count) {
    fn from(value: Rgb) -> (r: (Count, Count, Count)) {
        (value.r, value.g, value.b)
    }
}

impl vstd::std_specs::convert::FromSpecImpl<Rgb> for (Count, Count, Count) {
    open spec fn obeys_from_spec() -> bool {
        true
    }

    open spec fn from_spec(v: Rgb) -> (Count, Count, Count) {
        (v.r, v.g, v.b)
    }
}

impl Color for Rgb {
    open spec fn channels(&self) -> Seq<int> {
        seq![self.r as int, self.g as int, self.b as int]
    }

    open spec fn arity() -> nat {
        3
    }

    open spec fn has_channel(channel: ColorChannel) -> bool {
        true
    }

    proof fn lemma_channels(c: Self) {
    }

    proof fn lemma_channels_determine(a: Self, b: Self) {
        assert(a.channels()[0] == b.channels()[0]);
        assert(a.channels()[1] == b.channels()[1]);
        assert(a.channels()[2] == b.channels()[2]);
    }

    fn empty() -> (r: Self) {
        let r = Self::new(0, 0, 0);
        proof {
            assert(r.channels() =~= zeros(3));
        }
        r
    }

    fn add(&mut self, rhs: Self) {
        proof {
            assert(old(self).channels()[0] + rhs.channels()[0] <= Count::MAX);
            assert(old(self).channels()[1] + rhs.channels()[1] <= Count::MAX);
            assert(old(self).channels()[2] + rhs.channels()[2] <= Count::MAX);
        }
        self.r = self.r + rhs.r;
        self.g = self.g + rhs.g;
        self.b = self.b + rhs.b;
        proof {
            assert(final(self).channels() =~= pointwise_sum(old(self).channels(), rhs.channels()));
        }
    }

    fn max(self, rhs: Self) -> (r: Self) {
        let r = Rgb {
            r: if self.r >= rhs.r { self.r } else { rhs.r },
            g: if self.g >= rhs.g { self.g } else { rhs.g },
            b: if self.b >= rhs.b { self.b } else { rhs.b },
        };
        proof {
            assert(r.channels() =~= pointwise_max(self.channels(), rhs.channels()));
        }
        r
    }

    fn map<F: Fn(Count) -> Count>(self, f: F) -> (r: Self) {
        let r = Rgb { r: f(self.r), g: f(self.g), b: f(self.b) };
        assert(r.channels()[0] == r.r && r.channels()[1] == r.g && r.channels()[2] == r.b);
        r
    }

    fn one(channel: ColorChannel) -> (r: Self) {
        let r = match channel {
            ColorChannel::Red => Self::new(1, 0, 0),
            ColorChannel::Green => Self::new(0, 1, 0),
            ColorChannel::Blue => Self::new(0, 0, 1),
        };
        proof {
            assert(r.channels() =~= unit(3, slot_in(3, channel)));
        }
        r
    }

    fn cdiv_assign(&mut self, rhs: Self) {
        assert(rhs.channels()[0] != 0 && rhs.channels()[1] != 0 && rhs.channels()[2] != 0);
        self.r = self.r / rhs.r;
        self.g = self.g / rhs.g;
        self.b = self.b / rhs.b;
        proof {
            assert(final(self).channels() =~= pointwise_div(old(self).channels(), rhs.channels()));
        }
    }

    fn to_tuple_rgb(self) -> (r: (Count, Count, Count)) {
        (self.r, self.g, self.b)
    }
}

/// Adding an empty value on either side leaves a color unchanged: where `e`
/// is empty, `left` is `e` plus `x` and `right` is `x` plus `e`, both are `x`.
pub proof fn lemma_empty_is_identity<C: Color>(x: C, e: C, left: C, right: C)
    requires
        e.channels() == zeros(C::arity()),
        left.channels() == pointwise_sum(e.channels(), x.channels()),
        right.channels() == pointwise_sum(x.channels(), e.channels()),
    ensures
        sums_fit(e.channels(), x.channels()),
        sums_fit(x.channels(), e.channels()),
        left == x,
        right == x,
{
    C::lemma_channels(x);
    assert(left.channels() =~= x.channels());
    assert(right.channels() =~= x.channels());
    C::lemma_channels_determine(left, x);
    C::lemma_channels_determine(right, x);
}

/// The RGB triple of the unit value of a channel, for a color type of two or
/// three channels: one in that channel's position and zero in the others.
pub proof fn lemma_unit_shows_one_channel<C: Color>(channel: ColorChannel, u: C)
    requires
        C::arity() >= 2,
        C::has_channel(channel),
        u.channels() == unit(C::arity(), slot_in(C::arity(), channel)),
    ensures
        rgb_of(u.channels()) == (
            if channel.slot() == 0 { 1int } else { 0int },
            if channel.slot() == 1 { 1int } else { 0int },
            if channel.slot() == 2 { 1int } else { 0int },
        ),
{
    C::lemma_channels(u);
}

} // verus!
