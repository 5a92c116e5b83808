//! A cache of recorded backgrounds: a view records its background once for each size and look, and
//! replays the recording from then on.

use vstd::prelude::*;

verus! {

/// How many draws go into one line of the profile.
pub const PROFILE_WINDOW: u64 = 120;

/// What a recorded background depends on: its size in pixels, a hundred times the scale, and a hash
/// of anything else.
#[derive(Clone, Copy, Debug, PartialEq, Eq, Structural)]
pub struct LayerCacheKey {
    pub width: u32,
    pub height: u32,
    pub scale_x100: u32,
    pub static_hash: u64,
}

/// A number, but at least one.
pub open spec fn at_least_one(n: u32) -> u32 {
    if n == 0 {
        1
    } else {
        n
    }
}

impl LayerCacheKey {
    /// The key of a view of the given size and scale, each rounded to a whole number.
    pub fn from_bounds(width: u32, height: u32, scale_x100: u32, static_hash: u64) -> (r: LayerCacheKey)
        ensures
            r == (LayerCacheKey {
                width: at_least_one(width),
                height: at_least_one(height),
                scale_x100: at_least_one(scale_x100),
                static_hash,
            }),
    {
        LayerCacheKey {
            width: if width == 0 {
                1
            } else {
                width
            },
            height: if height == 0 {
                1
            } else {
                height
            },
            scale_x100: if scale_x100 == 0 {
                1
            } else {
                scale_x100
            },
            static_hash,
        }
    }
}

/// The recordings of a view.
pub struct LayerCache<P> {
    pub layers: Vec<(LayerCacheKey, P)>,
}

/// The recordings by their keys.
pub open spec fn recorded<P>(layers: Seq<(LayerCacheKey, P)>) -> Map<LayerCacheKey, P>
    decreases layers.len(),
{
    if layers.len() == 0 {
        Map::empty()
    } else {
        recorded(layers.drop_last()).insert(layers.last().0, layers.last().1)
    }
}

impl<P> View for LayerCache<P> {
    type V = Map<LayerCacheKey, P>;

    open spec fn view(&self) -> Map<LayerCacheKey, P> {
        recorded(self.layers@)
    }
}

/// No key occurs twice.
pub open spec fn keys_apart<P>(layers: Seq<(LayerCacheKey, P)>) -> bool {
    forall|i: int, j: int|
        0 <= i < j < layers.len() ==> (#[trigger] layers[i]).0 != (#[trigger] layers[j]).0
}

proof fn lemma_recorded<P>(layers: Seq<(LayerCacheKey, P)>)
    requires
        keys_apart(layers),
    ensures
        forall|i: int|
            0 <= i < layers.len() ==> recorded(layers).contains_pair(
                (#[trigger] layers[i]).0,
                layers[i].1,
            ),
        forall|k: LayerCacheKey| #[trigger]
            recorded(layers).contains_key(k) ==> exists|i: int|
                0 <= i < layers.len() && (#[trigger] layers[i]).0 == k,
    decreases layers.len(),
{
    if layers.len() > 0 {
        let d = layers.drop_last();
        lemma_recorded(d);
        assert forall|i: int| 0 <= i < layers.len() implies recorded(layers).contains_pair(
            (#[trigger] layers[i]).0,
            layers[i].1,
        ) by {
            if i < layers.len() - 1 {
                assert(d[i] == layers[i]);
            }
        }
        assert forall|k: LayerCacheKey| #[trigger] recorded(layers).contains_key(k) implies exists|
            i: int,
        |
            0 <= i < layers.len() && (#[trigger] layers[i]).0 == k by {
            if k == layers.last().0 {
                assert(layers[layers.len() - 1].0 == k);
            } else {
                assert(recorded(d).contains_key(k));
                let i = choose|i: int| 0 <= i < d.len() && (#[trigger] d[i]).0 == k;
                assert(layers[i].0 == k);
            }
        }
    }
}

impl<P> LayerCache<P> {
    /// No key has two recordings.
    pub open spec fn wf(&self) -> bool {
        keys_apart(self.layers@)
    }

    /// A cache without recordings.
    pub fn new() -> (r: LayerCache<P>)
        ensures
            r.wf(),
            r@ == Map::<LayerCacheKey, P>::empty(),
    {
        LayerCache { layers: Vec::new() }
    }

    /// The place of the recording for a key.
    pub fn find(&self, key: LayerCacheKey) -> (r: Option<usize>)
        requires
            self.wf(),
        ensures
            match r {
                Some(i) => i < self.layers@.len() && self.layers@[i as int].0 == key
                    && self@.contains_pair(key, self.layers@[i as int].1),
                None => !self@.contains_key(key),
            },
    {
        proof {
            lemma_recorded(self.layers@);
        }
        for i in 0..self.layers.len()
            invariant
                forall|k: int| 0 <= k < i ==> (#[trigger] self.layers@[k]).0 != key,
                forall|i: int|
                    0 <= i < self.layers@.len() ==> self@.contains_pair(
                        (#[trigger] self.layers@[i]).0,
                        self.layers@[i].1,
                    ),
        {
            if self.layers[i].0 == key {
                return Some(i);
            }
        }
        None
    }

    /// Whether a draw with that key leads from one cache to the other and shows the picture
    /// `shown`: a recording that is there is replayed, else one is made and kept.
    pub open spec fn drawn<R: FnOnce() -> P>(
        before: Map<LayerCacheKey, P>,
        key: LayerCacheKey,
        disabled: bool,
        record: R,
        after: Map<LayerCacheKey, P>,
        shown: P,
    ) -> bool {
        if !disabled && before.contains_key(key) {
            after == before && shown == before[key]
        } else {
            call_ensures(record, (), shown) && after == before.insert(key, shown)
        }
    }

    /// Whether a draw leads from one canvas to the other: the picture is replayed first, and what
    /// moves is painted over it, each once.
    pub open spec fn layered<C, S: FnOnce(C, &P) -> C, D: FnOnce(C) -> C>(
        canvas: C,
        shown: P,
        replay: S,
        paint_dynamic: D,
        after: C,
    ) -> bool {
        exists|replayed: C| #[trigger]
            call_ensures(replay, (canvas, &shown), replayed) && call_ensures(
                paint_dynamic,
                (replayed,),
                after,
            )
    }

    /// Draws a view on a canvas: its background from the recording for the key, and then what
    /// moves.
    ///
    /// `record` makes a recording, and is asked only where there is none or the cache is disabled.
    pub fn draw_cached_layer<
        C,
        R: FnOnce() -> P,
        S: FnOnce(C, &P) -> C,
        D: FnOnce(C) -> C,
    >(
        &mut self,
        key: LayerCacheKey,
        disabled: bool,
        canvas: C,
        record: R,
        replay: S,
        paint_dynamic: D,
    ) -> (r: C)
        requires
            old(self).wf(),
            call_requires(record, ()),
            forall|p: &P| call_requires(replay, (canvas, p)),
            forall|c: C| call_requires(paint_dynamic, (c,)),
        ensures
            final(self).wf(),
            exists|shown: P| #[trigger]
                Self::drawn(old(self)@, key, disabled, record, final(self)@, shown)
                    && Self::layered(canvas, shown, replay, paint_dynamic, r),
    {
        let i: usize = self.picture_for(key, disabled, record);
        let ghost shown = self.layers@[i as int].1;
        let replayed: C = replay(canvas, &self.layers[i].1);
        let r: C = paint_dynamic(replayed);
        proof {
            assert(call_ensures(replay, (canvas, &shown), replayed));
            assert(Self::layered(canvas, shown, replay, paint_dynamic, r));
            assert(Self::drawn(old(self)@, key, disabled, record, self@, shown));
        }
        r
    }

    /// The place of the picture to show for a key.
    fn picture_for<R: FnOnce() -> P>(
        &mut self,
        key: LayerCacheKey,
        disabled: bool,
        record: R,
    ) -> (r: usize)
        requires
            old(self).wf(),
            call_requires(record, ()),
        ensures
            final(self).wf(),
            r < final(self).layers@.len(),
            final(self).layers@[r as int].0 == key,
            Self::drawn(
                old(self)@,
                key,
                disabled,
                record,
                final(self)@,
                final(self).layers@[r as int].1,
            ),
    {
        let place: Option<usize> = self.find(key);
        proof {
            lemma_recorded(self.layers@);
        }
        if !disabled {
            if let Some(i) = place {
                return i;
            }
        }
        let picture: P = record();
        let ghost before = self.layers@;
        match place {
            Some(i) => {
                self.layers.set(i, (key, picture));
                proof {
                    lemma_replaced(before, i as int, key, picture);
                }
                i
            },
            None => {
                let i: usize = self.layers.len();
                self.layers.push((key, picture));
                proof {
                    assert(self.layers@.drop_last() =~= before);
                    assert forall|a: int, b: int| 0 <= a < b < self.layers@.len() implies (
                    #[trigger] self.layers@[a]).0 != (#[trigger] self.layers@[b]).0 by {
                        if b == before.len() {
                            assert(recorded(before).contains_pair(before[a].0, before[a].1));
                        }
                    }
                }
                i
            },
        }
    }
}

proof fn lemma_replaced<P>(layers: Seq<(LayerCacheKey, P)>, i: int, key: LayerCacheKey, p: P)
    requires
        keys_apart(layers),
        0 <= i < layers.len(),
        layers[i].0 == key,
    ensures
        keys_apart(layers.update(i, (key, p))),
        recorded(layers.update(i, (key, p))) == recorded(layers).insert(key, p),
    decreases layers.len(),
{
    let next = layers.update(i, (key, p));
    assert forall|a: int, b: int| 0 <= a < b < next.len() implies (#[trigger] next[a]).0 != (
    #[trigger] next[b]).0 by {
        assert(layers[a].0 != layers[b].0);
    }
    let d = layers.drop_last();
    if i == layers.len() - 1 {
        assert(next.drop_last() =~= d);
        assert(recorded(next) =~= recorded(layers).insert(key, p));
    } else {
        lemma_replaced(d, i, key, p);
        assert(next.drop_last() =~= d.update(i, (key, p)));
        assert(layers[i].0 != layers[layers.len() - 1].0);
        assert(recorded(next) =~= recorded(layers).insert(key, p));
    }
}

/// A second draw with the same key shows the same picture without recording anything.
pub proof fn law_a_background_is_recorded_once<P, R: FnOnce() -> P, S: FnOnce() -> P>(
    before: Map<LayerCacheKey, P>,
    key: LayerCacheKey,
    first: R,
    once: Map<LayerCacheKey, P>,
    shown: P,
    second: S,
    twice: Map<LayerCacheKey, P>,
    again: P,
)
    requires
        LayerCache::<P>::drawn(before, key, false, first, once, shown),
        LayerCache::<P>::drawn(once, key, false, second, twice, again),
    ensures
        again == shown,
        twice == once,
{
}

/// Over two draws with the same key the canvas gets the same picture each time, recorded at most
/// once, and what moves is painted over it once in each.
pub proof fn law_the_overlay_comes_last<
    P,
    C,
    R: FnOnce() -> P,
    S: FnOnce(C, &P) -> C,
    D: FnOnce(C) -> C,
    R2: FnOnce() -> P,
    S2: FnOnce(C, &P) -> C,
    D2: FnOnce(C) -> C,
>(
    before: Map<LayerCacheKey, P>,
    key: LayerCacheKey,
    canvas: C,
    record: R,
    replay: S,
    paint: D,
    once: Map<LayerCacheKey, P>,
    shown: P,
    first: C,
    record2: R2,
    replay2: S2,
    paint2: D2,
    twice: Map<LayerCacheKey, P>,
    again: P,
    second: C,
)
    requires
        LayerCache::<P>::drawn(before, key, false, record, once, shown),
        LayerCache::<P>::layered(canvas, shown, replay, paint, first),
        LayerCache::<P>::drawn(once, key, false, record2, twice, again),
        LayerCache::<P>::layered(first, again, replay2, paint2, second),
    ensures
        again == shown,
        twice == once,
        before.contains_key(key) ==> once == before && shown == before[key],
        LayerCache::<P>::layered(first, shown, replay2, paint2, second),
{
}

/// The time spent on recording, drawing and replaying since the last line of the profile.
#[derive(Clone, Copy, Debug, PartialEq, Eq, Structural)]
pub struct LayerProfile {
    pub calls: u64,
    pub static_us: u64,
    pub dynamic_us: u64,
    pub replay_us: u64,
}

/// The sum of two counters, which start again at zero past their end.
pub open spec fn counted(a: u64, b: u64) -> u64 {
    if a + b > u64::MAX {
        (a + b - 0x1_0000_0000_0000_0000) as u64
    } else {
        (a + b) as u64
    }
}

impl LayerProfile {
    /// Nothing was drawn.
    pub fn new() -> (r: LayerProfile)
        ensures
            r == (LayerProfile { calls: 0, static_us: 0, dynamic_us: 0, replay_us: 0 }),
    {
        LayerProfile { calls: 0, static_us: 0, dynamic_us: 0, replay_us: 0 }
    }

    /// Takes in the times of a draw.
    pub open spec fn added(self, static_us: u64, dynamic_us: u64, replay_us: u64) -> LayerProfile {
        LayerProfile {
            calls: counted(self.calls, 1),
            static_us: counted(self.static_us, static_us),
            dynamic_us: counted(self.dynamic_us, dynamic_us),
            replay_us: counted(self.replay_us, replay_us),
        }
    }

    /// Takes in the times of a draw.  Every [`PROFILE_WINDOW`] draws gives the sums for a line of the
    /// profile, which start again.
    pub fn report_profile(&mut self, static_us: u64, dynamic_us: u64, replay_us: u64) -> (r: Option<
        LayerProfile,
    >)
        ensures
            ({
                let sums = old(self).added(static_us, dynamic_us, replay_us);
                if sums.calls % PROFILE_WINDOW == 0 {
                    &&& r == Some(sums)
                    &&& *final(self) == (LayerProfile {
                        calls: sums.calls,
                        static_us: 0,
                        dynamic_us: 0,
                        replay_us: 0,
                    })
                } else {
                    r is None && *final(self) == sums
                }
            }),
    {
        self.static_us = self.static_us.wrapping_add(static_us);
        self.dynamic_us = self.dynamic_us.wrapping_add(dynamic_us);
        self.replay_us = self.replay_us.wrapping_add(replay_us);
        self.calls = self.calls.wrapping_add(1);
        if self.calls % PROFILE_WINDOW == 0 {
            let sums: LayerProfile = *self;
            self.static_us = 0;
            self.dynamic_us = 0;
            self.replay_us = 0;
            Some(sums)
        } else {
            None
        }
    }
}

} // verus!
