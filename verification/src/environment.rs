use vstd::prelude::*;
use crate::ast::Ident;

verus! {

/// A scoped table of bindings: a stack of frames, the innermost last.
/// A binding made later hides the ones made earlier for the same name.
pub struct Environment<V> {
    frames: Vec<Vec<(Ident, V)>>,
}

/// The value bound to `k` in a frame: the last one bound.
pub open spec fn frame_get<V>(f: Seq<(Ident, V)>, k: Ident) -> Option<V>
    decreases f.len(),
{
    if f.len() == 0 {
        None
    } else if f.last().0 == k {
        Some(f.last().1)
    } else {
        frame_get(f.drop_last(), k)
    }
}

/// The binding of `k` in a stack of frames: the one of the innermost frame that
/// binds `k`, with the number of frames above that one.
pub open spec fn env_get<V>(frames: Seq<Seq<(Ident, V)>>, k: Ident) -> Option<(nat, V)>
    decreases frames.len(),
{
    if frames.len() == 0 {
        None
    } else {
        match frame_get(frames.last(), k) {
            Some(v) => Some((0, v)),
            None => match env_get(frames.drop_last(), k) {
                Some((d, v)) => Some((d + 1, v)),
                None => None,
            },
        }
    }
}

/// A lookup result, seen from `d` frames further out.
pub open spec fn shift<V>(r: Option<(nat, V)>, d: nat) -> Option<(nat, V)> {
    match r {
        Some((e, v)) => Some((e + d, v)),
        None => None,
    }
}

impl<V> View for Environment<V> {
    type V = Seq<Seq<(Ident, V)>>;

    closed spec fn view(&self) -> Seq<Seq<(Ident, V)>> {
        Seq::new(self.frames@.len(), |i: int| self.frames@[i]@)
    }
}

impl<V> Environment<V> {
    /// An environment with no frame.
    pub fn new() -> (env: Self)
        ensures
            env@ == Seq::<Seq<(Ident, V)>>::empty(),
    {
        let env = Environment { frames: Vec::new() };
        assert(env@ =~= Seq::<Seq<(Ident, V)>>::empty());
        env
    }

    /// Opens a new, empty, innermost frame.
    pub fn begin_frame(&mut self)
        ensures
            final(self)@ == old(self)@.push(Seq::empty()),
    {
        self.frames.push(Vec::new());
        assert(self@ =~= old(self)@.push(Seq::empty()));
    }

    /// Closes the innermost frame, with its bindings.
    pub fn end_frame(&mut self)
        requires
            old(self)@.len() > 0,
        ensures
            final(self)@ == old(self)@.drop_last(),
    {
        self.frames.pop();
        assert(self@ =~= old(self)@.drop_last());
    }

    /// Binds `k` to `v` in the innermost frame.
    pub fn insert(&mut self, k: Ident, v: V)
        requires
            old(self)@.len() > 0,
        ensures
            final(self)@ == old(self)@.update(
                old(self)@.len() - 1,
                old(self)@.last().push((k, v)),
            ),
    {
        let last = self.frames.len() - 1;
        let mut frame = self.frames.pop().unwrap();
        frame.push((k, v));
        self.frames.push(frame);
        assert(self@ =~= old(self)@.update(
            old(self)@.len() - 1,
            old(self)@.last().push((k, v)),
        ));
    }

    /// The binding of `k` (see [`env_get`]), with the number of frames above the
    /// one that holds it.
    pub fn get(&self, k: &Ident) -> (r: Option<(usize, &V)>)
        ensures
            match r {
                Some((d, v)) => env_get(self@, *k) == Some((d as nat, *v)),
                None => env_get(self@, *k) is None,
            },
    {
        let n = self.frames.len();
        let mut i = n;
        assert(self@.subrange(0, n as int) =~= self@);
        while i > 0
            invariant
                i <= n,
                n == self@.len(),
                n == self.frames@.len(),
                forall|m: int| 0 <= m < n ==> #[trigger] self@[m] == self.frames@[m]@,
                env_get(self@, *k) == shift(env_get(self@.subrange(0, i as int), *k), (n - i) as nat),
            decreases i,
        {
            let frame = &self.frames[i - 1];
            let ghost fs = self@.subrange(0, i as int);
            assert(fs.last() == frame@);
            assert(fs.drop_last() =~= self@.subrange(0, i - 1));
            match frame_lookup(frame, k) {
                Some(v) => {
                    return Some((n - i, v));
                },
                None => {},
            }
            i = i - 1;
        }
        assert(self@.subrange(0, 0) =~= Seq::<Seq<(Ident, V)>>::empty());
        None
    }
}

/// The value bound to `k` in a frame (see [`frame_get`]).
fn frame_lookup<'a, V>(frame: &'a Vec<(Ident, V)>, k: &Ident) -> (r: Option<&'a V>)
    ensures
        match r {
            Some(v) => frame_get(frame@, *k) == Some(*v),
            None => frame_get(frame@, *k) is None,
        },
{
    let mut j = frame.len();
    assert(frame@.subrange(0, j as int) =~= frame@);
    while j > 0
        invariant
            j <= frame@.len(),
            frame_get(frame@, *k) == frame_get(frame@.subrange(0, j as int), *k),
        decreases j,
    {
        let ghost f = frame@.subrange(0, j as int);
        assert(f.drop_last() =~= frame@.subrange(0, j - 1));
        if frame[j - 1].0 == *k {
            return Some(&frame[j - 1].1);
        }
        j = j - 1;
    }
    None
}

/// A binding made in the innermost frame is what a lookup finds, at depth 0.
pub proof fn lemma_get_after_insert<V>(frames: Seq<Seq<(Ident, V)>>, k: Ident, v: V)
    requires
        frames.len() > 0,
    ensures
        env_get(frames.update(frames.len() - 1, frames.last().push((k, v))), k) == Some((0nat, v)),
{
    let f2 = frames.update(frames.len() - 1, frames.last().push((k, v)));
    assert(f2.last() == frames.last().push((k, v)));
}

/// A binding for one name leaves the lookup of every other name as it was.
pub proof fn lemma_get_after_insert_other<V>(
    frames: Seq<Seq<(Ident, V)>>,
    k: Ident,
    v: V,
    other: Ident,
)
    requires
        frames.len() > 0,
        other != k,
    ensures
        env_get(frames.update(frames.len() - 1, frames.last().push((k, v))), other) == env_get(
            frames,
            other,
        ),
{
    let f2 = frames.update(frames.len() - 1, frames.last().push((k, v)));
    assert(f2.last().drop_last() =~= frames.last());
    assert(f2.drop_last() =~= frames.drop_last());
}

/// Opening a frame and closing it again gives back the environment as it was.
pub proof fn lemma_frame_roundtrip<V>(frames: Seq<Seq<(Ident, V)>>)
    ensures
        frames.push(Seq::empty()).drop_last() == frames,
{
    assert(frames.push(Seq::empty()).drop_last() =~= frames);
}

/// Opening a frame changes no lookup, except for the depth, one more.
pub proof fn lemma_get_in_new_frame<V>(frames: Seq<Seq<(Ident, V)>>, k: Ident)
    ensures
        env_get(frames.push(Seq::empty()), k) == match env_get(frames, k) {
            Some((d, v)) => Some((d + 1, v)),
            None => None,
        },
{
    assert(frames.push(Seq::empty()).drop_last() =~= frames);
}

} // verus!

verus! {

/// What a lookup finds was bound in some frame.
pub proof fn lemma_env_get_mem<V>(frames: Seq<Seq<(Ident, V)>>, k: Ident)
    ensures
        env_get(frames, k) matches Some((d, v)) ==> exists|i: int, j: int|
            0 <= i < frames.len() && 0 <= j < frames[i].len() && #[trigger] frames[i][j] == (k, v),
    decreases frames.len(),
{
    if frames.len() > 0 {
        lemma_frame_get_mem(frames.last(), k);
        lemma_env_get_mem(frames.drop_last(), k);
        if let Some((d, v)) = env_get(frames, k) {
            if frame_get(frames.last(), k) is Some {
                let j = choose|j: int| 0 <= j < frames.last().len() && #[trigger] frames.last()[j] == (k, v);
                assert(frames[frames.len() - 1][j] == (k, v));
            } else {
                let (i, j) = choose|i: int, j: int|
                    0 <= i < frames.drop_last().len() && 0 <= j < frames.drop_last()[i].len()
                        && #[trigger] frames.drop_last()[i][j] == (k, v);
                assert(frames[i][j] == (k, v));
            }
        }
    }
}

/// What a frame lookup finds was bound in the frame.
pub proof fn lemma_frame_get_mem<V>(f: Seq<(Ident, V)>, k: Ident)
    ensures
        frame_get(f, k) matches Some(v) ==> exists|j: int| 0 <= j < f.len() && #[trigger] f[j] == (k, v),
    decreases f.len(),
{
    if f.len() > 0 {
        lemma_frame_get_mem(f.drop_last(), k);
        if let Some(v) = frame_get(f, k) {
            if f.last().0 == k {
                assert(f[f.len() - 1] == (k, v));
            } else {
                let j = choose|j: int| 0 <= j < f.drop_last().len() && #[trigger] f.drop_last()[j] == (k, v);
                assert(f[j] == (k, v));
            }
        }
    }
}

} // verus!
