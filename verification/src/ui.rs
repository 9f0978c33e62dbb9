use vstd::prelude::*;
use crate::text::{chars_eq, chars_of, string_views};

verus! {

/// Named callbacks that the UI layer can invoke with a string payload.
/// Registering a name again replaces its callback.
pub struct UiBridge<C> {
    names: Vec<String>,
    callbacks: Vec<C>,
}

impl<C> UiBridge<C> {
    /// The registered names, in first-registration order.
    pub closed spec fn names(&self) -> Seq<Seq<char>> {
        string_views(self.names@)
    }

    /// The callbacks, parallel to `names()`.
    pub closed spec fn callbacks(&self) -> Seq<C> {
        self.callbacks@
    }

    /// Names and callbacks pair up and no name occurs twice.
    pub closed spec fn wf(&self) -> bool {
        &&& self.names@.len() == self.callbacks@.len()
        &&& forall|i: int, j: int|
            0 <= i < j < self.names@.len() ==> #[trigger] self.names@[i]@ != #[trigger] self.names@[j]@
    }

    /// Index of the registered name equal to `name`.
    fn position(&self, name: &str) -> (r: Option<usize>)
        requires
            self.wf(),
        ensures
            match r {
                Some(i) => i < self.names().len() && self.names()[i as int] == name@,
                None => !self.names().contains(name@),
            },
    {
        let key = chars_of(name);
        let n = self.names.len();
        let mut i: usize = 0;
        while i < n
            invariant
                n == self.names@.len(),
                i <= n,
                key@ == name@,
                forall|k: int| 0 <= k < i ==> self.names@[k]@ != name@,
            decreases n - i,
        {
            let candidate = chars_of(self.names[i].as_str());
            if chars_eq(&candidate, key.as_slice()) {
                return Some(i);
            }
            i = i + 1;
        }
        proof {
            if self.names().contains(name@) {
                let k = choose|k: int| 0 <= k < self.names().len() && self.names()[k] == name@;
                assert(self.names@[k]@ == name@);
            }
        }
        None
    }
}

/// The names and callbacks after registering `cb` under `name`: the
/// callback of a name already registered is replaced in place, a new name
/// is added at the end.
pub open spec fn registered<C>(names: Seq<Seq<char>>, callbacks: Seq<C>, name: Seq<char>, cb: C) -> (
    Seq<Seq<char>>,
    Seq<C>,
) {
    if names.contains(name) {
        (names, callbacks.update(names.index_of(name), cb))
    } else {
        (names.push(name), callbacks.push(cb))
    }
}

/// Calling a name after registering a callback under it runs that
/// callback: the name is registered, and the callback found for it is the
/// one registered last, whether the name was new or already taken.
pub proof fn lemma_call_runs_last_registered<C>(b: UiBridge<C>, name: Seq<char>, cb: C)
    requires
        b.wf(),
    ensures
        ({
            let (names, callbacks) = registered(b.names(), b.callbacks(), name, cb);
            &&& names.contains(name)
            &&& callbacks[names.index_of(name)] == cb
        }),
{
    let s = b.names();
    assert(s.len() == b.callbacks().len());
    if s.contains(name) {
        let i = s.index_of(name);
        assert(0 <= i < s.len() && s[i] == name);
    } else {
        let t = s.push(name);
        assert(t[s.len() as int] == name);
        assert(t.contains(name));
        let i = t.index_of(name);
        assert(0 <= i < t.len() && t[i] == name);
        if i < s.len() {
            assert(s[i] == name);
            assert(false);
        }
    }
}

/// A well-formed bridge pairs each name with one callback, and no name
/// is registered twice.
pub proof fn lemma_names_unique<C>(b: UiBridge<C>)
    requires
        b.wf(),
    ensures
        b.names().no_duplicates(),
        b.names().len() == b.callbacks().len(),
{
    assert forall|i: int, j: int|
        0 <= i < b.names().len() && 0 <= j < b.names().len() && i != j implies b.names()[i]
        != b.names()[j] by {
        if i < j {
            assert(b.names@[i]@ != b.names@[j]@);
        } else {
            assert(b.names@[j]@ != b.names@[i]@);
        }
    }
}

/// Registering a callback under one name leaves every other registered
/// name with the callback it had.
pub proof fn lemma_other_names_keep_callbacks<C>(b: UiBridge<C>, name: Seq<char>, cb: C, other: Seq<char>)
    requires
        b.wf(),
        other != name,
        b.names().contains(other),
    ensures
        ({
            let (names, callbacks) = registered(b.names(), b.callbacks(), name, cb);
            &&& names.contains(other)
            &&& callbacks[names.index_of(other)] == b.callbacks()[b.names().index_of(other)]
        }),
{
    lemma_names_unique(b);
    let s = b.names();
    let k = s.index_of(other);
    assert(0 <= k < s.len() && s[k] == other);
    if s.contains(name) {
        let i = s.index_of(name);
        assert(0 <= i < s.len() && s[i] == name);
        assert(i != k);
    } else {
        let t = s.push(name);
        assert(t[k] == other);
        assert(t.contains(other));
        let j = t.index_of(other);
        assert(0 <= j < t.len() && t[j] == other);
        if j == s.len() {
            assert(t[j] == name);
        }
        assert(j < s.len());
        assert(s[j] == other);
        if j != k {
            assert(s[j] != s[k]);
        }
    }
}

impl<C: Fn(&str)> UiBridge<C> {
    /// An empty bridge.
    pub fn new() -> (b: Self)
        ensures
            b.wf(),
            b.names() == Seq::<Seq<char>>::empty(),
            b.callbacks() == Seq::<C>::empty(),
    {
        let b = UiBridge { names: Vec::new(), callbacks: Vec::new() };
        assert(b.names() =~= Seq::<Seq<char>>::empty());
        b
    }

    /// Registers `callback` under `name`, replacing the callback already
    /// registered under that name.
    pub fn register_callback(&mut self, name: &str, callback: C)
        requires
            old(self).wf(),
        ensures
            final(self).wf(),
            (final(self).names(), final(self).callbacks()) == registered(
                old(self).names(),
                old(self).callbacks(),
                name@,
                callback,
            ),
    {
        match self.position(name) {
            Some(i) => {
                proof {
                    let s = old(self).names();
                    assert(s.contains(name@));
                    let j = s.index_of(name@);
                    assert(0 <= j < s.len() && s[j] == name@);
                    if j != i {
                        assert(self.names@[j]@ == self.names@[i as int]@);
                        if j < i {
                            assert(self.names@[j]@ != self.names@[i as int]@);
                        } else {
                            assert(self.names@[i as int]@ != self.names@[j]@);
                        }
                    }
                }
                self.callbacks.set(i, callback);
            },
            None => {
                let ghost old_names = self.names@;
                self.names.push(name.to_owned());
                self.callbacks.push(callback);
                proof {
                    assert(string_views(self.names@) =~= string_views(old_names).push(name@));
                    assert forall|a: int, b: int|
                        0 <= a < b < self.names@.len() implies #[trigger] self.names@[a]@
                        != #[trigger] self.names@[b]@ by {
                        if b == self.names@.len() - 1 {
                            assert(string_views(old_names)[a] == self.names@[a]@);
                            assert(string_views(old_names).contains(self.names@[a]@));
                        } else {
                            assert(self.names@[a] == old_names[a]);
                            assert(self.names@[b] == old_names[b]);
                        }
                    }
                }
            },
        }
    }

    /// Runs the callback registered under `name` with `data`; returns
    /// whether there was one (the caller reports unknown names).
    pub fn call(&self, name: &str, data: &str) -> (found: bool)
        requires
            self.wf(),
            forall|i: int|
                0 <= i < self.callbacks().len() ==> call_requires(
                    #[trigger] self.callbacks()[i],
                    (data,),
                ),
        ensures
            found == self.names().contains(name@),
            found ==> call_ensures(
                self.callbacks()[self.names().index_of(name@)],
                (data,),
                (),
            ),
    {
        match self.position(name) {
            Some(i) => {
                assert(self.names().len() == self.names@.len());
                assert(i < self.callbacks().len());
                proof {
                    let s = self.names();
                    assert(s.contains(name@));
                    let j = s.index_of(name@);
                    assert(0 <= j < s.len() && s[j] == name@);
                    if j != i {
                        if j < i {
                            assert(self.names@[j]@ != self.names@[i as int]@);
                        } else {
                            assert(self.names@[i as int]@ != self.names@[j]@);
                        }
                    }
                }
                let cb = &self.callbacks[i];
                assert(*cb == self.callbacks()[i as int]);
                cb(data);
                true
            },
            None => false,
        }
    }
}


/// Placeholder for the HTML UI renderer: it only tracks whether it was
/// initialised and produces no frames.
pub struct UltralightContext {
    pub initialized: bool,
}

impl UltralightContext {
    /// A context that is not initialised yet.
    pub fn new() -> (c: UltralightContext)
        ensures
            !c.initialized,
    {
        UltralightContext { initialized: false }
    }

    /// Marks the context initialised; always succeeds.
    pub fn initialize(&mut self, _width: u32, _height: u32) -> (r: Result<(), String>)
        ensures
            final(self).initialized,
            r is Ok,
    {
        self.initialized = true;
        Ok(())
    }

    /// The next UI frame's pixels: there are none, initialised or not.
    pub fn update(&mut self) -> (frame: Option<Vec<u8>>)
        ensures
            frame is None,
            final(self).initialized == old(self).initialized,
    {
        if !self.initialized {
            return None;
        }
        None
    }

    /// Resizing changes nothing.
    pub fn resize(&mut self, _width: u32, _height: u32)
        ensures
            final(self).initialized == old(self).initialized,
    {
    }
}

} // verus!
