use vstd::prelude::*;

use std::time::Duration;

verus! {

/// `Duration`'s `clone`: `Duration` is `Copy`, and its clone is the same
/// value.
pub assume_specification[ <Duration as Clone>::clone ](d: &Duration) -> (r: Duration)
    ensures
        r == *d,
;

/// Options valid for every solver, including NLP backends.
/// Each backend's options struct embeds this via [`HasUniversal`]; the
/// [`UniversalOptionsExt`] blanket impl then provides typed builder setters.
#[derive(Clone, Debug, PartialEq)]
pub struct UniversalOptions {
    pub time_limit: Option<Duration>,
    pub threads: Option<u32>,
    pub verbose: Option<bool>,
}

impl Default for UniversalOptions {
    /// All options unset.
    fn default() -> (o: UniversalOptions)
        ensures
            o.time_limit is None,
            o.threads is None,
            o.verbose is None,
    {
        UniversalOptions { time_limit: None, threads: None, verbose: None }
    }
}

/// Implemented by every backend-specific options struct.
/// Gives the [`UniversalOptionsExt`] blanket impl access to the embedded
/// [`UniversalOptions`].
pub trait HasUniversal {
    /// The embedded universal options.
    spec fn universal_view(&self) -> UniversalOptions;

    fn universal(&self) -> (u: &UniversalOptions)
        ensures
            *u == self.universal_view(),
    ;

    fn universal_mut(&mut self) -> (u: &mut UniversalOptions)
        ensures
            *u == old(self).universal_view(),
            final(self).universal_view() == *final(u),
    ;
}

/// Builder setters available on every backend options struct. Each sets one
/// field of the universal options and leaves the other two as they were.
pub trait UniversalOptionsExt: HasUniversal + Sized {
    #[must_use]
    fn time_limit(self, d: Duration) -> (o: Self)
        ensures
            o.universal_view().time_limit == Some(d),
            o.universal_view().threads == self.universal_view().threads,
            o.universal_view().verbose == self.universal_view().verbose,
    {
        let mut s = self;
        s.universal_mut().time_limit = Some(d);
        s
    }

    #[must_use]
    fn threads(self, n: u32) -> (o: Self)
        ensures
            o.universal_view().threads == Some(n),
            o.universal_view().time_limit == self.universal_view().time_limit,
            o.universal_view().verbose == self.universal_view().verbose,
    {
        let mut s = self;
        s.universal_mut().threads = Some(n);
        s
    }

    #[must_use]
    fn verbose(self, on: bool) -> (o: Self)
        ensures
            o.universal_view().verbose == Some(on),
            o.universal_view().time_limit == self.universal_view().time_limit,
            o.universal_view().threads == self.universal_view().threads,
    {
        let mut s = self;
        s.universal_mut().verbose = Some(on);
        s
    }
}

impl<T: HasUniversal> UniversalOptionsExt for T {

}

/// The universal options are their own carrier, so the setters chain on them
/// directly.
impl HasUniversal for UniversalOptions {
    open spec fn universal_view(&self) -> UniversalOptions {
        *self
    }

    fn universal(&self) -> (u: &UniversalOptions) {
        self
    }

    fn universal_mut(&mut self) -> (u: &mut UniversalOptions) {
        self
    }
}

/// Presolve setting for LP/MILP backends.
#[derive(Copy, Clone, Debug, PartialEq, Eq, Structural)]
pub enum Presolve {
    Off,
    Auto,
    On,
}

} // verus!
