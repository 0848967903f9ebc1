use std::time::Duration;

use oximo::options::{HasUniversal, UniversalOptions, UniversalOptionsExt};

#[derive(Default)]
struct TestOpts {
    pub universal: UniversalOptions,
}

impl HasUniversal for TestOpts {
    fn universal_view(&self) -> UniversalOptions {
        self.universal.clone()
    }
    fn universal(&self) -> &UniversalOptions {
        &self.universal
    }
    fn universal_mut(&mut self) -> &mut UniversalOptions {
        &mut self.universal
    }
}

#[test]
fn universal_default_is_all_none() {
    let u = UniversalOptions::default();
    assert!(u.time_limit.is_none());
    assert!(u.threads.is_none());
    assert!(u.verbose.is_none());
}

#[test]
fn universal_builder_chain() {
    let o = TestOpts::default().time_limit(Duration::from_secs(60)).threads(4).verbose(false);
    assert_eq!(o.universal.time_limit, Some(Duration::from_secs(60)));
    assert_eq!(o.universal.threads, Some(4));
    assert_eq!(o.universal.verbose, Some(false));
}

#[test]
fn universal_options_clone_eq() {
    let a = TestOpts::default().threads(2).verbose(true);
    let b = UniversalOptions { threads: Some(2), verbose: Some(true), ..Default::default() };
    assert_eq!(a.universal, b);
    let c = a.universal.clone();
    assert_eq!(c, b);
}

#[test]
fn last_set_wins_for_same_field() {
    let o = TestOpts::default().threads(1).threads(8);
    assert_eq!(o.universal.threads, Some(8));
}

#[test]
fn setters_leave_other_fields_alone() {
    let o = UniversalOptions::default().verbose(true).time_limit(Duration::from_secs(5));
    assert_eq!(o.verbose, Some(true));
    assert_eq!(o.time_limit, Some(Duration::from_secs(5)));
    assert!(o.threads.is_none());
    let p = o.clone().threads(3);
    assert_eq!(p.verbose, Some(true));
    assert_eq!(p.time_limit, Some(Duration::from_secs(5)));
    assert_eq!(p.threads, Some(3));
}

#[test]
fn universal_options_read_through_trait() {
    let mut u = UniversalOptions::default().threads(6);
    assert_eq!(u.universal().threads, Some(6));
    u.universal_mut().verbose = Some(false);
    assert_eq!(u.verbose, Some(false));
}
