//! Dark-mode detection and the debounced theme watcher.
//!
//! The platform sources are chatty: the settings portal repeats
//! notifications and the color-change event fires for any color.  The
//! watcher keeps the last value it delivered and hands an update to the
//! listener only when the night/day boolean actually flips, so
//! repeated-identical platform events are suppressed.

use vstd::prelude::*;
use crate::strings::str_eq;

verus! {

/// Why the theme could not be read.
#[derive(Clone, Copy, Debug, PartialEq, Eq, Structural)]
pub enum ThemeError {
    /// The settings reply did not carry the expected integer value.
    UnexpectedReply,
}

/// The color-scheme preference value that means "prefer dark".
pub const COLOR_SCHEME_PREFER_DARK: u32 = 1;

/// Interprets the settings portal's color-scheme reply: the reply is a
/// night-mode flag exactly when it carries an integer, and the flag is
/// set exactly for the prefer-dark value.  A reply of any other shape
/// is an error.
pub fn is_night_mode(color_scheme: Option<u32>) -> (r: Result<bool, ThemeError>)
    ensures
        r == match color_scheme {
            Some(v) => Ok::<bool, ThemeError>(v == COLOR_SCHEME_PREFER_DARK),
            None => Err::<bool, ThemeError>(ThemeError::UnexpectedReply),
        },
{
    match color_scheme {
        Some(v) => Ok(v == COLOR_SCHEME_PREFER_DARK),
        None => Err(ThemeError::UnexpectedReply),
    }
}

/// Whether theme detection is available: exactly when the one-shot
/// night-mode query succeeded.
pub fn is_supported(probe: &Result<bool, ThemeError>) -> (r: bool)
    ensures
        r == probe is Ok,
{
    probe.is_ok()
}

/// The foreground-color luminance test used where no color-scheme
/// setting exists: a bright foreground color means a dark theme.
pub fn color_is_night(red: u8, green: u8, blue: u8) -> (r: bool)
    ensures
        r == (5 * green + 2 * red + blue > 8 * 128),
{
    (5 * green as u32) + (2 * red as u32) + blue as u32 > 8 * 128
}

/// The settings namespace carrying the appearance preferences.
pub open spec fn appearance_namespace() -> Seq<char> {
    "org.freedesktop.appearance"@
}

/// The key of the color-scheme preference.
pub open spec fn color_scheme_key() -> Seq<char> {
    "color-scheme"@
}

/// A live dark-mode subscription: the last value delivered to the
/// listener, against which every new platform event is compared.
pub struct ThemeWatcher {
    last: bool,
}

/// The values a watcher hands to the listener for a run of raw
/// night-mode observations, starting from `last`: each observation is
/// delivered exactly when it differs from the previous delivery.
pub open spec fn spec_deliveries(last: bool, events: Seq<bool>) -> Seq<bool>
    decreases events.len(),
{
    if events.len() == 0 {
        Seq::empty()
    } else if events[0] != last {
        seq![events[0]] + spec_deliveries(events[0], events.drop_first())
    } else {
        spec_deliveries(last, events.drop_first())
    }
}

impl ThemeWatcher {
    /// The last value delivered (or the initial capture).
    pub closed spec fn last_spec(&self) -> bool {
        self.last
    }

    /// A fresh subscription that captured `initial` as the current
    /// state.
    pub fn new(initial: bool) -> (w: Self)
        ensures
            w.last_spec() == initial,
    {
        ThemeWatcher { last: initial }
    }

    /// Takes one raw night-mode observation: answers the value to hand
    /// to the listener exactly when it differs from the last delivered
    /// one, and records it; a repeated value is suppressed and changes
    /// nothing.
    pub fn observe(&mut self, night: bool) -> (deliver: Option<bool>)
        ensures
            deliver == if night != old(self).last_spec() {
                Some(night)
            } else {
                None::<bool>
            },
            final(self).last_spec() == night,
    {
        if night != self.last {
            self.last = night;
            Some(night)
        } else {
            None
        }
    }

    /// Takes one raw settings-changed signal: relevant exactly when it
    /// is the appearance namespace's color-scheme key carrying an
    /// integer; a relevant signal is debounced through `observe`,
    /// anything else is ignored.
    pub fn on_setting_changed(&mut self, namespace: &str, key: &str, value: Option<u32>) -> (deliver:
        Option<bool>)
        ensures
            ({
                let relevant = namespace@ == appearance_namespace() && key@ == color_scheme_key()
                    && value is Some;
                if relevant {
                    let night = value->0 == COLOR_SCHEME_PREFER_DARK;
                    deliver == if night != old(self).last_spec() {
                        Some(night)
                    } else {
                        None::<bool>
                    } && final(self).last_spec() == night
                } else {
                    deliver is None && *final(self) == *old(self)
                }
            }),
    {
        if !str_eq(namespace, "org.freedesktop.appearance") {
            return None;
        }
        if !str_eq(key, "color-scheme") {
            return None;
        }
        match value {
            Some(v) => self.observe(v == COLOR_SCHEME_PREFER_DARK),
            None => None,
        }
    }
}

/// Debounce law: whatever raw events arrive, the delivered values never
/// repeat — the first delivery differs from the initial capture and
/// every later delivery differs from the one before it.
pub proof fn lemma_deliveries_never_repeat(last: bool, events: Seq<bool>)
    ensures
        spec_deliveries(last, events).len() > 0 ==> spec_deliveries(last, events)[0] != last,
        forall|i: int|
            0 < i < spec_deliveries(last, events).len() ==> #[trigger] spec_deliveries(
                last,
                events,
            )[i] != spec_deliveries(last, events)[i - 1],
    decreases events.len(),
{
    if events.len() > 0 {
        let d = spec_deliveries(last, events);
        if events[0] != last {
            lemma_deliveries_never_repeat(events[0], events.drop_first());
            let rest = spec_deliveries(events[0], events.drop_first());
            assert forall|i: int| 0 < i < d.len() implies #[trigger] d[i] != d[i - 1] by {
                if i == 1 {
                    assert(d[1] == rest[0] && rest[0] != events[0]);
                } else {
                    assert(d[i] == rest[i - 1] && d[i - 1] == rest[i - 2]);
                    assert(rest[i - 1] != rest[i - 2]);
                }
            }
        } else {
            lemma_deliveries_never_repeat(last, events.drop_first());
        }
    }
}


/// The value the watcher holds after a run of observations: the last
/// observation, or the starting value when there was none.
pub open spec fn spec_last_after(last: bool, events: Seq<bool>) -> bool {
    if events.len() == 0 {
        last
    } else {
        events.last()
    }
}

proof fn lemma_deliveries_snoc(last: bool, events: Seq<bool>, e: bool)
    ensures
        spec_deliveries(last, events.push(e)) == spec_deliveries(last, events) + (
        if e != spec_last_after(last, events) {
            seq![e]
        } else {
            Seq::<bool>::empty()
        }),
    decreases events.len(),
{
    assert(events.push(e).len() > 0);
    if events.len() == 0 {
        assert(events.push(e)[0] == e);
        assert(events.push(e).drop_first() =~= Seq::<bool>::empty());
        assert(spec_deliveries(e, Seq::<bool>::empty()) == Seq::<bool>::empty());
        assert(spec_deliveries(last, events.push(e)) =~= spec_deliveries(last, events) + (
        if e != spec_last_after(last, events) {
            seq![e]
        } else {
            Seq::<bool>::empty()
        }));
    } else {
        assert(events.push(e)[0] == events[0]);
        assert(events.push(e).drop_first() =~= events.drop_first().push(e));
        lemma_deliveries_snoc(events[0], events.drop_first(), e);
        lemma_deliveries_snoc(last, events.drop_first(), e);
        assert(events.drop_first().push(e).last() == e);
        if events.drop_first().len() > 0 {
            assert(events.last() == events.drop_first().last());
        }
        assert(spec_deliveries(last, events.push(e)) =~= spec_deliveries(last, events) + (
        if e != spec_last_after(last, events) {
            seq![e]
        } else {
            Seq::<bool>::empty()
        }));
    }
}

impl ThemeWatcher {
    /// Feeds a whole run of raw observations through the watcher and
    /// collects what reaches the listener: exactly the debounced
    /// deliveries, in order.
    pub fn observe_all(&mut self, events: &Vec<bool>) -> (delivered: Vec<bool>)
        ensures
            delivered@ == spec_deliveries(old(self).last_spec(), events@),
            final(self).last_spec() == spec_last_after(old(self).last_spec(), events@),
    {
        let ghost start = self.last;
        let mut delivered: Vec<bool> = Vec::new();
        let mut i: usize = 0;
        proof {
            assert(events@.take(0) =~= Seq::<bool>::empty());
            assert(delivered@ =~= spec_deliveries(start, events@.take(0)));
        }
        while i < events.len()
            invariant
                i <= events@.len(),
                start == old(self).last_spec(),
                delivered@ == spec_deliveries(start, events@.take(i as int)),
                self.last_spec() == spec_last_after(start, events@.take(i as int)),
            decreases events@.len() - i,
        {
            match self.observe(events[i]) {
                Some(v) => delivered.push(v),
                None => {},
            }
            proof {
                assert(events@.take(i as int + 1) =~= events@.take(i as int).push(
                    events@[i as int],
                ));
                lemma_deliveries_snoc(start, events@.take(i as int), events@[i as int]);
                assert(delivered@ =~= spec_deliveries(start, events@.take(i as int + 1)));
                assert(events@.take(i as int + 1).last() == events@[i as int]);
            }
            i = i + 1;
        }
        proof {
            assert(events@.take(events@.len() as int) =~= events@);
        }
        delivered
    }
}

} // verus!
