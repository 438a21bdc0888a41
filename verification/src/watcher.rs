//! The decisions of the watch loop: which file events restart the command.

use vstd::prelude::*;

verus! {

/// The first path of a file event, as the watch loop sees it.
#[derive(Debug, PartialEq, Eq)]
pub struct ChangedPath {
    /// The file name of the path ("" where it has none).
    pub file_name: String,
    /// Whether the project's ignore rules match the path or one of its parents.
    pub ignored: bool,
}

/// A file event, as the watch loop sees it.
#[derive(Debug, PartialEq, Eq)]
pub struct ChangeEvent {
    /// Whether the event is a modification or a creation.
    pub is_change: bool,
    /// When the event is handled, in milliseconds on a clock that does not go back.
    pub at_ms: u64,
    /// The first path of the event, if it has one.
    pub path: Option<ChangedPath>,
}

/// What the watch loop does when it looks at the clock.
#[derive(Debug, PartialEq, Eq)]
pub enum WatchAction {
    /// Nothing yet.
    Wait,
    /// Stop the running command and start it again, reporting this file as changed.
    Restart(String),
}

/// The last change that is waiting for the debounce window to pass.
#[derive(Debug, PartialEq, Eq)]
pub struct PendingChange {
    /// The file name of the change.
    pub file_name: String,
    /// When the change was handled.
    pub at_ms: u64,
}

/// The state of the watch loop.
#[derive(Debug, PartialEq, Eq)]
pub struct WatchState {
    /// A run starts once this long has passed since the last change.
    pub debounce_ms: u64,
    /// Whether changes on ignored paths count too.
    pub no_ignore: bool,
    /// The last change since the last run, if any.
    pub pending: Option<PendingChange>,
}

/// What the watch loop looks at in an event.
pub struct EventFacts {
    pub is_change: bool,
    pub at_ms: u64,
    pub has_path: bool,
    pub ignored: bool,
    pub file_name: Seq<char>,
}

impl ChangeEvent {
    /// What the watch loop looks at in this event.
    pub open spec fn facts(&self) -> EventFacts {
        EventFacts {
            is_change: self.is_change,
            at_ms: self.at_ms,
            has_path: self.path is Some,
            ignored: self.path matches Some(p) && p.ignored,
            file_name: match self.path {
                Some(p) => p.file_name@,
                None => Seq::empty(),
            },
        }
    }
}

/// The state of the watch loop as plain values.
pub struct WatchView {
    pub debounce_ms: u64,
    pub no_ignore: bool,
    pub pending: Option<(Seq<char>, u64)>,
}

impl View for WatchState {
    type V = WatchView;

    open spec fn view(&self) -> WatchView {
        WatchView {
            debounce_ms: self.debounce_ms,
            no_ignore: self.no_ignore,
            pending: match self.pending {
                Some(p) => Some((p.file_name@, p.at_ms)),
                None => None,
            },
        }
    }
}

/// Milliseconds from `from` to `to`, zero where `to` is earlier.
pub open spec fn elapsed_ms(from: u64, to: u64) -> int {
    if to >= from {
        to - from
    } else {
        0
    }
}

/// The event is a change that counts: a modification or creation of a path
/// that is not ignored (or ignoring is off).
pub open spec fn counts(s: WatchView, e: EventFacts) -> bool {
    &&& e.is_change
    &&& e.has_path
    &&& (!e.ignored || s.no_ignore)
}

/// The state after an event: a change that counts becomes the pending change
/// and starts the window anew; any other event leaves the state as it was.
pub open spec fn after_change(s: WatchView, e: EventFacts) -> WatchView {
    if counts(s, e) {
        WatchView { pending: Some((e.file_name, e.at_ms)), ..s }
    } else {
        s
    }
}

/// Which changes count: a modification or creation of a path that the ignore
/// rules do not match always counts and becomes the pending change, whether
/// ignoring is off or not; events that are not such changes, or have no path,
/// never count; a path that the rules match counts only with ignoring off; and
/// turning ignoring off only adds to the changes that count.
pub proof fn law_which_changes_count(s: WatchView, e: EventFacts)
    ensures
        e.is_change && e.has_path && !e.ignored ==> counts(s, e) && after_change(s, e).pending == Some(
            (e.file_name, e.at_ms),
        ),
        !e.is_change || !e.has_path ==> !counts(s, e) && after_change(s, e) == s,
        e.ignored && !s.no_ignore ==> !counts(s, e) && after_change(s, e) == s,
        e.is_change && e.has_path && s.no_ignore ==> counts(s, e),
        counts(WatchView { no_ignore: false, ..s }, e) ==> counts(WatchView { no_ignore: true, ..s }, e),
{
}

/// At time `now` the window has passed since the pending change.
pub open spec fn due(s: WatchView, now: u64) -> bool {
    s.pending matches Some(p) && elapsed_ms(p.1, now) >= s.debounce_ms
}

/// The file name of the pending change (empty where there is none).
pub open spec fn pending_file(s: WatchView) -> Seq<char> {
    match s.pending {
        Some(p) => p.0,
        None => Seq::empty(),
    }
}

/// The state after looking at the clock: a change that is due is taken.
pub open spec fn after_tick(s: WatchView, now: u64) -> WatchView {
    if due(s, now) {
        WatchView { pending: None, ..s }
    } else {
        s
    }
}

impl WatchState {
    /// The state of a loop that has not seen a change yet.
    pub fn new(debounce_ms: u64, no_ignore: bool) -> (s: Self)
        ensures
            s@ == (WatchView { debounce_ms, no_ignore, pending: None }),
    {
        WatchState { debounce_ms, no_ignore, pending: None }
    }

    /// Takes in an event: a change that counts starts the window anew.
    pub fn step(&mut self, event: ChangeEvent)
        ensures
            final(self)@ == after_change(old(self)@, event.facts()),
    {
        if !event.is_change {
            return ;
        }
        match event.path {
            None => {},
            Some(p) => {
                if !p.ignored || self.no_ignore {
                    self.pending = Some(PendingChange { file_name: p.file_name, at_ms: event.at_ms });
                }
            },
        }
    }

    /// Looks at the clock: restarts for the pending change once the window has
    /// passed since it.
    pub fn tick(&mut self, now_ms: u64) -> (r: WatchAction)
        ensures
            final(self)@ == after_tick(old(self)@, now_ms),
            r is Restart == due(old(self)@, now_ms),
            r matches WatchAction::Restart(f) ==> f@ == pending_file(old(self)@),
    {
        let fire = match &self.pending {
            None => false,
            Some(p) => {
                let elapsed = if now_ms >= p.at_ms {
                    now_ms - p.at_ms
                } else {
                    0
                };
                elapsed >= self.debounce_ms
            },
        };
        if !fire {
            return WatchAction::Wait;
        }
        match self.pending.take() {
            Some(p) => WatchAction::Restart(p.file_name),
            None => WatchAction::Wait,
        }
    }

    /// How long to wait from `now_ms` until the pending change is due: `None`
    /// where there is none.
    pub fn wait_ms(&self, now_ms: u64) -> (r: Option<u64>)
        ensures
            match self@.pending {
                None => r is None,
                Some(p) => r == Some(
                    (if elapsed_ms(p.1, now_ms) >= self.debounce_ms {
                        0
                    } else {
                        self.debounce_ms - elapsed_ms(p.1, now_ms)
                    }) as u64,
                ),
            },
    {
        match &self.pending {
            None => None,
            Some(p) => {
                let elapsed = if now_ms >= p.at_ms {
                    now_ms - p.at_ms
                } else {
                    0
                };
                if elapsed >= self.debounce_ms {
                    Some(0)
                } else {
                    Some(self.debounce_ms - elapsed)
                }
            },
        }
    }
}

/// An input of the watch loop: an event, or a look at the clock.
pub enum WatchInput {
    Change(EventFacts),
    Tick(u64),
}

/// The state after an input.
pub open spec fn after_input(s: WatchView, i: WatchInput) -> WatchView {
    match i {
        WatchInput::Change(e) => after_change(s, e),
        WatchInput::Tick(now) => after_tick(s, now),
    }
}

/// The state after a run of inputs.
pub open spec fn state_after_all(s: WatchView, inputs: Seq<WatchInput>) -> WatchView
    decreases inputs.len(),
{
    if inputs.len() == 0 {
        s
    } else {
        state_after_all(after_input(s, inputs[0]), inputs.drop_first())
    }
}

/// The files reported by the restarts of a run of inputs, in order.
pub open spec fn restarted_files(s: WatchView, inputs: Seq<WatchInput>) -> Seq<Seq<char>>
    decreases inputs.len(),
{
    if inputs.len() == 0 {
        Seq::empty()
    } else {
        let rest = restarted_files(after_input(s, inputs[0]), inputs.drop_first());
        match inputs[0] {
            WatchInput::Tick(now) => if due(s, now) {
                seq![pending_file(s)].add(rest)
            } else {
                rest
            },
            WatchInput::Change(_) => rest,
        }
    }
}

/// The last change among the first `k` inputs, or `last` where there is none.
pub open spec fn latest_change(last: Option<EventFacts>, inputs: Seq<WatchInput>, k: int) -> Option<
    EventFacts,
>
    decreases k,
{
    if k <= 0 {
        last
    } else {
        match inputs[k - 1] {
            WatchInput::Change(e) => Some(e),
            WatchInput::Tick(_) => latest_change(last, inputs, k - 1),
        }
    }
}

/// The inputs form a burst: every look at the clock comes after a change, and
/// less than `window` after the last change before it.
pub open spec fn is_burst(last: Option<EventFacts>, inputs: Seq<WatchInput>, window: u64) -> bool {
    forall|k: int|
        0 <= k < inputs.len() ==> (#[trigger] inputs[k] matches WatchInput::Tick(now) ==> (
        latest_change(last, inputs, k) matches Some(e) && elapsed_ms(e.at_ms, now) < window))
}

proof fn lemma_latest_change_shift(last: Option<EventFacts>, inputs: Seq<WatchInput>, k: int)
    requires
        inputs.len() > 0,
        0 <= k < inputs.len(),
    ensures
        latest_change(
            match inputs[0] {
                WatchInput::Change(e) => Some(e),
                WatchInput::Tick(_) => last,
            },
            inputs.drop_first(),
            k,
        ) == latest_change(last, inputs, k + 1),
    decreases k,
{
    reveal_with_fuel(latest_change, 2);
    if k > 0 {
        lemma_latest_change_shift(last, inputs, k - 1);
        assert(inputs.drop_first()[k - 1] == inputs[k]);
    }
}

proof fn lemma_burst(s: WatchView, last: Option<EventFacts>, inputs: Seq<WatchInput>)
    requires
        last matches Some(e) ==> s.pending == Some((e.file_name, e.at_ms)),
        forall|k: int|
            0 <= k < inputs.len() ==> (#[trigger] inputs[k] matches WatchInput::Change(e) ==> counts(s, e)),
        is_burst(last, inputs, s.debounce_ms),
    ensures
        restarted_files(s, inputs).len() == 0,
        latest_change(last, inputs, inputs.len() as int) matches Some(e) ==> state_after_all(
            s,
            inputs,
        ).pending == Some((e.file_name, e.at_ms)),
        state_after_all(s, inputs).debounce_ms == s.debounce_ms,
        state_after_all(s, inputs).no_ignore == s.no_ignore,
    decreases inputs.len(),
{
    if inputs.len() > 0 {
        let i0 = inputs[0];
        let rest = inputs.drop_first();
        let next = after_input(s, i0);
        let last2 = match i0 {
            WatchInput::Change(e) => Some(e),
            WatchInput::Tick(_) => last,
        };
        assert(inputs[0] == i0);
        match i0 {
            WatchInput::Tick(now) => {
                assert(latest_change(last, inputs, 0) == last);
            },
            WatchInput::Change(e) => {},
        }
        assert forall|k: int| 0 <= k < rest.len() implies (#[trigger] rest[k] matches WatchInput::Change(
            e,
        ) ==> counts(next, e)) by {
            assert(rest[k] == inputs[k + 1]);
        }
        assert forall|k: int| 0 <= k < rest.len() implies (#[trigger] rest[k] matches WatchInput::Tick(
            now,
        ) ==> (latest_change(last2, rest, k) matches Some(e) && elapsed_ms(e.at_ms, now)
            < next.debounce_ms)) by {
            assert(rest[k] == inputs[k + 1]);
            lemma_latest_change_shift(last, inputs, k);
        }
        lemma_burst(next, last2, rest);
        if rest.len() > 0 {
            lemma_latest_change_shift(last, inputs, rest.len() - 1);
        }
    }
}

/// One run per burst: while every look at the clock comes less than the
/// debounce window after the last change, nothing restarts; the last change is
/// then pending, and it restarts, once, exactly when the clock shows the window
/// passed since it.
pub proof fn law_one_run_per_burst(s: WatchView, inputs: Seq<WatchInput>, now: u64)
    requires
        forall|k: int|
            0 <= k < inputs.len() ==> (#[trigger] inputs[k] matches WatchInput::Change(e) ==> counts(s, e)),
        is_burst(None, inputs, s.debounce_ms),
        latest_change(None, inputs, inputs.len() as int) is Some,
    ensures
        restarted_files(s, inputs).len() == 0,
        ({
            let e = latest_change(None, inputs, inputs.len() as int)->0;
            let after = state_after_all(s, inputs);
            &&& after.pending == Some((e.file_name, e.at_ms))
            &&& due(after, now) == (elapsed_ms(e.at_ms, now) >= s.debounce_ms)
            &&& due(after, now) ==> after_tick(after, now).pending is None
        }),
{
    lemma_burst(s, None, inputs);
}

/// Half the width of the terminal (of 80 columns where it is not known): the
/// length of the separator line.
pub fn separator_width(columns: Option<u16>) -> (r: usize)
    ensures
        r == (match columns {
            Some(c) => c as int,
            None => 80,
        }) / 2,
{
    let c: usize = match columns {
        Some(c) => c as usize,
        None => 80,
    };
    c / 2
}

/// A line of `width` underscores.
pub fn separator(width: usize) -> (r: String)
    ensures
        r@ == Seq::new(width as nat, |i: int| '_'),
{
    let mut r = String::new();
    let mut i: usize = 0;
    while i < width
        invariant
            i <= width,
            r@ == Seq::new(i as nat, |j: int| '_'),
        decreases width - i,
    {
        r.append("_");
        proof {
            reveal_strlit("_");
        }
        assert(r@ =~= Seq::new((i + 1) as nat, |j: int| '_'));
        i = i + 1;
    }
    r
}

} // verus!
