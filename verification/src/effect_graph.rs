//! The effect graph editor: pin labels, the tester's console clock, and
//! the tester's play buttons.
use vstd::prelude::*;

use crate::state::{EffectGraphPlaybackTarget, WavesPreviewer};
use crate::text::{
    chars_of, decimal, is_ascii_digit, push_chars, push_decimal_padded, two_digits,
};

verus! {

/// `HH:MM:SS` of the UTC time of day of a Unix time in milliseconds.
pub open spec fn console_timestamp(unix_ms: nat) -> Seq<char> {
    let total_seconds = (unix_ms / 1000) % 86400;
    two_digits(total_seconds / 3600) + seq![':'] + two_digits((total_seconds % 3600) / 60) + seq![':']
        + two_digits(total_seconds % 60)
}

/// The time of day a console line is stamped with.
pub fn format_console_timestamp(unix_ms: u64) -> (stamp: String)
    ensures
        stamp@ == console_timestamp(unix_ms as nat),
{
    let total_seconds = (unix_ms / 1000) % 86_400;
    let hours = total_seconds / 3_600;
    let minutes = (total_seconds % 3_600) / 60;
    let seconds = total_seconds % 60;
    let mut stamp = String::new();
    push_decimal_padded(&mut stamp, hours, 2);
    crate::text::push_char(&mut stamp, ':');
    push_decimal_padded(&mut stamp, minutes, 2);
    crate::text::push_char(&mut stamp, ':');
    push_decimal_padded(&mut stamp, seconds, 2);
    stamp
}

/// The console clock repeats every day: two times a whole number of days
/// apart get the same stamp.
pub proof fn lemma_console_timestamp_daily(unix_ms: nat, days: nat)
    ensures
        console_timestamp(unix_ms + days * 86_400_000) == console_timestamp(unix_ms),
{
    let later = unix_ms + days * 86_400_000;
    assert((later / 1000) == unix_ms / 1000 + days * 86400) by (nonlinear_arith)
        requires
            later == unix_ms + days * 86_400_000,
    ;
    assert((unix_ms / 1000 + days * 86400) % 86400 == (unix_ms / 1000) % 86400) by (nonlinear_arith);
}

/// Every stamp reads as a valid time of day: hours below 24, minutes and
/// seconds below 60, each written with two digits.
pub proof fn lemma_console_timestamp_shape(unix_ms: nat)
    ensures
        console_timestamp(unix_ms).len() == 8,
        console_timestamp(unix_ms)[2] == ':',
        console_timestamp(unix_ms)[5] == ':',
        ((unix_ms / 1000) % 86400) / 3600 < 24,
        (((unix_ms / 1000) % 86400) % 3600) / 60 < 60,
{
    let t = (unix_ms / 1000) % 86400;
    lemma_two_digits_len(t / 3600);
    lemma_two_digits_len((t % 3600) / 60);
    lemma_two_digits_len(t % 60);
}

proof fn lemma_two_digits_len(n: nat)
    requires
        n < 100,
    ensures
        two_digits(n).len() == 2,
{
    assert(crate::text::repeat_char('0', 1) == crate::text::repeat_char('0', 0).push('0'));
    if n >= 10 {
        assert(decimal(n / 10).len() == 1);
    }
}

/// Where the number of a port id would start: after `ch`, after `out` when
/// more follows, or after `in`.
pub open spec fn port_number_start(port_id: Seq<char>) -> Option<int> {
    if port_id.len() >= 2 && port_id[0] == 'c' && port_id[1] == 'h' {
        Some(2)
    } else if port_id.len() > 3 && port_id[0] == 'o' && port_id[1] == 'u' && port_id[2] == 't' {
        Some(3)
    } else if port_id.len() >= 2 && port_id[0] == 'i' && port_id[1] == 'n' {
        Some(2)
    } else {
        None
    }
}

/// The number a port id carries: the part after `ch`, after a non-empty
/// `out` suffix, or after `in`, when that part is all ASCII digits.
pub open spec fn port_number(port_id: Seq<char>) -> Option<Seq<char>> {
    match port_number_start(port_id) {
        Some(start) => {
            let number = port_id.subrange(start, port_id.len() as int);
            if forall|i: int| 0 <= i < number.len() ==> is_ascii_digit(#[trigger] number[i]) {
                Some(number)
            } else {
                None
            }
        },
        None => None,
    }
}

/// A pin's fallback label: the port's number when its id carries one
/// (`ch3`, `out2`, `in1`), otherwise the id itself.
pub open spec fn port_label(port_id: Seq<char>) -> Seq<char> {
    match port_number(port_id) {
        Some(number) => number,
        None => port_id,
    }
}

fn all_digits(chars: &Vec<char>, lo: usize) -> (b: bool)
    requires
        lo <= chars@.len(),
    ensures
        b == forall|i: int| lo <= i < chars@.len() ==> is_ascii_digit(#[trigger] chars@[i]),
{
    let mut i = lo;
    while i < chars.len()
        invariant
            lo <= i <= chars@.len(),
            forall|k: int| lo <= k < i ==> is_ascii_digit(#[trigger] chars@[k]),
        decreases chars@.len() - i,
    {
        if !('0' <= chars[i] && chars[i] <= '9') {
            return false;
        }
        i = i + 1;
    }
    true
}

/// The label a pin falls back to when its node no longer has the port.
pub fn effect_graph_port_label(port_id: &str) -> (label: String)
    ensures
        label@ == port_label(port_id@),
{
    let chars = chars_of(port_id);
    let n = chars.len();
    let start: usize = if n >= 2 && chars[0] == 'c' && chars[1] == 'h' {
        2
    } else if n > 3 && chars[0] == 'o' && chars[1] == 'u' && chars[2] == 't' {
        3
    } else if n >= 2 && chars[0] == 'i' && chars[1] == 'n' {
        2
    } else {
        return port_id.to_owned();
    };
    let digits = all_digits(&chars, start);
    assert(port_number_start(port_id@) == Some(start as int));
    proof {
        let number = chars@.subrange(start as int, n as int);
        assert(digits == forall|i: int| 0 <= i < number.len() ==> is_ascii_digit(#[trigger] number[i])) by {
            if !digits {
                let k = choose|k: int| start <= k < n && !is_ascii_digit(#[trigger] chars@[k]);
                assert(number[k - start] == chars@[k]);
            }
        }
    }
    if digits {
        let mut label = String::new();
        push_chars(&mut label, &chars, start, n);
        assert(port_number(port_id@) == Some(chars@.subrange(start as int, n as int)));
        label
    } else {
        proof {
            let number = port_id@.subrange(start as int, n as int);
            let k = choose|k: int| start <= k < n && !is_ascii_digit(#[trigger] chars@[k]);
            assert(number[k - start] == chars@[k]);
            assert(!is_ascii_digit(number[k - start]));
        }
        assert(port_number(port_id@) is None);
        port_id.to_owned()
    }
}

/// The value of a string of ASCII digits.
pub open spec fn digits_value(digits: Seq<char>) -> nat
    decreases digits.len(),
{
    if digits.len() == 0 {
        0
    } else {
        digits_value(digits.drop_last()) * 10 + ((digits.last() as nat) - ('0' as nat)) as nat
    }
}

/// The digits a `usize` is parsed from: `s` without a leading `+`.
pub open spec fn usize_digits(s: Seq<char>) -> Seq<char> {
    if s.len() > 0 && s[0] == '+' {
        s.drop_first()
    } else {
        s
    }
}

/// What `str::parse` gives for an unsigned integer type whose largest
/// value is `max`: an optional `+` followed by one or more ASCII digits
/// whose value is at most `max`.
pub open spec fn parsed_unsigned(s: Seq<char>, max: nat) -> Option<nat> {
    let digits = usize_digits(s);
    if digits.len() == 0 {
        None
    } else if !(forall|i: int| 0 <= i < digits.len() ==> is_ascii_digit(#[trigger] digits[i])) {
        None
    } else if digits_value(digits) > max {
        None
    } else {
        Some(digits_value(digits))
    }
}

/// What `str::parse::<usize>` gives.
pub open spec fn parsed_usize(s: Seq<char>) -> Option<nat> {
    parsed_unsigned(s, usize::MAX as nat)
}

/// What `str::parse::<u64>` gives.
pub open spec fn parsed_u64(s: Seq<char>) -> Option<nat> {
    parsed_unsigned(s, u64::MAX as nat)
}

/// Parses a decimal `usize` as `str::parse` does.
pub fn parse_usize(s: &str) -> (value: Option<usize>)
    ensures
        match value {
            Some(v) => parsed_usize(s@) == Some(v as nat),
            None => parsed_usize(s@) is None,
        },
{
    match parse_u64(s) {
        Some(v) => if v <= usize::MAX as u64 {
            Some(v as usize)
        } else {
            None
        },
        None => {
            proof {
                let digits = usize_digits(s@);
                if digits.len() > 0 && (forall|i: int| 0 <= i < digits.len() ==> is_ascii_digit(#[trigger] digits[i])) {
                    assert(digits_value(digits) > u64::MAX);
                }
            }
            None
        },
    }
}

/// Parses a decimal `u64` as `str::parse` does.
pub fn parse_u64(s: &str) -> (value: Option<u64>)
    ensures
        match value {
            Some(v) => parsed_u64(s@) == Some(v as nat),
            None => parsed_u64(s@) is None,
        },
{
    let chars = chars_of(s);
    let n = chars.len();
    let start: usize = if n > 0 && chars[0] == '+' { 1 } else { 0 };
    let ghost digits = if n > 0 && chars@[0] == '+' { chars@.drop_first() } else { chars@ };
    proof {
        assert(digits =~= chars@.subrange(start as int, n as int));
    }
    if start == n {
        assert(digits.len() == 0);
        assert(chars@ == s@);
        return None;
    }
    let mut value: u64 = 0;
    let mut overflow = false;
    let mut i = start;
    while i < n
        invariant
            start <= i <= n == chars@.len(),
            chars@ == s@,
            digits == usize_digits(s@),
            digits == chars@.subrange(start as int, n as int),
            forall|k: int| start <= k < i ==> is_ascii_digit(#[trigger] chars@[k]),
            !overflow ==> value as nat == digits_value(chars@.subrange(start as int, i as int)),
            overflow ==> digits_value(chars@.subrange(start as int, i as int)) > u64::MAX,
        decreases n - i,
    {
        let c = chars[i];
        if !('0' <= c && c <= '9') {
            proof {
                assert(digits[i - start] == c);
                assert(!is_ascii_digit(digits[i - start]));
            }
            return None;
        }
        let d = (c as u32 - '0' as u32) as u64;
        let ghost prefix = chars@.subrange(start as int, i as int);
        proof {
            assert(chars@.subrange(start as int, i + 1).drop_last() =~= prefix);
            assert(digits_value(chars@.subrange(start as int, i + 1)) == digits_value(prefix) * 10 + d);
        }
        if !overflow {
            match value.checked_mul(10) {
                Some(v10) => match v10.checked_add(d) {
                    Some(v) => {
                        value = v;
                    },
                    None => {
                        overflow = true;
                    },
                },
                None => {
                    overflow = true;
                },
            }
        } else {
            proof {
                assert(digits_value(prefix) * 10 + d >= digits_value(prefix)) by (nonlinear_arith);
            }
        }
        i = i + 1;
    }
    proof {
        assert(chars@.subrange(start as int, n as int) =~= digits);
        assert forall|k: int| 0 <= k < digits.len() implies is_ascii_digit(#[trigger] digits[k]) by {
            assert(digits[k] == chars@[k + start]);
        }
    }
    if overflow {
        None
    } else {
        Some(value)
    }
}

/// Where a pin sorts among its node's pins: numbered ports by number from
/// 0, anything else last.
pub open spec fn port_sort_index(port_id: Seq<char>) -> usize {
    match parsed_usize(port_label(port_id)) {
        Some(v) => if v >= 1 {
            (v - 1) as usize
        } else {
            usize::MAX
        },
        None => usize::MAX,
    }
}

/// Where a pin sorts among its node's pins.
pub fn effect_graph_port_sort_index(port_id: &str) -> (index: usize)
    ensures
        index == port_sort_index(port_id@),
{
    let label = effect_graph_port_label(port_id);
    match parse_usize(label.as_str()) {
        Some(v) => if v >= 1 {
            v - 1
        } else {
            usize::MAX
        },
        None => usize::MAX,
    }
}

/// A pin's label: the label its node's port spec gives it when the node
/// still has the port, otherwise the label read from the port id.
pub fn effect_graph_pin_label(spec_label: Option<&str>, port_id: &str) -> (label: String)
    ensures
        label@ == match spec_label {
            Some(l) => l@,
            None => port_label(port_id@),
        },
{
    match spec_label {
        Some(l) => l.to_owned(),
        None => effect_graph_port_label(port_id),
    }
}

/// What the tester does when a play button is pressed.
#[derive(Clone, Copy, Debug, PartialEq, Eq, Structural)]
pub enum PlaybackStep {
    /// Playback of this target was running and has been stopped.
    Stopped,
    /// The buffer is loaded; start the output.
    Play,
    /// The buffer is loaded, but the playback mode needs an effects render
    /// first: start it, and start the output only if it could be started.
    RenderThenPlay,
}

/// The tester is playing `target`.
pub open spec fn playback_active(app: WavesPreviewer, target: EffectGraphPlaybackTarget) -> bool {
    app.effect_graph_playback_target == Some(target) && app.audio_playing
}

/// `after` is `before` with only the playback fields changed.
pub open spec fn only_playback_changed(before: WavesPreviewer, after: WavesPreviewer) -> bool {
    &&& after.tabs == before.tabs
    &&& after.files == before.files
    &&& after.selected == before.selected
    &&& after.selected_multi == before.selected_multi
    &&& after.active_tab == before.active_tab
    &&& after.toasts == before.toasts
    &&& after.input_preview_loading == before.input_preview_loading
    &&& after.inspection_window_filter_idx == before.inspection_window_filter_idx
}

/// What pressing the play button of `target` does: it stops `target` when
/// it plays; otherwise `target` becomes the tester's playing signal, and
/// the output starts at once unless an effects render must come first.
pub open spec fn toggle_outcome(
    before: WavesPreviewer,
    after: WavesPreviewer,
    target: EffectGraphPlaybackTarget,
    needs_fx_buffer: bool,
    step: PlaybackStep,
) -> bool {
    &&& only_playback_changed(before, after)
    &&& if playback_active(before, target) {
        &&& step == PlaybackStep::Stopped
        &&& after.effect_graph_playback_target is None
        &&& !after.audio_playing
    } else {
        &&& step == if needs_fx_buffer {
            PlaybackStep::RenderThenPlay
        } else {
            PlaybackStep::Play
        }
        &&& after.effect_graph_playback_target == Some(target)
        &&& after.audio_playing == !needs_fx_buffer
    }
}

impl WavesPreviewer {
    /// Whether the tester is playing `target`.
    pub fn effect_graph_playback_active(&self, target: EffectGraphPlaybackTarget) -> (active: bool)
        ensures
            active == playback_active(*self, target),
    {
        self.effect_graph_playback_target == Some(target) && self.audio_playing
    }

    /// The play button pressed for `target`: stops playback when `target`
    /// is playing; otherwise makes `target` the playing one and says how
    /// to start it (`needs_fx_buffer`: the playback mode plays through an
    /// effects render).
    pub fn effect_graph_toggle_playback(&mut self, target: EffectGraphPlaybackTarget, needs_fx_buffer: bool) -> (step: PlaybackStep)
        ensures
            toggle_outcome(*old(self), *final(self), target, needs_fx_buffer, step),
    {
        if self.effect_graph_playback_active(target) {
            self.audio_playing = false;
            self.effect_graph_playback_target = None;
            return PlaybackStep::Stopped;
        }
        self.audio_playing = false;
        self.effect_graph_playback_target = Some(target);
        if needs_fx_buffer {
            return PlaybackStep::RenderThenPlay;
        }
        self.audio_playing = true;
        PlaybackStep::Play
    }

    /// The effects render a `RenderThenPlay` step asked for has been started
    /// (`started`) or could not be: the output plays only in the first case.
    pub fn effect_graph_fx_render_started(&mut self, started: bool)
        ensures
            only_playback_changed(*old(self), *final(self)),
            final(self).effect_graph_playback_target == old(self).effect_graph_playback_target,
            final(self).audio_playing == (started || old(self).audio_playing),
    {
        if started {
            self.audio_playing = true;
        }
    }

    /// The caption of a tester play button: `Stop` while its target plays,
    /// `Loading...` for the input while its preview renders, else `play_label`.
    pub fn effect_graph_play_button_label(&self, target: EffectGraphPlaybackTarget, play_label: &'static str) -> (label: &'static str)
        ensures
            label@ == if playback_active(*self, target) {
                "Stop"@
            } else if target == EffectGraphPlaybackTarget::Input && self.input_preview_loading {
                "Loading..."@
            } else {
                play_label@
            },
    {
        if self.effect_graph_playback_active(target) {
            "Stop"
        } else if target == EffectGraphPlaybackTarget::Input && self.input_preview_loading {
            "Loading..."
        } else {
            play_label
        }
    }
}

/// Pressing the play button of a signal twice in a row, with no effects
/// render in between, undoes the first press: the signal plays afterwards
/// exactly when it played before, and one of the presses stopped it.
pub proof fn lemma_toggle_twice_restores(
    before: WavesPreviewer,
    middle: WavesPreviewer,
    after: WavesPreviewer,
    target: EffectGraphPlaybackTarget,
    first: PlaybackStep,
    second: PlaybackStep,
)
    requires
        toggle_outcome(before, middle, target, false, first),
        toggle_outcome(middle, after, target, false, second),
    ensures
        playback_active(after, target) == playback_active(before, target),
        (first == PlaybackStep::Stopped) != (second == PlaybackStep::Stopped),
{
}

} // verus!
