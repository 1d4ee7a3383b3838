//! Supporting lemmas about the sequencer model: bounds and idempotence of
//! draining, where tempos can come from, and the bounds on tick durations.
//! The public playback laws in `laws` and the executable sequencer's proofs
//! both build on these.

use vstd::prelude::*;

use crate::model::{
    advance_model, all_done, cursors_ok, drain_cursors, drain_dispatch, drain_state, drained, drained_cursor,
    dispatch_upto, event_forwarded, forwarded, length_loop, max_remaining, max_remaining_from,
    quiet_step, replay_model, run_ticks, spec_tick_duration, state_ok, tempo_after, track_dispatch,
    track_max_from, SeqState, SongView,
};
use crate::song::{
    wf_division, wf_event, wf_track, EventPayload, MidiEvent, TimeDivision, DEFAULT_TEMPO_MICROS,
    MAX_EVENT_TICK, MAX_TEMPO_MICROS, MAX_TICK_NANOS,
};

verus! {

/// Whether `e` is a tempo event carrying the value `v`.
pub open spec fn sets_tempo_to(e: MidiEvent, v: int) -> bool {
    match e.payload {
        EventPayload::SetTempo { micros_per_quarter } => micros_per_quarter as int == v,
        _ => false,
    }
}

/// Whether `e` is a tempo event.
pub open spec fn is_tempo_event(e: MidiEvent) -> bool {
    match e.payload {
        EventPayload::SetTempo { .. } => true,
        _ => false,
    }
}

/// Whether `e` is one of the song's events.
pub open spec fn in_song(song: SongView, e: MidiEvent) -> bool {
    exists|i: int, j: int|
        0 <= i < song.tracks.len() && 0 <= j < song.tracks[i].len() && #[trigger] song.tracks[i][j]
            == e
}

/// Draining never moves a cursor backwards nor past the end of the track.
pub proof fn lemma_drained_cursor_bounds(t: Seq<MidiEvent>, c: int, tick: int)
    requires
        0 <= c <= t.len(),
    ensures
        c <= drained_cursor(t, c, tick) <= t.len(),
    decreases t.len() - c,
{
    if c < t.len() && t[c].tick <= tick {
        lemma_drained_cursor_bounds(t, c + 1, tick);
    }
}

/// After draining, the next unconsumed event (if any) lies strictly after
/// `tick`, and every consumed event lay at or before it.
pub proof fn lemma_drained_cursor_front(t: Seq<MidiEvent>, c: int, tick: int)
    requires
        0 <= c <= t.len(),
    ensures
        drained_cursor(t, c, tick) == t.len() || t[drained_cursor(t, c, tick)].tick > tick,
        forall|k: int| c <= k < drained_cursor(t, c, tick) ==> (#[trigger] t[k]).tick <= tick,
    decreases t.len() - c,
{
    if c < t.len() && t[c].tick <= tick {
        lemma_drained_cursor_front(t, c + 1, tick);
    }
}

/// Every event of every per-track dispatch up to `n` is an event of the
/// song, and is well formed when the song is.
pub proof fn lemma_dispatch_upto_in_song(
    song: SongView,
    cursors: Seq<int>,
    tick: int,
    n: int,
)
    requires
        cursors.len() == song.tracks.len(),
        forall|i: int|
            0 <= i < cursors.len() ==> 0 <= #[trigger] cursors[i] <= song.tracks[i].len(),
        0 <= n <= song.tracks.len(),
    ensures
        forall|k: int|
            0 <= k < dispatch_upto(song.tracks, cursors, tick, n).len() ==> in_song(
                song,
                #[trigger] dispatch_upto(song.tracks, cursors, tick, n)[k],
            ),
    decreases n,
{
    if n > 0 {
        lemma_dispatch_upto_in_song(song, cursors, tick, n - 1);
        lemma_drained_cursor_bounds(song.tracks[n - 1], cursors[n - 1], tick);
        let prefix = dispatch_upto(song.tracks, cursors, tick, n - 1);
        let td = track_dispatch(song.tracks[n - 1], cursors[n - 1], tick);
        assert forall|k: int| 0 <= k < prefix.len() + td.len() implies in_song(
            song,
            #[trigger] dispatch_upto(song.tracks, cursors, tick, n)[k],
        ) by {
            if k >= prefix.len() {
                let j = cursors[n - 1] + (k - prefix.len());
                assert(song.tracks[n - 1][j] == td[k - prefix.len()]);
            }
        }
    }
}

/// Every event of a well-formed song is well formed.
pub proof fn lemma_in_song_wf(song: SongView, e: MidiEvent)
    requires
        song.well_formed(),
        in_song(song, e),
    ensures
        wf_event(e),
{
    let (i, j) = choose|i: int, j: int|
        0 <= i < song.tracks.len() && 0 <= j < song.tracks[i].len() && #[trigger] song.tracks[i][j]
            == e;
    assert(wf_track(song.tracks[i]));
    assert(wf_event(song.tracks[i][j]));
}

/// The tempo after a dispatch is either the old tempo or one carried by a
/// tempo event among the dispatched events.
pub proof fn lemma_tempo_after_source(events: Seq<MidiEvent>, tempo: int)
    ensures
        tempo_after(events, tempo) == tempo || exists|k: int|
            0 <= k < events.len() && sets_tempo_to(
                #[trigger] events[k],
                tempo_after(events, tempo),
            ),
    decreases events.len(),
{
    if events.len() > 0 {
        match events.last().payload {
            EventPayload::SetTempo { micros_per_quarter } => {
                assert(events[events.len() - 1] == events.last());
            },
            _ => {
                lemma_tempo_after_source(events.drop_last(), tempo);
                if tempo_after(events, tempo) != tempo {
                    let k = choose|k: int|
                        0 <= k < events.drop_last().len() && sets_tempo_to(
                            #[trigger] events.drop_last()[k],
                            tempo_after(events.drop_last(), tempo),
                        );
                    assert(events[k] == events.drop_last()[k]);
                }
            },
        }
    }
}

/// A dispatch that contains no tempo event leaves the tempo alone.
pub proof fn lemma_tempo_after_unchanged(events: Seq<MidiEvent>, tempo: int)
    requires
        forall|k: int| 0 <= k < events.len() ==> !is_tempo_event(#[trigger] events[k]),
    ensures
        tempo_after(events, tempo) == tempo,
    decreases events.len(),
{
    if events.len() > 0 {
        assert(events[events.len() - 1] == events.last());
        lemma_tempo_after_unchanged(events.drop_last(), tempo);
    }
}

/// A tick always lasts at least one nanosecond and, for a tempo within the
/// three-byte MIDI range, at most `MAX_TICK_NANOS`.
pub proof fn lemma_tick_duration_bounds(division: TimeDivision, tempo: int)
    requires
        wf_division(division),
        0 <= tempo <= MAX_TEMPO_MICROS,
    ensures
        1 <= spec_tick_duration(division, tempo) <= MAX_TICK_NANOS,
{
    match division {
        TimeDivision::TicksPerQuarterNote(ppq) => {
            assert(tempo * 1000 / (ppq as int) <= MAX_TICK_NANOS) by (nonlinear_arith)
                requires
                    0 <= tempo <= MAX_TEMPO_MICROS,
                    ppq >= 1,
            ;
        },
        TimeDivision::TimeCode { frames_per_second, ticks_per_frame } => {
            let fv = crate::model::frame_rate_value(frames_per_second);
            assert(1_000_000_000int / (fv * (ticks_per_frame as int)) <= MAX_TICK_NANOS)
                by (nonlinear_arith)
                requires
                    24 <= fv <= 30,
                    ticks_per_frame >= 1,
            ;
        },
    }
}

/// Draining preserves the structural bounds and leaves the state drained;
/// cursors only move forward, and a finished song stays finished.
pub proof fn lemma_drain_state_ok(song: SongView, s: SeqState)
    requires
        song.well_formed(),
        cursors_ok(song, s),
    ensures
        cursors_ok(song, drain_state(song, s)),
        drained(song, drain_state(song, s)),
        forall|i: int|
            0 <= i < s.cursors.len() ==> s.cursors[i] <= #[trigger] drain_state(
                song,
                s,
            ).cursors[i],
        all_done(song, s.cursors) ==> all_done(song, drain_state(song, s).cursors),
{
    let after = drain_state(song, s);
    assert forall|i: int| 0 <= i < s.cursors.len() implies s.cursors[i] <= #[trigger] after.cursors[i]
        <= song.tracks[i].len() by {
        lemma_drained_cursor_bounds(song.tracks[i], s.cursors[i], s.tick);
    }
    assert forall|i: int|
        0 <= i < after.cursors.len() && after.cursors[i] < song.tracks[i].len() implies (
    #[trigger] song.tracks[i][after.cursors[i]]).tick > after.tick by {
        lemma_drained_cursor_front(song.tracks[i], s.cursors[i], s.tick);
    }
    lemma_dispatch_upto_in_song(song, s.cursors, s.tick, song.tracks.len() as int);
    let disp = drain_dispatch(song.tracks, s.cursors, s.tick);
    lemma_tempo_after_source(disp, s.tempo);
    if after.tempo != s.tempo {
        let k = choose|k: int|
            0 <= k < disp.len() && sets_tempo_to(#[trigger] disp[k], after.tempo);
        lemma_in_song_wf(song, disp[k]);
    }
}

/// Draining an already-drained state changes nothing.
pub proof fn lemma_drain_drained(song: SongView, s: SeqState)
    requires
        cursors_ok(song, s),
        drained(song, s),
    ensures
        drain_state(song, s) == s,
        drain_dispatch(song.tracks, s.cursors, s.tick) == Seq::<MidiEvent>::empty(),
{
    assert forall|i: int| 0 <= i < s.cursors.len() implies #[trigger] drain_cursors(
        song.tracks,
        s.cursors,
        s.tick,
    )[i] == s.cursors[i] by {}
    assert(drain_cursors(song.tracks, s.cursors, s.tick) =~= s.cursors);
    lemma_dispatch_empty(song, s.cursors, s.tick, song.tracks.len() as int);
    assert(drain_state(song, s) =~= s);
}

/// When no track has a due event, the dispatch up to any track count is
/// empty.
proof fn lemma_dispatch_empty(song: SongView, cursors: Seq<int>, tick: int, n: int)
    requires
        cursors.len() == song.tracks.len(),
        forall|i: int|
            0 <= i < cursors.len() ==> 0 <= #[trigger] cursors[i] <= song.tracks[i].len(),
        forall|i: int|
            0 <= i < cursors.len() && cursors[i] < song.tracks[i].len() ==> (
            #[trigger] song.tracks[i][cursors[i]]).tick > tick,
        0 <= n <= song.tracks.len(),
    ensures
        dispatch_upto(song.tracks, cursors, tick, n) == Seq::<MidiEvent>::empty(),
    decreases n,
{
    if n > 0 {
        lemma_dispatch_empty(song, cursors, tick, n - 1);
        assert(drained_cursor(song.tracks[n - 1], cursors[n - 1], tick) == cursors[n - 1]);
        assert(track_dispatch(song.tracks[n - 1], cursors[n - 1], tick) =~= Seq::<
            MidiEvent,
        >::empty());
        assert(dispatch_upto(song.tracks, cursors, tick, n) =~= Seq::<MidiEvent>::empty());
    }
}

/// Whether every tempo the song can ever take keeps one tick's duration at
/// or under `d_max`: the default tempo obeys it, and so does the value of
/// every tempo event of the song.
pub open spec fn duration_bound_ok(song: SongView, d_max: int) -> bool {
    &&& wf_division(song.division)
    &&& spec_tick_duration(song.division, DEFAULT_TEMPO_MICROS as int) <= d_max
    &&& forall|e: MidiEvent, v: int|
        #[trigger] in_song(song, e) && #[trigger] sets_tempo_to(e, v) ==> spec_tick_duration(
            song.division,
            v,
        ) <= d_max
}

/// Draining cannot push the tick duration over a bound that every tempo of
/// the song obeys.
pub proof fn lemma_drain_duration_bound(song: SongView, s: SeqState, d_max: int)
    requires
        cursors_ok(song, s),
        duration_bound_ok(song, d_max),
        spec_tick_duration(song.division, s.tempo) <= d_max,
    ensures
        spec_tick_duration(song.division, drain_state(song, s).tempo) <= d_max,
{
    let disp = drain_dispatch(song.tracks, s.cursors, s.tick);
    let after = drain_state(song, s);
    lemma_tempo_after_source(disp, s.tempo);
    if after.tempo != s.tempo {
        let k = choose|k: int|
            0 <= k < disp.len() && sets_tempo_to(#[trigger] disp[k], after.tempo);
        lemma_dispatch_upto_in_song(song, s.cursors, s.tick, song.tracks.len() as int);
        assert(in_song(song, disp[k]));
    }
}

/// The tick loop preserves the structural bounds, leaves the position
/// alone, only moves cursors and the tick clock forward, keeps a drained
/// state drained, keeps a finished song finished, and stops with less than
/// one tick's duration left in the residual.
pub proof fn lemma_run_ticks_props(song: SongView, s: SeqState)
    requires
        song.well_formed(),
        state_ok(song, s),
    ensures
        state_ok(song, run_ticks(song, s).0),
        run_ticks(song, s).0.position == s.position,
        run_ticks(song, s).0.tick >= s.tick,
        run_ticks(song, s).0.residual <= s.residual,
        forall|i: int|
            0 <= i < s.cursors.len() ==> s.cursors[i] <= #[trigger] run_ticks(song, s).0.cursors[i],
        drained(song, s) ==> drained(song, run_ticks(song, s).0),
        all_done(song, s.cursors) ==> all_done(song, run_ticks(song, s).0.cursors),
        run_ticks(song, s).0.residual < spec_tick_duration(song.division, run_ticks(song, s).0.tempo),
    decreases s.residual,
{
    let d = spec_tick_duration(song.division, s.tempo);
    lemma_tick_duration_bounds(song.division, s.tempo);
    if s.residual >= d {
        let stepped = SeqState { tick: s.tick + 1, residual: s.residual - d, ..s };
        lemma_drain_state_ok(song, stepped);
        let mid = drain_state(song, stepped);
        lemma_run_ticks_props(song, mid);
        if all_done(song, s.cursors) {
            assert(all_done(song, mid.cursors));
        }
    }
}

/// A live advance preserves the structural bounds, moves the position by
/// exactly the elapsed time, only moves cursors forward, ends drained, and
/// keeps a finished song finished.
pub proof fn lemma_advance_props(song: SongView, s: SeqState, delta: int)
    requires
        song.well_formed(),
        state_ok(song, s),
        delta >= 0,
    ensures
        state_ok(song, advance_model(song, s, delta).0),
        advance_model(song, s, delta).0.position == s.position + delta,
        advance_model(song, s, delta).0.tick >= s.tick,
        forall|i: int|
            0 <= i < s.cursors.len() ==> s.cursors[i] <= #[trigger] advance_model(
                song,
                s,
                delta,
            ).0.cursors[i],
        drained(song, advance_model(song, s, delta).0),
        all_done(song, s.cursors) ==> all_done(song, advance_model(song, s, delta).0.cursors),
{
    let grown = SeqState { position: s.position + delta, residual: s.residual + delta, ..s };
    lemma_drain_state_ok(song, grown);
    lemma_run_ticks_props(song, drain_state(song, grown));
}

/// One quiet step preserves the structural bounds, moves the position by
/// one tick's duration (at least one nanosecond), ends drained when the
/// state was drained, and keeps a finished song finished.
pub proof fn lemma_quiet_step_props(song: SongView, s: SeqState)
    requires
        song.well_formed(),
        state_ok(song, s),
    ensures
        state_ok(song, quiet_step(song, s).0),
        quiet_step(song, s).0.position == s.position + spec_tick_duration(
            song.division,
            s.tempo,
        ),
        quiet_step(song, s).0.position > s.position,
        quiet_step(song, s).0.residual == s.residual,
        quiet_step(song, s).0.tick == s.tick + 1,
        drained(song, quiet_step(song, s).0),
        forall|i: int|
            0 <= i < s.cursors.len() ==> s.cursors[i] <= #[trigger] quiet_step(song, s).0.cursors[i],
        all_done(song, s.cursors) ==> all_done(song, quiet_step(song, s).0.cursors),
{
    let d = spec_tick_duration(song.division, s.tempo);
    lemma_tick_duration_bounds(song.division, s.tempo);
    let stepped = SeqState { position: s.position + d, tick: s.tick + 1, ..s };
    lemma_drain_state_ok(song, stepped);
}

/// Quiet replay reaches the target position (or was already past it) and
/// preserves the structural bounds; with `d_max` bounding every tick, it
/// overshoots the target by less than one tick.
pub proof fn lemma_replay_props(song: SongView, s: SeqState, target: int, d_max: int)
    requires
        song.well_formed(),
        state_ok(song, s),
        duration_bound_ok(song, d_max),
        spec_tick_duration(song.division, s.tempo) <= d_max,
    ensures
        state_ok(song, replay_model(song, s, target).0),
        s.position >= target ==> replay_model(song, s, target).0 == s,
        replay_model(song, s, target).0.position >= target,
        s.position <= target ==> replay_model(song, s, target).0.position < target + d_max,
        replay_model(song, s, target).0.residual == s.residual,
        spec_tick_duration(song.division, replay_model(song, s, target).0.tempo) <= d_max,
        forall|i: int|
            0 <= i < s.cursors.len() ==> s.cursors[i] <= #[trigger] replay_model(
                song,
                s,
                target,
            ).0.cursors[i],
        all_done(song, s.cursors) ==> all_done(song, replay_model(song, s, target).0.cursors),
    decreases (if s.position < target {
        target - s.position
    } else {
        0
    }),
{
    if s.position < target {
        let (stepped, _) = quiet_step(song, s);
        lemma_quiet_step_props(song, s);
        let pre = SeqState {
            position: s.position + spec_tick_duration(song.division, s.tempo),
            tick: s.tick + 1,
            ..s
        };
        lemma_drain_duration_bound(song, pre, d_max);
        lemma_replay_props(song, stepped, target, d_max);
    }
}

/// Every event a drain dispatches from a well-formed song is well formed.
pub proof fn lemma_drain_dispatch_wf(song: SongView, cursors: Seq<int>, tick: int)
    requires
        song.well_formed(),
        cursors.len() == song.tracks.len(),
        forall|i: int|
            0 <= i < cursors.len() ==> 0 <= #[trigger] cursors[i] <= song.tracks[i].len(),
    ensures
        forall|k: int|
            0 <= k < drain_dispatch(song.tracks, cursors, tick).len() ==> wf_event(
                #[trigger] drain_dispatch(song.tracks, cursors, tick)[k],
            ),
{
    lemma_dispatch_upto_in_song(song, cursors, tick, song.tracks.len() as int);
    let disp = drain_dispatch(song.tracks, cursors, tick);
    assert forall|k: int| 0 <= k < disp.len() implies wf_event(#[trigger] disp[k]) by {
        lemma_in_song_wf(song, disp[k]);
    }
}

/// Forwarding distributes over concatenation of dispatches.
pub proof fn lemma_forwarded_add(a: Seq<MidiEvent>, b: Seq<MidiEvent>, quiet: bool)
    ensures
        forwarded(a + b, quiet) == forwarded(a, quiet) + forwarded(b, quiet),
    decreases b.len(),
{
    if b.len() == 0 {
        assert(a + b =~= a);
        assert(forwarded(a, quiet) + forwarded(b, quiet) =~= forwarded(a, quiet));
    } else {
        assert((a + b).last() == b.last());
        assert((a + b).drop_last() =~= a + b.drop_last());
        lemma_forwarded_add(a, b.drop_last(), quiet);
        assert(forwarded(a, quiet) + forwarded(b, quiet) =~= (forwarded(a, quiet) + forwarded(
            b.drop_last(),
            quiet,
        )) + (if event_forwarded(b.last(), quiet) {
            seq![b.last()]
        } else {
            Seq::<MidiEvent>::empty()
        }));
    }
}

/// The greatest remaining timestamp of one track never exceeds the
/// well-formedness bound, and never drops below `-1`.
pub proof fn lemma_track_max_from_bounds(t: Seq<MidiEvent>, c: int)
    requires
        wf_track(t),
        0 <= c,
    ensures
        -1 <= track_max_from(t, c) <= MAX_EVENT_TICK,
    decreases t.len() - c,
{
    if c < t.len() {
        assert(wf_event(t[c]));
        lemma_track_max_from_bounds(t, c + 1);
    }
}

/// Moving a cursor forward can only shrink the greatest remaining
/// timestamp of its track.
pub proof fn lemma_track_max_from_monotone(t: Seq<MidiEvent>, c1: int, c2: int)
    requires
        0 <= c1 <= c2,
    ensures
        track_max_from(t, c2) <= track_max_from(t, c1),
    decreases c2 - c1,
{
    if c1 < c2 && c1 < t.len() {
        lemma_track_max_from_monotone(t, c1 + 1, c2);
    }
    if c1 >= t.len() && c2 > c1 {
        lemma_track_max_from_empty(t, c1);
        lemma_track_max_from_empty(t, c2);
    }
}

/// Past the end of a track nothing remains.
pub proof fn lemma_track_max_from_empty(t: Seq<MidiEvent>, c: int)
    requires
        c >= t.len(),
    ensures
        track_max_from(t, c) == -1,
{
}

/// The global remaining maximum dominates each track's.
pub proof fn lemma_max_remaining_ge_track(
    tracks: Seq<Seq<MidiEvent>>,
    cursors: Seq<int>,
    from: int,
    i: int,
)
    requires
        cursors.len() == tracks.len(),
        0 <= from <= i < tracks.len(),
    ensures
        max_remaining_from(tracks, cursors, from) >= track_max_from(tracks[i], cursors[i]),
    decreases tracks.len() - from,
{
    if from < i {
        lemma_max_remaining_ge_track(tracks, cursors, from + 1, i);
    }
}

/// Bounds on the global remaining maximum for a well-formed song.
pub proof fn lemma_max_remaining_bounds(song: SongView, cursors: Seq<int>, from: int)
    requires
        song.well_formed(),
        cursors.len() == song.tracks.len(),
        forall|i: int| 0 <= i < cursors.len() ==> #[trigger] cursors[i] >= 0,
        0 <= from <= song.tracks.len(),
    ensures
        -1 <= max_remaining_from(song.tracks, cursors, from) <= MAX_EVENT_TICK,
    decreases song.tracks.len() - from,
{
    if from < song.tracks.len() {
        assert(wf_track(song.tracks[from]));
        lemma_track_max_from_bounds(song.tracks[from], cursors[from]);
        lemma_max_remaining_bounds(song, cursors, from + 1);
    }
}

/// Moving cursors forward can only shrink the global remaining maximum.
pub proof fn lemma_max_remaining_monotone(
    tracks: Seq<Seq<MidiEvent>>,
    c1: Seq<int>,
    c2: Seq<int>,
    from: int,
)
    requires
        c1.len() == tracks.len(),
        c2.len() == tracks.len(),
        forall|i: int| 0 <= i < tracks.len() ==> 0 <= #[trigger] c1[i] <= c2[i],
        0 <= from <= tracks.len(),
    ensures
        max_remaining_from(tracks, c2, from) <= max_remaining_from(tracks, c1, from),
    decreases tracks.len() - from,
{
    if from < tracks.len() {
        lemma_track_max_from_monotone(tracks[from], c1[from], c2[from]);
        lemma_max_remaining_monotone(tracks, c1, c2, from + 1);
    }
}

/// In a drained state that is not yet finished, the tick clock lies
/// strictly below the greatest remaining timestamp.
pub proof fn lemma_not_done_tick_lt_max(song: SongView, s: SeqState)
    requires
        cursors_ok(song, s),
        drained(song, s),
        !all_done(song, s.cursors),
    ensures
        s.tick < max_remaining(song, s.cursors),
{
    let i = choose|i: int|
        0 <= i < s.cursors.len() && !(#[trigger] s.cursors[i] >= song.tracks[i].len());
    assert(song.tracks[i][s.cursors[i]].tick > s.tick);
    assert(track_max_from(song.tracks[i], s.cursors[i]) >= song.tracks[i][s.cursors[i]].tick);
    lemma_max_remaining_ge_track(song.tracks, s.cursors, 0, i);
}

/// For a well-formed song, every tempo it can take keeps one tick at or
/// under `MAX_TICK_NANOS`.
pub proof fn lemma_wf_duration_bound(song: SongView)
    requires
        song.well_formed(),
    ensures
        duration_bound_ok(song, MAX_TICK_NANOS as int),
{
    lemma_tick_duration_bounds(song.division, DEFAULT_TEMPO_MICROS as int);
    assert forall|e: MidiEvent, v: int| in_song(song, e) && sets_tempo_to(e, v) implies
        spec_tick_duration(song.division, v) <= MAX_TICK_NANOS as int by {
        lemma_in_song_wf(song, e);
        lemma_tick_duration_bounds(song.division, v);
    }
}

/// Pouring more residual into a state after the tick loop has drunk its
/// fill, then running the loop again, reaches the same state and dispatch
/// as running the loop once with the whole residual.
pub proof fn lemma_run_ticks_extend(song: SongView, s: SeqState, extra: int)
    requires
        0 <= s.residual,
        0 <= extra,
    ensures
        ({
            let first = run_ticks(song, s);
            let widened = SeqState {
                residual: first.0.residual + extra,
                position: first.0.position + extra,
                ..first.0
            };
            let second = run_ticks(song, widened);
            let whole = run_ticks(
                song,
                SeqState { residual: s.residual + extra, position: s.position + extra, ..s },
            );
            second.0 == whole.0 && first.1 + second.1 == whole.1
        }),
    decreases s.residual,
{
    let d = spec_tick_duration(song.division, s.tempo);
    let first = run_ticks(song, s);
    let grown = SeqState { residual: s.residual + extra, position: s.position + extra, ..s };
    if s.residual >= d {
        let stepped = SeqState { tick: s.tick + 1, residual: s.residual - d, ..s };
        let mid = drain_state(song, stepped);
        let stepped_g = SeqState {
            tick: grown.tick + 1,
            residual: grown.residual - d,
            ..grown
        };
        let mid_g = drain_state(song, stepped_g);
        assert(mid_g =~= SeqState {
            residual: mid.residual + extra,
            position: mid.position + extra,
            ..mid
        });
        lemma_run_ticks_extend(song, mid, extra);
        let disp = drain_dispatch(song.tracks, stepped.cursors, stepped.tick);
        let inner_first = run_ticks(song, mid);
        let inner_widened = SeqState {
            residual: inner_first.0.residual + extra,
            position: inner_first.0.position + extra,
            ..inner_first.0
        };
        assert((disp + inner_first.1) + run_ticks(song, inner_widened).1 =~= disp + (
        inner_first.1 + run_ticks(song, inner_widened).1));
    } else {
        assert(first.0 == s && first.1 == Seq::<MidiEvent>::empty());
        let widened = SeqState {
            residual: s.residual + extra,
            position: s.position + extra,
            ..s
        };
        assert(widened =~= grown);
        assert(first.1 + run_ticks(song, widened).1 =~= run_ticks(song, grown).1);
    }
}

/// Replaying to an intermediate target and then onward reaches the same
/// state and dispatch as replaying straight to the final target.
pub proof fn lemma_replay_compose(song: SongView, s: SeqState, t: int, p: int)
    requires
        t <= p,
    ensures
        replay_model(song, replay_model(song, s, t).0, p).0 == replay_model(song, s, p).0,
        replay_model(song, s, t).1 + replay_model(song, replay_model(song, s, t).0, p).1
            == replay_model(song, s, p).1,
    decreases (if s.position < t {
        t - s.position
    } else {
        0
    }),
{
    if s.position < t {
        let (stepped, q1) = quiet_step(song, s);
        lemma_quiet_step_props_weak(song, s);
        lemma_replay_compose(song, stepped, t, p);
        let r_t = replay_model(song, stepped, t);
        assert((q1 + r_t.1) + replay_model(song, r_t.0, p).1 =~= q1 + (r_t.1 + replay_model(
            song,
            r_t.0,
            p,
        ).1));
    } else {
        assert(replay_model(song, s, t).0 == s);
        assert(replay_model(song, s, t).1 + replay_model(song, s, p).1 =~= replay_model(
            song,
            s,
            p,
        ).1);
    }
}

/// A quiet step strictly advances the position, with no further
/// assumptions on the state.
proof fn lemma_quiet_step_props_weak(song: SongView, s: SeqState)
    ensures
        quiet_step(song, s).0.position > s.position,
{
}

/// No track has a tempo event left at or beyond its cursor.
pub open spec fn no_remaining_tempo(song: SongView, cursors: Seq<int>) -> bool {
    forall|i: int, j: int|
        0 <= i < song.tracks.len() && cursors[i] <= j < song.tracks[i].len()
            ==> !is_tempo_event(#[trigger] song.tracks[i][j])
}

/// A track's remaining maximum dominates each of its remaining events.
pub proof fn lemma_track_max_ge_elem(t: Seq<MidiEvent>, c: int, j: int)
    requires
        0 <= c <= j < t.len(),
    ensures
        track_max_from(t, c) >= t[j].tick as int,
    decreases j - c,
{
    if c < j {
        lemma_track_max_ge_elem(t, c + 1, j);
    }
}

/// A non-empty remaining track attains its maximum.
pub proof fn lemma_track_max_attained(t: Seq<MidiEvent>, c: int)
    requires
        0 <= c <= t.len(),
        track_max_from(t, c) >= 0,
    ensures
        exists|j: int| c <= j < t.len() && (#[trigger] t[j]).tick as int == track_max_from(t, c),
    decreases t.len() - c,
{
    if c < t.len() {
        let rest = track_max_from(t, c + 1);
        if t[c].tick as int >= rest {
            assert(c <= c < t.len() && t[c].tick as int == track_max_from(t, c));
        } else {
            lemma_track_max_attained(t, c + 1);
        }
    }
}

/// A non-empty remaining song attains its maximum timestamp.
pub proof fn lemma_max_remaining_attained(song: SongView, cursors: Seq<int>, from: int)
    requires
        cursors.len() == song.tracks.len(),
        forall|i: int| 0 <= i < cursors.len() ==> #[trigger] cursors[i] >= 0,
        0 <= from <= song.tracks.len(),
        max_remaining_from(song.tracks, cursors, from) >= 0,
    ensures
        exists|i: int, j: int|
            from <= i < song.tracks.len() && cursors[i] <= j < song.tracks[i].len() && (
            #[trigger] song.tracks[i][j]).tick as int == max_remaining_from(
                song.tracks,
                cursors,
                from,
            ),
    decreases song.tracks.len() - from,
{
    let here = track_max_from(song.tracks[from], cursors[from]);
    let rest = max_remaining_from(song.tracks, cursors, from + 1);
    if here >= rest {
        lemma_track_max_attained(song.tracks[from], cursors[from]);
        let j = choose|j: int|
            cursors[from] <= j < song.tracks[from].len() && (#[trigger] song.tracks[from][
                j
            ]).tick as int == here;
        assert(from <= from < song.tracks.len() && cursors[from] <= j < song.tracks[from].len()
            && song.tracks[from][j].tick as int == max_remaining_from(
                song.tracks,
                cursors,
                from,
            ));
    } else {
        lemma_max_remaining_attained(song, cursors, from + 1);
    }
}

/// Every remaining event lies at or below the remaining maximum.
pub proof fn lemma_remaining_le_max(song: SongView, cursors: Seq<int>, i: int, j: int)
    requires
        cursors.len() == song.tracks.len(),
        0 <= i < song.tracks.len(),
        0 <= cursors[i] <= j < song.tracks[i].len(),
    ensures
        song.tracks[i][j].tick as int <= max_remaining(song, cursors),
{
    lemma_track_max_ge_elem(song.tracks[i], cursors[i], j);
    lemma_max_remaining_ge_track(song.tracks, cursors, 0, i);
}

/// A drained state whose tick has reached the remaining maximum has
/// nothing left: every track is fully consumed.
pub proof fn lemma_drained_past_max_done(song: SongView, s: SeqState)
    requires
        cursors_ok(song, s),
        drained(song, s),
        max_remaining(song, s.cursors) <= s.tick,
    ensures
        all_done(song, s.cursors),
{
    assert forall|i: int| 0 <= i < s.cursors.len() implies #[trigger] s.cursors[i]
        >= song.tracks[i].len() by {
        if s.cursors[i] < song.tracks[i].len() {
            lemma_remaining_le_max(song, s.cursors, i, s.cursors[i]);
        }
    }
}

/// When no remaining event is a tempo event, neither is any dispatched
/// event.
pub proof fn lemma_dispatch_upto_no_tempo(song: SongView, cursors: Seq<int>, tick: int, n: int)
    requires
        cursors.len() == song.tracks.len(),
        forall|i: int|
            0 <= i < cursors.len() ==> 0 <= #[trigger] cursors[i] <= song.tracks[i].len(),
        no_remaining_tempo(song, cursors),
        0 <= n <= song.tracks.len(),
    ensures
        forall|k: int|
            0 <= k < dispatch_upto(song.tracks, cursors, tick, n).len() ==> !is_tempo_event(
                #[trigger] dispatch_upto(song.tracks, cursors, tick, n)[k],
            ),
    decreases n,
{
    if n > 0 {
        lemma_dispatch_upto_no_tempo(song, cursors, tick, n - 1);
        lemma_drained_cursor_bounds(song.tracks[n - 1], cursors[n - 1], tick);
        let prefix = dispatch_upto(song.tracks, cursors, tick, n - 1);
        let td = track_dispatch(song.tracks[n - 1], cursors[n - 1], tick);
        assert forall|k: int| 0 <= k < prefix.len() + td.len() implies !is_tempo_event(
            #[trigger] dispatch_upto(song.tracks, cursors, tick, n)[k],
        ) by {
            if k >= prefix.len() {
                let j = cursors[n - 1] + (k - prefix.len());
                assert(song.tracks[n - 1][j] == td[k - prefix.len()]);
            }
        }
    }
}

/// The length simulation is non-negative and bounded by one slowest tick
/// for every tick-clock step it can still take.
pub proof fn lemma_length_loop_bounds(song: SongView, s: SeqState, stop: int)
    requires
        song.well_formed(),
        cursors_ok(song, s),
    ensures
        0 <= length_loop(song, s, stop),
        length_loop(song, s, stop) <= (if s.tick <= stop {
            (stop + 1 - s.tick) * (MAX_TICK_NANOS as int)
        } else {
            0
        }),
    decreases (if s.tick <= stop {
        stop + 1 - s.tick
    } else {
        0
    }),
{
    if !(all_done(song, s.cursors) || s.tick > stop) {
        let d = spec_tick_duration(song.division, s.tempo);
        lemma_tick_duration_bounds(song.division, s.tempo);
        let stepped = SeqState { tick: s.tick + 1, ..s };
        lemma_drain_state_ok(song, stepped);
        lemma_length_loop_bounds(song, drain_state(song, stepped), stop);
    }
}

} // verus!
