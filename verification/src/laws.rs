//! The laws of playback, stated over the model that the sequencer's
//! contracts use and proved once and for all.  Each law is a public proof
//! function whose statement is the property; the executable sequencer's
//! `ensures` clauses tie its behaviour to the same model functions.

use vstd::prelude::*;

use crate::lemmas::{
    duration_bound_ok, lemma_advance_props, lemma_dispatch_upto_no_tempo, lemma_drain_drained,
    lemma_drain_state_ok, lemma_drained_cursor_front, lemma_drained_past_max_done,
    lemma_max_remaining_attained, lemma_max_remaining_monotone, lemma_not_done_tick_lt_max,
    lemma_remaining_le_max, lemma_replay_compose, lemma_replay_props, lemma_run_ticks_extend,
    lemma_run_ticks_props, lemma_tempo_after_unchanged, lemma_wf_duration_bound,
    no_remaining_tempo,
};
use crate::model::{
    advance_model, all_done, cursors_ok, drain_dispatch, drain_state, initial_state, length_loop,
    drained, max_remaining, replay_model, run_ticks, seek_model, song_length_model, spec_tick_duration,
    state_ok, SeqState, SongView,
};
use crate::song::{MidiEvent, DEFAULT_TEMPO_MICROS, MAX_TICK_NANOS};

verus! {

/// Tick accumulation is exact, not lossy: advancing by `d1` and then by
/// `d2` dispatches, in order, exactly the events of a single advance by
/// `d1 + d2`, and reaches the same state.  So for any way of chunking a
/// total elapsed time, the set and order of dispatched events and the
/// final state are those of one large advance.
pub proof fn lemma_advance_chunking(song: SongView, s: SeqState, d1: int, d2: int)
    requires
        song.well_formed(),
        state_ok(song, s),
        0 <= d1,
        0 <= d2,
    ensures
        advance_model(song, advance_model(song, s, d1).0, d2).0 == advance_model(
            song,
            s,
            d1 + d2,
        ).0,
        advance_model(song, s, d1).1 + advance_model(song, advance_model(song, s, d1).0, d2).1
            == advance_model(song, s, d1 + d2).1,
{
    let grown1 = SeqState { position: s.position + d1, residual: s.residual + d1, ..s };
    let disp0 = drain_dispatch(song.tracks, grown1.cursors, grown1.tick);
    lemma_drain_state_ok(song, grown1);
    let m = drain_state(song, grown1);
    lemma_run_ticks_props(song, m);
    let first = run_ticks(song, m);
    let a = first.0;

    // The second advance starts from a drained state, so its initial
    // drain moves nothing and dispatches nothing.
    let grown_a = SeqState { position: a.position + d2, residual: a.residual + d2, ..a };
    lemma_drain_drained(song, grown_a);
    assert(drain_state(song, grown_a) == grown_a);

    // One large advance drains the same events first, then runs the tick
    // loop on the same state with `d2` more residual.
    let grown12 = SeqState {
        position: s.position + (d1 + d2),
        residual: s.residual + (d1 + d2),
        ..s
    };
    assert(drain_dispatch(song.tracks, grown12.cursors, grown12.tick) == disp0);
    let m12 = drain_state(song, grown12);
    assert(m12 =~= SeqState { residual: m.residual + d2, position: m.position + d2, ..m });

    lemma_run_ticks_extend(song, m, d2);
    assert(grown_a =~= SeqState {
        residual: first.0.residual + d2,
        position: first.0.position + d2,
        ..first.0
    });

    let second = run_ticks(song, grown_a);
    let whole = run_ticks(song, m12);
    assert(advance_model(song, advance_model(song, s, d1).0, d2).1 =~= Seq::<
        MidiEvent,
    >::empty() + second.1);
    assert(Seq::<MidiEvent>::empty() + second.1 =~= second.1);
    assert((disp0 + first.1) + second.1 =~= disp0 + (first.1 + second.1));
}

/// Seek accuracy: with every tick of the song lasting at most `d_max`
/// nanoseconds, seeking to `target` leaves the position at or above the
/// target and strictly less than one tick beyond it.
pub proof fn lemma_seek_position_window(song: SongView, s: SeqState, target: int, d_max: int)
    requires
        song.well_formed(),
        state_ok(song, s),
        duration_bound_ok(song, d_max),
        spec_tick_duration(song.division, s.tempo) <= d_max,
        0 <= target,
    ensures
        target <= seek_model(song, s, target).0.position < target + d_max,
{
    if target < s.position {
        let init = initial_state(song);
        lemma_wf_duration_bound(song);
        lemma_replay_props(song, init, target, d_max);
    } else {
        let start = SeqState { residual: 0, ..s };
        lemma_replay_props(song, start, target, d_max);
    }
}

/// Replay determinism: after seeking backward, seeking forward again to
/// any position at or beyond the first target reproduces exactly the
/// tempo, cursor, tick and position state of a single seek there — the
/// quiet replay is deterministic and idempotent with respect to the final
/// state.
pub proof fn lemma_seek_idempotent(song: SongView, s: SeqState, t: int, p: int)
    requires
        song.well_formed(),
        state_ok(song, s),
        0 <= t <= p,
        t < s.position,
        p < s.position,
    ensures
        seek_model(song, seek_model(song, s, t).0, p).0 == seek_model(song, s, p).0,
{
    let init = initial_state(song);
    let s1 = replay_model(song, init, t).0;
    lemma_wf_duration_bound(song);
    lemma_replay_props(song, init, t, MAX_TICK_NANOS as int);
    assert(s1.residual == 0);
    if p < s1.position {
        // Still behind the replayed position: the second seek rewinds
        // again, exactly as a single seek to `p` would.
    } else {
        assert(SeqState { residual: 0, ..s1 } =~= s1);
        lemma_replay_compose(song, init, t, p);
    }
}

/// Seeking backward and then forward to the original position reproduces
/// the original tempo, cursor, tick and position state, for any position
/// the sequencer reached by seeking: quiet replay from the top is
/// deterministic, so the round trip changes nothing.
pub proof fn lemma_seek_back_and_forth(song: SongView, q: int, t: int)
    requires
        song.well_formed(),
        0 <= t,
        t < replay_model(song, initial_state(song), q).0.position,
    ensures
        ({
            let s = replay_model(song, initial_state(song), q).0;
            seek_model(song, seek_model(song, s, t).0, s.position).0 == s
        }),
{
    let init = initial_state(song);
    let s = replay_model(song, init, q).0;
    lemma_wf_duration_bound(song);
    lemma_replay_props(song, init, q, MAX_TICK_NANOS as int);
    assert(s.residual == 0);

    // The backward seek rewinds and replays quietly to `t`.
    let s1 = seek_model(song, s, t).0;
    assert(s1 == replay_model(song, init, t).0);
    lemma_replay_props(song, init, t, MAX_TICK_NANOS as int);
    assert(s1.residual == 0);

    // Replaying on to the original position retraces the same steps as
    // one replay from the top, which stops exactly where `s` stands.
    lemma_replay_compose(song, init, t, s.position);
    lemma_replay_compose(song, init, q, s.position);
    assert(replay_model(song, s, s.position).0 == s);
    assert(replay_model(song, init, s.position).0 == s);
    if s.position < s1.position {
        // The forward seek still lies behind the replayed position, so it
        // rewinds once more and replays from the top directly.
        assert(seek_model(song, s1, s.position).0 == s);
    } else {
        assert(SeqState { residual: 0, ..s1 } =~= s1);
        assert(seek_model(song, s1, s.position).0 == s);
    }
}

/// Song length under a constant tempo: from any drained state whose
/// remaining events carry no tempo change, the rest of the length
/// simulation lasts exactly one tick's duration at the current tempo for
/// each tick up to the greatest remaining timestamp; nothing once every
/// track is consumed.
pub proof fn lemma_length_loop_constant(song: SongView, s: SeqState, stop: int)
    requires
        song.well_formed(),
        cursors_ok(song, s),
        drained(song, s),
        no_remaining_tempo(song, s.cursors),
        !all_done(song, s.cursors) ==> max_remaining(song, s.cursors) == stop,
    ensures
        length_loop(song, s, stop) == (if all_done(song, s.cursors) {
            0
        } else {
            (stop - s.tick) * spec_tick_duration(song.division, s.tempo)
        }),
    decreases (if s.tick <= stop {
        stop + 1 - s.tick
    } else {
        0
    }),
{
    if !all_done(song, s.cursors) {
        lemma_not_done_tick_lt_max(song, s);
        let d = spec_tick_duration(song.division, s.tempo);
        let stepped = SeqState { tick: s.tick + 1, ..s };
        lemma_drain_state_ok(song, stepped);
        let next = drain_state(song, stepped);
        lemma_dispatch_upto_no_tempo(song, stepped.cursors, stepped.tick, song.tracks.len() as int);
        lemma_tempo_after_unchanged(
            drain_dispatch(song.tracks, stepped.cursors, stepped.tick),
            s.tempo,
        );
        assert(next.tempo == s.tempo);
        assert(length_loop(song, s, stop) == d + length_loop(song, next, stop));
        assert(no_remaining_tempo(song, next.cursors));

        lemma_max_remaining_attained(song, s.cursors, 0);
        let (wi, wj) = choose|i: int, j: int|
            0 <= i < song.tracks.len() && s.cursors[i] <= j < song.tracks[i].len() && (
            #[trigger] song.tracks[i][j]).tick as int == stop;
        lemma_drained_cursor_front(song.tracks[wi], stepped.cursors[wi], stepped.tick);

        if all_done(song, next.cursors) {
            // The greatest remaining event was consumed in this very
            // drain, so its timestamp is at most the new tick: the song
            // ends exactly one tick after the current one.
            if stop > s.tick + 1 {
                assert(next.cursors[wi] >= song.tracks[wi].len());
                assert(wj < next.cursors[wi]);
                assert(song.tracks[wi][wj].tick as int <= stepped.tick);
                assert(false);
            }
            assert(stop == s.tick + 1);
            lemma_length_loop_constant(song, next, stop);
            assert(length_loop(song, next, stop) == 0);
            assert(length_loop(song, s, stop) == d);
            assert((stop - s.tick) * d == d) by (nonlinear_arith)
                requires
                    stop == s.tick + 1,
            ;
        } else {
            // The greatest remaining event survives the drain, so the
            // remaining maximum is unchanged.
            lemma_max_remaining_monotone(song.tracks, s.cursors, next.cursors, 0);
            if stop <= s.tick + 1 {
                lemma_drained_past_max_done(song, next);
                assert(false);
            }
            assert(wj >= next.cursors[wi]) by {
                if wj < next.cursors[wi] {
                    assert(song.tracks[wi][wj].tick as int <= stepped.tick);
                }
            }
            lemma_remaining_le_max(song, next.cursors, wi, wj);
            assert(max_remaining(song, next.cursors) == stop);
            lemma_length_loop_constant(song, next, stop);
            assert(length_loop(song, next, stop) == (stop - (s.tick + 1)) * d);
            assert(d + (stop - (s.tick + 1)) * d == (stop - s.tick) * d) by (nonlinear_arith);
            assert(length_loop(song, s, stop) == (stop - s.tick) * d);
        }
    }
}

/// Song length under a single tempo, for a whole song: with no tempo
/// event anywhere, the precomputed duration is the greatest event
/// timestamp times one tick's duration at the default tempo — for ticks
/// per quarter note, `N` ticks last `N * tempo * 1000 / ppq` nanoseconds.
pub proof fn lemma_song_length_constant_tempo(song: SongView)
    requires
        song.well_formed(),
        no_remaining_tempo(song, initial_state(song).cursors),
    ensures
        max_remaining(song, initial_state(song).cursors) < 0 ==> song_length_model(song) == 0,
        max_remaining(song, initial_state(song).cursors) >= 0 ==> song_length_model(song)
            == max_remaining(song, initial_state(song).cursors) * spec_tick_duration(
            song.division,
            DEFAULT_TEMPO_MICROS as int,
        ),
{
    let s0 = initial_state(song);
    let stop = max_remaining(song, s0.cursors);
    lemma_drain_state_ok(song, s0);
    let s1 = drain_state(song, s0);
    assert(song_length_model(song) == length_loop(song, s1, stop));
    lemma_dispatch_upto_no_tempo(song, s0.cursors, s0.tick, song.tracks.len() as int);
    lemma_tempo_after_unchanged(drain_dispatch(song.tracks, s0.cursors, s0.tick), s0.tempo);
    assert(s1.tempo == s0.tempo);
    assert(no_remaining_tempo(song, s1.cursors));
    if all_done(song, s1.cursors) {
        // Everything was consumed at tick zero, so no event lies beyond
        // tick zero and the simulated duration is zero.
        assert(length_loop(song, s1, stop) == 0);
        if stop > 0 {
            lemma_max_remaining_attained(song, s0.cursors, 0);
            let (wi, wj) = choose|i: int, j: int|
                0 <= i < song.tracks.len() && s0.cursors[i] <= j < song.tracks[i].len() && (
                #[trigger] song.tracks[i][j]).tick as int == stop;
            lemma_drained_cursor_front(song.tracks[wi], s0.cursors[wi], s0.tick);
            assert(wj < s1.cursors[wi]);
            assert(song.tracks[wi][wj].tick as int <= 0);
            assert(false);
        }
        assert(stop <= 0);
        assert(song_length_model(song) == 0);
        if stop == 0 {
            assert(stop * spec_tick_duration(song.division, DEFAULT_TEMPO_MICROS as int) == 0)
                by (nonlinear_arith)
                requires
                    stop == 0,
            ;
        }
    } else {
        lemma_not_done_tick_lt_max(song, s1);
        lemma_max_remaining_monotone(song.tracks, s0.cursors, s1.cursors, 0);
        lemma_max_remaining_attained(song, s0.cursors, 0);
        let (wi, wj) = choose|i: int, j: int|
            0 <= i < song.tracks.len() && s0.cursors[i] <= j < song.tracks[i].len() && (
            #[trigger] song.tracks[i][j]).tick as int == stop;
        lemma_drained_cursor_front(song.tracks[wi], s0.cursors[wi], s0.tick);
        assert(wj >= s1.cursors[wi]) by {
            if wj < s1.cursors[wi] {
                assert(song.tracks[wi][wj].tick as int <= s0.tick);
            }
        }
        lemma_remaining_le_max(song, s1.cursors, wi, wj);
        assert(max_remaining(song, s1.cursors) == stop);
        lemma_length_loop_constant(song, s1, stop);
        assert(length_loop(song, s1, stop) == (stop - s1.tick) * spec_tick_duration(
            song.division,
            s1.tempo,
        ));
        assert(s1.tick == 0);
        assert(s1.tempo == DEFAULT_TEMPO_MICROS as int);
        assert(song_length_model(song) == stop * spec_tick_duration(
            song.division,
            DEFAULT_TEMPO_MICROS as int,
        ));
    }
}

/// End of sequence is stable: once every track's cursor has reached its
/// track's event count, any further advance, of any duration, leaves it
/// so, and so does any forward seek; it can only be undone by loading a
/// song or rewinding.
pub proof fn lemma_end_of_sequence_stable(song: SongView, s: SeqState, delta: int, target: int)
    requires
        song.well_formed(),
        state_ok(song, s),
        0 <= delta,
        all_done(song, s.cursors),
    ensures
        all_done(song, advance_model(song, s, delta).0.cursors),
        target >= s.position ==> all_done(song, seek_model(song, s, target).0.cursors),
{
    lemma_advance_props(song, s, delta);
    if target >= s.position {
        lemma_wf_duration_bound(song);
        lemma_replay_props(
            song,
            SeqState { residual: 0, ..s },
            target,
            MAX_TICK_NANOS as int,
        );
    }
}

} // verus!
