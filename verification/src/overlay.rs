//! Text overlay refresh: composes the overlay lines once per tick from the
//! spec and the metadata available at that moment. The surrounding loop —
//! sleeping for the interval, reading now-playing metadata, writing to the
//! overlay sink, watching the cancel signal — is external; one tick's
//! decision is here, and a tick whose metadata is unavailable is skipped,
//! never fatal to the session.

use vstd::prelude::*;

verus! {

/// What the overlay should show.
#[derive(Debug, Clone, Copy, PartialEq, Eq, Structural)]
pub struct OverlaySpec {
    pub show_clock: bool,
    pub show_track: bool,
}

/// Now-playing metadata for one tick, as read by the external collaborator.
#[derive(Debug, Clone, PartialEq, Eq)]
pub struct TrackMeta {
    pub song: String,
    pub artist: String,
}

/// The composed overlay content of one tick.
#[derive(Debug, Clone, PartialEq, Eq)]
pub struct OverlayText {
    /// Clock line, as pre-rendered by the caller's clock, when requested.
    pub clock: Option<String>,
    /// Song and artist lines, when requested and available.
    pub song: Option<String>,
    pub artist: Option<String>,
}

/// One tick's decision: write new overlay content, or skip this iteration.
#[derive(Debug, Clone, PartialEq, Eq)]
pub enum OverlayTick {
    Write(OverlayText),
    Skip,
}

/// Composes one overlay refresh. `clock_text` is the pre-rendered clock
/// line, `meta` the now-playing metadata if it could be read. A tick that
/// wants track lines but has no metadata is skipped — transient
/// unavailability never terminates the loop; a tick that wants nothing at
/// all is also a skip, as there is nothing to write.
pub fn refresh_tick(spec: &OverlaySpec, clock_text: &String, meta: Option<&TrackMeta>) -> (r:
    OverlayTick)
    ensures
        (spec.show_track && meta is None) ==> r == OverlayTick::Skip,
        (!spec.show_clock && !spec.show_track) ==> r == OverlayTick::Skip,
        (match r {
            OverlayTick::Write(t) => {
                &&& (t.clock matches Some(c) ==> c@ == clock_text@) && (t.clock is Some
                    <==> spec.show_clock)
                &&& (spec.show_track ==> (meta matches Some(m) && t.song matches Some(s)
                    && t.artist matches Some(a) && (s@ == m.song@ && a@ == m.artist@)))
                &&& (!spec.show_track ==> t.song is None && t.artist is None)
            },
            OverlayTick::Skip => (spec.show_track && meta is None) || (!spec.show_clock
                && !spec.show_track),
        }),
{
    if !spec.show_clock && !spec.show_track {
        return OverlayTick::Skip;
    }
    let song_artist: Option<(String, String)> = if spec.show_track {
        match meta {
            Some(m) => Some((clone_text(&m.song), clone_text(&m.artist))),
            None => {
                return OverlayTick::Skip;
            },
        }
    } else {
        None
    };
    let clock = if spec.show_clock {
        Some(clone_text(clock_text))
    } else {
        None
    };
    match song_artist {
        Some((song, artist)) => OverlayTick::Write(
            OverlayText { clock, song: Some(song), artist: Some(artist) },
        ),
        None => OverlayTick::Write(OverlayText { clock, song: None, artist: None }),
    }
}

/// Clones one overlay line.
fn clone_text(s: &String) -> (r: String)
    ensures
        r@ == s@,
{
    s.clone()
}

} // verus!
