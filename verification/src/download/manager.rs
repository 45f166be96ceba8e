//! The decisions of the download workers.
//!
//! A worker alternates calls to the Qobuz API with decisions; the calls are
//! made by the application, which hands each outcome to the state machines
//! below and acts on what they return: go on (reporting progress), or stop
//! with a result.

use std::path::PathBuf;

use vstd::prelude::*;

use crate::errors::{cancelled_message, ApiError, AppError};

verus! {

/// `n` as a `u32`, or `fallback` when it does not fit.
pub open spec fn u32_or(n: int, fallback: u32) -> u32 {
    if n <= u32::MAX {
        n as u32
    } else {
        fallback
    }
}

/// The result of a download that stopped because it was cancelled.
pub open spec fn is_cancelled_result<T>(r: Result<T, AppError>) -> bool {
    r matches Err(AppError::Download(m)) && m@ == cancelled_message()
}

/// Album download, track by track: the state between two API calls.
pub struct AlbumTrackBatch {
    /// Number of track IDs.
    pub count: usize,
    /// Tracks handled so far.
    pub done: usize,
    /// The total reported with progress (0 when the count exceeds `u32`).
    pub total: u32,
    /// Path of the last track saved.
    pub last_path: Option<PathBuf>,
}

impl AlbumTrackBatch {
    /// Starts an album download of `count` tracks.
    pub fn new(count: usize) -> (b: Self)
        ensures
            b.count == count,
            b.done == 0,
            b.total == u32_or(count as int, 0),
            b.last_path is None,
    {
        let total: u32 = if count <= 0xffff_ffffusize {
            count as u32
        } else {
            0
        };
        AlbumTrackBatch { count, done: 0, total, last_path: None }
    }

    /// Whether another track is to be downloaded.
    pub fn has_next(&self) -> (b: bool)
        ensures
            b == (self.done < self.count),
    {
        self.done < self.count
    }

    /// Records the outcome of downloading the next track. A cancellation
    /// stops the album; any other failure is passed over. Otherwise returns
    /// the progress to report: (tracks handled, total).
    pub fn record(&mut self, outcome: Result<PathBuf, ApiError>) -> (r: Result<(u32, u32), AppError>)
        requires
            old(self).done < old(self).count,
        ensures
            outcome matches Err(ApiError::Canceled) ==> is_cancelled_result(r),
            !(outcome matches Err(ApiError::Canceled)) ==> {
                &&& r == Ok::<(u32, u32), AppError>(
                    (u32_or(old(self).done + 1, old(self).total), old(self).total),
                )
                &&& final(self).done == old(self).done + 1
                &&& final(self).count == old(self).count
                &&& final(self).total == old(self).total
                &&& final(self).last_path == match outcome {
                    Ok(p) => Some(p),
                    Err(_) => old(self).last_path,
                }
            },
    {
        match outcome {
            Ok(path) => {
                self.last_path = Some(path);
            },
            Err(ApiError::Canceled) => {
                return Err(AppError::cancelled());
            },
            Err(ApiError::Failed(_)) => {},
        }
        self.done = self.done + 1;
        let completed: u32 = if self.done <= 0xffff_ffffusize {
            self.done as u32
        } else {
            self.total
        };
        Ok((completed, self.total))
    }

    /// The result once every track was handled: the last path saved, or the
    /// error `No tracks downloaded`.
    pub fn finish(self) -> (r: Result<PathBuf, AppError>)
        ensures
            match self.last_path {
                Some(p) => r == Ok::<PathBuf, AppError>(p),
                None => r matches Err(AppError::Download(m)) && m@ == "No tracks downloaded"@,
            },
    {
        match self.last_path {
            Some(p) => Ok(p),
            None => Err(AppError::Download(String::from_str("No tracks downloaded"))),
        }
    }
}

/// Playlist download, track by track: the state between two API calls.
pub struct PlaylistTrackBatch {
    /// Number of track IDs.
    pub count: usize,
    /// Tracks handled so far.
    pub completed: u32,
    /// Path of the last track saved.
    pub last_path: Option<PathBuf>,
}

impl PlaylistTrackBatch {
    /// Starts a playlist download of `count` tracks.
    pub fn new(count: usize) -> (b: Self)
        ensures
            b.count == count,
            b.completed == 0,
            b.last_path is None,
    {
        PlaylistTrackBatch { count, completed: 0, last_path: None }
    }

    /// Whether another track is to be downloaded.
    pub fn has_next(&self) -> (b: bool)
        ensures
            b == (self.completed < self.count),
    {
        (self.completed as usize) < self.count
    }

    /// Records the outcome of downloading the next track. A cancellation
    /// stops the playlist; any other failure is passed over and the next
    /// track is tried, so the only error left for the end is that no track
    /// could be saved. Otherwise returns the number of tracks handled.
    pub fn record(&mut self, outcome: Result<PathBuf, ApiError>) -> (r: Result<u32, AppError>)
        requires
            old(self).completed < old(self).count,
            old(self).completed < u32::MAX,
        ensures
            match outcome {
                Err(ApiError::Canceled) => is_cancelled_result(r),
                Err(ApiError::Failed(_)) => {
                    &&& r == Ok::<u32, AppError>((old(self).completed + 1) as u32)
                    &&& final(self).completed == old(self).completed + 1
                    &&& final(self).last_path == old(self).last_path
                    &&& final(self).count == old(self).count
                },
                Ok(p) => {
                    &&& r == Ok::<u32, AppError>((old(self).completed + 1) as u32)
                    &&& final(self).completed == old(self).completed + 1
                    &&& final(self).last_path == Some(p)
                    &&& final(self).count == old(self).count
                },
            },
    {
        match outcome {
            Ok(path) => {
                self.last_path = Some(path);
            },
            Err(ApiError::Canceled) => {
                return Err(AppError::cancelled());
            },
            Err(ApiError::Failed(_)) => {},
        }
        self.completed = self.completed + 1;
        Ok(self.completed)
    }

    /// The result once every track was handled: the last path saved, or the
    /// error `No tracks downloaded`.
    pub fn finish(self) -> (r: Result<PathBuf, AppError>)
        ensures
            match self.last_path {
                Some(p) => r == Ok::<PathBuf, AppError>(p),
                None => r matches Err(AppError::Download(m)) && m@ == "No tracks downloaded"@,
            },
    {
        match self.last_path {
            Some(p) => Ok(p),
            None => Err(AppError::Download(String::from_str("No tracks downloaded"))),
        }
    }
}

/// Discography download, album by album: the state between two API calls.
pub struct ArtistAlbumBatch {
    /// Number of releases.
    pub count: usize,
    /// Albums handled so far.
    pub completed: u32,
    /// The total reported with progress (0 when the count exceeds `u32`).
    pub total: u32,
    /// Path of the first file saved.
    pub first_path: Option<PathBuf>,
}

impl ArtistAlbumBatch {
    /// Starts a discography download of `count` releases; an artist without
    /// releases is an error.
    pub fn start(count: usize) -> (r: Result<Self, AppError>)
        ensures
            count == 0 ==> (r matches Err(AppError::Download(m)) && m@
                == "No releases found for artist"@),
            count > 0 ==> (r matches Ok(b) && b.count == count && b.completed == 0 && b.total
                == u32_or(count as int, 0) && b.first_path is None),
    {
        if count == 0 {
            return Err(AppError::Download(String::from_str("No releases found for artist")));
        }
        let total: u32 = if count <= 0xffff_ffffusize {
            count as u32
        } else {
            0
        };
        Ok(ArtistAlbumBatch { count, completed: 0, total, first_path: None })
    }

    /// Records the outcome of downloading one album that has an ID (albums
    /// without one are passed over without counting): the first file saved
    /// is kept, failures are passed over. Returns the progress to report:
    /// (albums handled, total).
    pub fn record(&mut self, outcome: Result<Option<PathBuf>, ApiError>) -> (r: (u32, u32))
        requires
            old(self).completed < u32::MAX,
        ensures
            r == ((old(self).completed + 1) as u32, old(self).total),
            final(self).completed == old(self).completed + 1,
            final(self).total == old(self).total,
            final(self).count == old(self).count,
            final(self).first_path == match (old(self).first_path, outcome) {
                (None, Ok(p)) => p,
                _ => old(self).first_path,
            },
    {
        if self.first_path.is_none() {
            if let Ok(p) = outcome {
                self.first_path = p;
            }
        }
        self.completed = self.completed + 1;
        (self.completed, self.total)
    }

    /// The result once every album was handled: the first path saved, or the
    /// error `No albums downloaded for artist`.
    pub fn finish(self) -> (r: Result<PathBuf, AppError>)
        ensures
            match self.first_path {
                Some(p) => r == Ok::<PathBuf, AppError>(p),
                None => r matches Err(AppError::Download(m)) && m@
                    == "No albums downloaded for artist"@,
            },
    {
        match self.first_path {
            Some(p) => Ok(p),
            None => Err(AppError::Download(String::from_str("No albums downloaded for artist"))),
        }
    }
}

/// Whether a download must stop before its next API call because its
/// cancellation flag is set; the error to return if so.
pub fn check_cancelled(cancel_requested: bool) -> (r: Option<AppError>)
    ensures
        cancel_requested ==> (r matches Some(AppError::Download(m)) && m@ == cancelled_message()),
        !cancel_requested ==> r is None,
{
    if cancel_requested {
        Some(AppError::cancelled())
    } else {
        None
    }
}

/// The track IDs of a playlist: the tracks that have an ID, in order; a
/// playlist without any is an error.
pub open spec fn playlist_ids(items: Seq<Option<i32>>) -> Seq<i32>
    decreases items.len(),
{
    if items.len() == 0 {
        Seq::empty()
    } else {
        let rest = playlist_ids(items.drop_last());
        match items.last() {
            Some(id) => rest.push(id),
            None => rest,
        }
    }
}

/// Extracts the track IDs from a playlist's track list (`None` when the
/// playlist came without one).
pub fn extract_playlist_track_ids(items: Option<Vec<Option<i32>>>) -> (r: Result<Vec<i32>, AppError>)
    ensures
        match items {
            Some(v) if playlist_ids(v@).len() > 0 => r matches Ok(ids) && ids@ == playlist_ids(v@),
            _ => r matches Err(AppError::Download(m)) && m@ == "No tracks in playlist"@,
        },
{
    match items {
        Some(v) => {
            let mut ids: Vec<i32> = Vec::new();
            let mut i: usize = 0;
            while i < v.len()
                invariant
                    i <= v@.len(),
                    ids@ == playlist_ids(v@.take(i as int)),
                decreases v@.len() - i,
            {
                assert(v@.take(i + 1).drop_last() =~= v@.take(i as int));
                assert(v@.take(i + 1).last() == v@[i as int]);
                if let Some(id) = v[i] {
                    ids.push(id);
                }
                i = i + 1;
            }
            assert(v@.take(v@.len() as int) =~= v@);
            if ids.len() == 0 {
                Err(AppError::Download(String::from_str("No tracks in playlist")))
            } else {
                Ok(ids)
            }
        },
        None => Err(AppError::Download(String::from_str("No tracks in playlist"))),
    }
}

} // verus!
