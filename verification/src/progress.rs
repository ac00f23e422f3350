//! Progress events, and the policy that decides when a download emits one.

use crate::text::{decimal, decimal_of};
use vstd::prelude::*;

verus! {

/// A download emits an event whenever the bytes received so far are a
/// multiple of this many.
pub const PROGRESS_STEP: u64 = 102_400;

/// A download emits an event whenever this many milliseconds have passed
/// since the last one.
pub const PROGRESS_INTERVAL_MS: u64 = 500;

/// The value that marks a stage without byte counts as entered.
pub const STAGE_MARK: u64 = 100;

/// A stage of a pipeline run that reports progress.
#[derive(Debug, Clone, Copy, PartialEq, Eq, Structural)]
pub enum Stage {
    Downloading,
    Extracting,
    Converting,
}

impl Stage {
    /// The name of the stage in a progress event.
    pub open spec fn name(self) -> Seq<char> {
        match self {
            Stage::Downloading => "downloading"@,
            Stage::Extracting => "extracting"@,
            Stage::Converting => "converting"@,
        }
    }

    /// The name of the stage in a progress event.
    pub fn as_str(&self) -> (r: &'static str)
        ensures
            r@ == self.name(),
    {
        match self {
            Stage::Downloading => "downloading",
            Stage::Extracting => "extracting",
            Stage::Converting => "converting",
        }
    }
}

/// What a listener is told about a run.
#[derive(Debug, Clone, Copy, PartialEq, Eq, Structural)]
pub struct ProgressEvent {
    pub pack_id: u64,
    pub downloaded: u64,
    pub total: u64,
    pub stage: Stage,
}

/// The name of the channel on which the events of a pack are emitted.
pub open spec fn channel(pack_id: u64) -> Seq<char> {
    "download-progress-"@ + decimal(pack_id as nat)
}

/// An event as it is sent: a JSON object with the pack, the two counts and
/// the name of the stage.
pub open spec fn payload_text(e: ProgressEvent) -> Seq<char> {
    "{\"packId\":"@ + decimal(e.pack_id as nat) + ",\"downloaded\":"@ + decimal(
        e.downloaded as nat,
    ) + ",\"total\":"@ + decimal(e.total as nat) + ",\"stage\":\""@ + e.stage.name() + "\"}"@
}

impl ProgressEvent {
    /// The event that opens a run: nothing received, total unknown.
    pub fn started(pack_id: u64) -> (r: Self)
        ensures
            r == (ProgressEvent { pack_id, downloaded: 0, total: 0, stage: Stage::Downloading }),
    {
        ProgressEvent { pack_id, downloaded: 0, total: 0, stage: Stage::Downloading }
    }

    /// The event that marks a stage as entered. Extracting and converting
    /// are not counted in bytes: the event reads 100 of 100.
    pub fn stage_entered(pack_id: u64, stage: Stage) -> (r: Self)
        ensures
            r == (ProgressEvent { pack_id, downloaded: STAGE_MARK, total: STAGE_MARK, stage }),
    {
        ProgressEvent { pack_id, downloaded: STAGE_MARK, total: STAGE_MARK, stage }
    }

    /// The event as it is sent.
    pub fn payload(&self) -> (r: String)
        ensures
            r@ == payload_text(*self),
    {
        "{\"packId\":".to_owned().concat(decimal_of(self.pack_id).as_str()).concat(
            ",\"downloaded\":",
        ).concat(decimal_of(self.downloaded).as_str()).concat(",\"total\":").concat(
            decimal_of(self.total).as_str(),
        ).concat(",\"stage\":\"").concat(self.stage.as_str()).concat("\"}")
    }

    /// The channel on which this event is emitted.
    pub fn event_name(&self) -> (r: String)
        ensures
            r@ == channel(self.pack_id),
    {
        "download-progress-".to_owned().concat(decimal_of(self.pack_id).as_str())
    }
}

/// A chunk of the response body: its length, and the reading of a
/// monotonic clock, in milliseconds, when it had been written.
#[derive(Debug, Clone, Copy, PartialEq, Eq, Structural)]
pub struct Arrival {
    pub len: u64,
    pub at_ms: u64,
}

/// The state of one download between chunks.
#[derive(Debug, Clone, Copy, PartialEq, Eq, Structural)]
pub struct DownloadProgress {
    /// The pack that the run is for.
    pub pack_id: u64,
    /// The length that the server announced, 0 where it announced none.
    pub announced: u64,
    /// The bytes written so far.
    pub received: u64,
    /// The clock reading at the last emission, or at the start.
    pub last_emit_ms: u64,
}

/// The milliseconds from `earlier` to `later`, 0 where the clock ran back.
pub open spec fn elapsed(earlier: u64, later: u64) -> int {
    if later >= earlier {
        later - earlier
    } else {
        0
    }
}

impl DownloadProgress {
    /// Whether the chunk `a`, arriving in this state, is followed by an
    /// event: the total is then a multiple of the step, or the interval has
    /// passed.
    pub open spec fn due(self, a: Arrival) -> bool {
        (self.received + a.len) % (PROGRESS_STEP as int) == 0 || elapsed(self.last_emit_ms, a.at_ms)
            >= PROGRESS_INTERVAL_MS
    }

    /// The state after the chunk `a`.
    pub open spec fn step(self, a: Arrival) -> DownloadProgress {
        DownloadProgress {
            pack_id: self.pack_id,
            announced: self.announced,
            received: (self.received + a.len) as u64,
            last_emit_ms: if self.due(a) {
                a.at_ms
            } else {
                self.last_emit_ms
            },
        }
    }

    /// The event that follows the chunk `a`, if one does.
    pub open spec fn emitted(self, a: Arrival) -> Option<ProgressEvent> {
        if self.due(a) {
            Some(
                ProgressEvent {
                    pack_id: self.pack_id,
                    downloaded: (self.received + a.len) as u64,
                    total: self.announced,
                    stage: Stage::Downloading,
                },
            )
        } else {
            None
        }
    }

    /// The event that closes the download: all that was received, of as much.
    pub open spec fn closing(self) -> ProgressEvent {
        ProgressEvent {
            pack_id: self.pack_id,
            downloaded: self.received,
            total: self.received,
            stage: Stage::Downloading,
        }
    }

    /// The state before the first chunk. A response without a content length
    /// announces 0.
    pub fn new(pack_id: u64, content_length: Option<u64>, now_ms: u64) -> (r: Self)
        ensures
            r == (DownloadProgress {
                pack_id,
                announced: match content_length {
                    Some(n) => n,
                    None => 0,
                },
                received: 0,
                last_emit_ms: now_ms,
            }),
    {
        let announced = match content_length {
            Some(n) => n,
            None => 0,
        };
        DownloadProgress { pack_id, announced, received: 0, last_emit_ms: now_ms }
    }

    /// Counts a chunk that has been written, and decides whether an event
    /// follows it.
    pub fn on_chunk(&mut self, len: u64, now_ms: u64) -> (r: Option<ProgressEvent>)
        requires
            old(self).received + len <= u64::MAX,
        ensures
            *final(self) == old(self).step(Arrival { len, at_ms: now_ms }),
            r == old(self).emitted(Arrival { len, at_ms: now_ms }),
            final(self).received == old(self).received + len,
    {
        let received = self.received + len;
        let waited = if now_ms >= self.last_emit_ms {
            now_ms - self.last_emit_ms
        } else {
            0
        };
        self.received = received;
        if received % PROGRESS_STEP == 0 || waited >= PROGRESS_INTERVAL_MS {
            self.last_emit_ms = now_ms;
            Some(
                ProgressEvent {
                    pack_id: self.pack_id,
                    downloaded: received,
                    total: self.announced,
                    stage: Stage::Downloading,
                },
            )
        } else {
            None
        }
    }

    /// The event emitted when the stream has ended.
    pub fn finish(&self) -> (r: ProgressEvent)
        ensures
            r == self.closing(),
            r.downloaded == r.total,
            r.downloaded == self.received,
    {
        ProgressEvent {
            pack_id: self.pack_id,
            downloaded: self.received,
            total: self.received,
            stage: Stage::Downloading,
        }
    }
}

/// The bytes of a sequence of chunks.
pub open spec fn total_len(arrivals: Seq<Arrival>) -> int
    decreases arrivals.len(),
{
    if arrivals.len() == 0 {
        0
    } else {
        arrivals[0].len + total_len(arrivals.drop_first())
    }
}

/// The events of a download that starts in state `s` and receives the
/// chunks `arrivals`: those that follow chunks, then the closing one.
pub open spec fn download_events(s: DownloadProgress, arrivals: Seq<Arrival>) -> Seq<ProgressEvent>
    decreases arrivals.len(),
{
    if arrivals.len() == 0 {
        seq![s.closing()]
    } else {
        let rest = download_events(s.step(arrivals[0]), arrivals.drop_first());
        match s.emitted(arrivals[0]) {
            Some(e) => seq![e] + rest,
            None => rest,
        }
    }
}

/// Every event of a download counts at least the bytes that it started with
/// and at most all that it received; the closing event is the last, and
/// counts exactly all of them, as received and as total.
pub proof fn lemma_download_events_bounds(s: DownloadProgress, arrivals: Seq<Arrival>)
    requires
        s.received + total_len(arrivals) <= u64::MAX,
    ensures
        download_events(s, arrivals).len() >= 1,
        forall|i: int|
            0 <= i < download_events(s, arrivals).len() ==> s.received <= (
            #[trigger] download_events(s, arrivals)[i]).downloaded <= s.received + total_len(
                arrivals,
            ),
        download_events(s, arrivals).last().downloaded == s.received + total_len(arrivals),
        download_events(s, arrivals).last().total == download_events(s, arrivals).last().downloaded,
    decreases arrivals.len(),
{
    if arrivals.len() > 0 {
        let next = s.step(arrivals[0]);
        let rest = download_events(next, arrivals.drop_first());
        lemma_download_events_bounds(next, arrivals.drop_first());
        assert(next.received == s.received + arrivals[0].len);
    }
}

/// The events of a download never count fewer bytes than an earlier one.
pub proof fn lemma_download_events_monotonic(s: DownloadProgress, arrivals: Seq<Arrival>)
    requires
        s.received + total_len(arrivals) <= u64::MAX,
    ensures
        forall|i: int, j: int|
            0 <= i <= j < download_events(s, arrivals).len() ==> (#[trigger] download_events(
                s,
                arrivals,
            )[i]).downloaded <= (#[trigger] download_events(s, arrivals)[j]).downloaded,
    decreases arrivals.len(),
{
    if arrivals.len() > 0 {
        let next = s.step(arrivals[0]);
        let rest = download_events(next, arrivals.drop_first());
        lemma_download_events_monotonic(next, arrivals.drop_first());
        lemma_download_events_bounds(next, arrivals.drop_first());
        assert(next.received == s.received + arrivals[0].len);
        let all = download_events(s, arrivals);
        assert forall|i: int, j: int| 0 <= i <= j < all.len() implies (#[trigger] all[i]).downloaded
            <= (#[trigger] all[j]).downloaded by {
            match s.emitted(arrivals[0]) {
                Some(e) => {
                    assert(all == seq![e] + rest);
                    if i > 0 {
                        assert(all[i] == rest[i - 1]);
                        assert(all[j] == rest[j - 1]);
                    } else if j > 0 {
                        assert(all[j] == rest[j - 1]);
                    }
                },
                None => {},
            }
        }
    }
}

} // verus!
