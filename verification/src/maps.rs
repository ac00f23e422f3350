//! Conversion of a StepMania chart into osu!mania beatmaps.
//!
//! The codec computes with times in microseconds and does not guard its
//! arithmetic. A file is therefore decoded in steps, and the times that the
//! next step computes with are held to a limit before it runs: a file or
//! chart beyond the limit is refused with a message, never handed on.

use rox::codec::Encoder;
use rox::error::RoxError;
use rox::formats::osu::OsuEncoder;
use rox::formats::sm::types::SmFile;
use rox::model::RoxChart;
use vstd::prelude::*;

verus! {

/// The codec's chart model, carried opaquely from the decoder to the encoder.
#[verifier::external_type_specification]
#[verifier::external_body]
pub struct ExRoxChart(RoxChart);

/// The codec's error value.
#[verifier::external_type_specification]
#[verifier::external_body]
pub struct ExRoxError(RoxError);

/// A parsed `.sm` file, as the codec's parser holds it.
#[verifier::external_type_specification]
#[verifier::external_body]
pub struct ExSmFile(SmFile);

/// What `rox::formats::sm::parser::parse` makes of the bytes of a `.sm`
/// file.
pub uninterp spec fn sm_parsing(data: Seq<u8>) -> Result<SmFile, RoxError>;

/// The times, in microseconds, that the decoder computes with when it
/// turns the first chart of a parsed file into a chart: the offset of the
/// file, the offset of the chart if it has one, the times of the tempo
/// changes of the file, those of the chart if it has its own, and the times
/// of the notes of the chart. `None` for a file without a chart.
pub uninterp spec fn chart_times(file: SmFile) -> Option<
    (i64, Option<i64>, Seq<i64>, Option<Seq<i64>>, Seq<i64>),
>;

/// What `rox::formats::sm::ssc_decoder::first_chart` makes of a parsed
/// file.
pub uninterp spec fn first_chart_of(file: SmFile) -> Result<RoxChart, RoxError>;

/// The notes of a chart, each as its time and its duration in
/// microseconds; the duration of a note that is not held is 0.
pub uninterp spec fn chart_spans(chart: RoxChart) -> Seq<(i64, i64)>;

/// What `RoxChart::validate` finds wrong with a chart, if anything.
pub uninterp spec fn chart_validation(chart: RoxChart) -> Result<(), RoxError>;

/// What `OsuEncoder::encode` makes of a chart.
pub uninterp spec fn osu_encoding(chart: RoxChart) -> Result<Seq<u8>, RoxError>;

/// The text that `RoxError`'s `Display` impl writes for an error.
pub uninterp spec fn error_text(e: RoxError) -> Seq<char>;

/// The difficulty name stored in a chart's metadata.
pub uninterp spec fn difficulty_name(chart: RoxChart) -> Seq<char>;

/// The largest time, in microseconds and in either direction, that is
/// handed to the codec's arithmetic: about eleven and a half days.
pub const TIME_LIMIT_US: i64 = 1_000_000_000_000;

/// Whether a time is within the limit.
pub open spec fn in_range(t: i64) -> bool {
    -TIME_LIMIT_US <= t <= TIME_LIMIT_US
}

/// Whether every time of a list is within the limit.
pub open spec fn all_in_range(times: Seq<i64>) -> bool {
    forall|i: int| 0 <= i < times.len() ==> in_range(#[trigger] times[i])
}

/// Whether the times that the decoder computes with are all within the
/// limit.
pub open spec fn times_fit(t: (i64, Option<i64>, Seq<i64>, Option<Seq<i64>>, Seq<i64>)) -> bool {
    &&& in_range(t.0)
    &&& t.1 matches Some(offset) ==> in_range(offset)
    &&& all_in_range(t.2)
    &&& t.3 matches Some(own) ==> all_in_range(own)
    &&& all_in_range(t.4)
}

/// Whether the time and the duration of every note are within the limit.
pub open spec fn spans_fit(spans: Seq<(i64, i64)>) -> bool {
    forall|i: int|
        0 <= i < spans.len() ==> in_range((#[trigger] spans[i]).0) && in_range(spans[i].1)
}

/// The times of the first chart of a parsed file, as plain values.
#[derive(Debug, Clone, PartialEq, Eq)]
pub struct ChartTimes {
    pub file_offset_us: i64,
    pub chart_offset_us: Option<i64>,
    pub file_tempo_times_us: Vec<i64>,
    pub chart_tempo_times_us: Option<Vec<i64>>,
    pub note_times_us: Vec<i64>,
}

/// The model of the times of a chart.
pub open spec fn times_model(t: ChartTimes) -> (
    i64,
    Option<i64>,
    Seq<i64>,
    Option<Seq<i64>>,
    Seq<i64>,
) {
    (
        t.file_offset_us,
        t.chart_offset_us,
        t.file_tempo_times_us@,
        match t.chart_tempo_times_us {
            Some(own) => Some(own@),
            None => None,
        },
        t.note_times_us@,
    )
}

/// Calls `rox::formats::sm::parser::parse`, which reads the tags of a
/// `.sm` file and places the notes of each chart in time. Times come from
/// floating point by casts that saturate; the parser adds no two of them.
/// The result depends on the bytes alone.
#[verifier::external_body]
fn parse_sm(data: &[u8]) -> (r: Result<SmFile, RoxError>)
    ensures
        r == sm_parsing(data@),
{
    rox::formats::sm::parser::parse(data)
}

/// Reads, from a parsed file and its first chart, the fields
/// `offset_us`, the times of `bpms` and the `time_us` of the notes.
#[verifier::external_body]
fn first_chart_times(file: &SmFile) -> (r: Option<ChartTimes>)
    ensures
        match r {
            Some(t) => chart_times(*file) == Some(times_model(t)),
            None => chart_times(*file) is None,
        },
{
    file.charts.first().map(
        |c|
            ChartTimes {
                file_offset_us: file.offset_us,
                chart_offset_us: c.offset_us,
                file_tempo_times_us: file.bpms.iter().map(|p| p.0).collect(),
                chart_tempo_times_us: c.bpms.as_ref().map(|b| b.iter().map(|p| p.0).collect()),
                note_times_us: c.notes.iter().map(|n| n.time_us).collect(),
            },
    )
}

/// Calls `rox::formats::sm::ssc_decoder::first_chart`, which turns the
/// first chart of a parsed file into a chart, or says why the file has
/// none. It negates the offset, adds it to the time of every tempo change
/// and note, and subtracts the times of notes from one another, all
/// unguarded: the times are within the limit, so none of these overflows.
#[verifier::external_body]
fn first_chart(file: &SmFile) -> (r: Result<RoxChart, RoxError>)
    requires
        chart_times(*file) matches Some(t) ==> times_fit(t),
    ensures
        r == first_chart_of(*file),
{
    rox::formats::sm::ssc_decoder::first_chart(file)
}

/// Reads `time_us` and `duration_us()` of every note of a chart.
#[verifier::external_body]
fn note_spans(chart: &RoxChart) -> (r: Vec<(i64, i64)>)
    ensures
        r@ == chart_spans(*chart),
{
    chart.notes.iter().map(|n| (n.time_us, n.duration_us())).collect()
}

/// Calls `RoxChart::validate`. It adds the duration of each note to its
/// time, unguarded: both are within the limit.
#[verifier::external_body]
fn validate_chart(chart: &RoxChart) -> (r: Result<(), RoxError>)
    requires
        spans_fit(chart_spans(*chart)),
    ensures
        match r {
            Ok(_) => chart_validation(*chart) is Ok,
            Err(e) => chart_validation(*chart) == Err::<(), RoxError>(e),
        },
{
    chart.validate()
}

/// Calls `OsuEncoder::encode`, which validates the chart and writes it as
/// an osu!mania beatmap. It adds the time and the duration of a held note
/// in 32-bit milliseconds, unguarded: both are within the limit, so the
/// sum is below 2^31. The result depends on the chart alone.
#[verifier::external_body]
fn encode_osu(chart: &RoxChart) -> (r: Result<Vec<u8>, RoxError>)
    requires
        spans_fit(chart_spans(*chart)),
    ensures
        match r {
            Ok(bytes) => osu_encoding(*chart) == Ok::<Seq<u8>, RoxError>(bytes@),
            Err(e) => osu_encoding(*chart) == Err::<Seq<u8>, RoxError>(e),
        },
{
    OsuEncoder::encode(chart)
}

/// Formats an error with `RoxError`'s `Display` impl.
#[verifier::external_body]
fn describe(e: &RoxError) -> (r: String)
    ensures
        r@ == error_text(*e),
{
    format!("{}", e)
}

/// Reads `metadata.difficulty_name` of a chart.
#[verifier::external_body]
fn chart_difficulty(chart: &RoxChart) -> (r: String)
    ensures
        r@ == difficulty_name(*chart),
{
    chart.metadata.difficulty_name.to_string()
}

/// The variant name under which a chart is saved: its difficulty name, or
/// `Unknown` where the chart has none.
pub open spec fn variant_label(difficulty: Seq<char>) -> Seq<char> {
    if difficulty.len() == 0 {
        "Unknown"@
    } else {
        difficulty
    }
}

/// The model of a list of artifacts: variant name and bytes of each.
pub open spec fn artifacts_view(v: Seq<(String, Vec<u8>)>) -> Seq<(Seq<char>, Seq<u8>)> {
    Seq::new(v.len(), |i: int| (v[i].0@, v[i].1@))
}

/// The model of a conversion's outcome.
pub open spec fn outcome_view(r: Result<Vec<(String, Vec<u8>)>, String>) -> Result<
    Seq<(Seq<char>, Seq<u8>)>,
    Seq<char>,
> {
    match r {
        Ok(v) => Ok(artifacts_view(v@)),
        Err(e) => Err(e@),
    }
}

/// The words for a file or chart with a time beyond the limit.
pub open spec fn out_of_range_text() -> Seq<char> {
    "a time of the chart is out of range"@
}

/// The message of a conversion that failed in decoding.
pub open spec fn decoding_failed(cause: Seq<char>) -> Seq<char> {
    "Error decoding SM file: "@ + cause
}

/// The message of a conversion that failed in encoding.
pub open spec fn encoding_failed(cause: Seq<char>) -> Seq<char> {
    "Error encoding to osu!: "@ + cause
}

/// The outcome of the conversion of a chart that was decoded: refused
/// where a note lies beyond the limit or the chart is not valid, else
/// encoded and named after its difficulty.
pub open spec fn chart_to_osu(chart: RoxChart) -> Result<Seq<(Seq<char>, Seq<u8>)>, Seq<char>> {
    if !spans_fit(chart_spans(chart)) {
        Err(decoding_failed(out_of_range_text()))
    } else {
        match chart_validation(chart) {
            Err(e) => Err(decoding_failed(error_text(e))),
            Ok(_) => match osu_encoding(chart) {
                Err(e) => Err(encoding_failed(error_text(e))),
                Ok(bytes) => Ok(seq![(variant_label(difficulty_name(chart)), bytes)]),
            },
        }
    }
}

/// The outcome of converting the bytes of a `.sm` file: one artifact named
/// after the chart's difficulty, or a message that says which half of the
/// conversion failed and why.
pub open spec fn sm_to_osu(data: Seq<u8>) -> Result<Seq<(Seq<char>, Seq<u8>)>, Seq<char>> {
    match sm_parsing(data) {
        Err(e) => Err(decoding_failed(error_text(e))),
        Ok(file) => if chart_times(file) matches Some(t) && !times_fit(t) {
            Err(decoding_failed(out_of_range_text()))
        } else {
            match first_chart_of(file) {
                Err(e) => Err(decoding_failed(error_text(e))),
                Ok(chart) => chart_to_osu(chart),
            }
        },
    }
}

/// Names the variant of a chart with the given difficulty name.
pub fn variant_name(difficulty: String) -> (r: String)
    ensures
        r@ == variant_label(difficulty@),
{
    if difficulty.as_str().is_empty() {
        "Unknown".to_owned()
    } else {
        difficulty
    }
}

/// The artifacts of a chart that encoded to `osu`: exactly one, named after
/// the chart's difficulty.
pub fn single_artifact(difficulty: String, osu: Vec<u8>) -> (r: Vec<(String, Vec<u8>)>)
    ensures
        artifacts_view(r@) == seq![(variant_label(difficulty@), osu@)],
{
    let ghost name = difficulty@;
    let mut out: Vec<(String, Vec<u8>)> = Vec::new();
    out.push((variant_name(difficulty), osu));
    assert(artifacts_view(out@) =~= seq![(variant_label(name), osu@)]);
    out
}

/// The message of a failed conversion: what failed, then the codec's words.
pub fn codec_failure(stage: &str, cause: &str) -> (r: String)
    ensures
        r@ == stage@ + cause@,
{
    stage.to_owned().concat(cause)
}

/// Whether every time of a list is within the limit.
pub fn times_in_range(times: &Vec<i64>) -> (r: bool)
    ensures
        r == all_in_range(times@),
{
    let mut i: usize = 0;
    while i < times.len()
        invariant
            i <= times.len(),
            forall|j: int| 0 <= j < i ==> in_range(#[trigger] times@[j]),
        decreases times.len() - i,
    {
        if times[i] < -TIME_LIMIT_US || times[i] > TIME_LIMIT_US {
            return false;
        }
        i += 1;
    }
    true
}

/// Whether the times that the decoder computes with are all within the
/// limit.
pub fn chart_times_fit(t: &ChartTimes) -> (r: bool)
    ensures
        r == times_fit(times_model(*t)),
{
    if t.file_offset_us < -TIME_LIMIT_US || t.file_offset_us > TIME_LIMIT_US {
        return false;
    }
    if let Some(offset) = t.chart_offset_us {
        if offset < -TIME_LIMIT_US || offset > TIME_LIMIT_US {
            return false;
        }
    }
    if !times_in_range(&t.file_tempo_times_us) {
        return false;
    }
    if let Some(own) = &t.chart_tempo_times_us {
        if !times_in_range(own) {
            return false;
        }
    }
    times_in_range(&t.note_times_us)
}

/// Whether the time and the duration of every note are within the limit.
pub fn spans_in_range(spans: &Vec<(i64, i64)>) -> (r: bool)
    ensures
        r == spans_fit(spans@),
{
    let mut i: usize = 0;
    while i < spans.len()
        invariant
            i <= spans.len(),
            forall|j: int|
                0 <= j < i ==> in_range((#[trigger] spans@[j]).0) && in_range(spans@[j].1),
        decreases spans.len() - i,
    {
        let (time, duration) = spans[i];
        if time < -TIME_LIMIT_US || time > TIME_LIMIT_US || duration < -TIME_LIMIT_US || duration
            > TIME_LIMIT_US {
            return false;
        }
        i += 1;
    }
    true
}

/// Validates and encodes a chart that was decoded, after holding its notes
/// to the limit.
fn convert_chart(chart: RoxChart) -> (r: Result<Vec<(String, Vec<u8>)>, String>)
    ensures
        outcome_view(r) == chart_to_osu(chart),
{
    let spans = note_spans(&chart);
    if !spans_in_range(&spans) {
        return Err(
            codec_failure("Error decoding SM file: ", "a time of the chart is out of range"),
        );
    }
    match validate_chart(&chart) {
        Err(e) => Err(codec_failure("Error decoding SM file: ", describe(&e).as_str())),
        Ok(_) => match encode_osu(&chart) {
            Err(e) => Err(codec_failure("Error encoding to osu!: ", describe(&e).as_str())),
            Ok(bytes) => Ok(single_artifact(chart_difficulty(&chart), bytes)),
        },
    }
}

/// Converts the bytes of a `.sm` file to osu!mania beatmaps, one per variant,
/// each with the name of its variant. A file or chart with a time beyond
/// the limit is refused.
pub fn from_sm_to_osu(file_buff: Vec<u8>) -> (r: Result<Vec<(String, Vec<u8>)>, String>)
    ensures
        outcome_view(r) == sm_to_osu(file_buff@),
{
    match parse_sm(file_buff.as_slice()) {
        Err(e) => Err(codec_failure("Error decoding SM file: ", describe(&e).as_str())),
        Ok(file) => {
            if let Some(times) = first_chart_times(&file) {
                if !chart_times_fit(&times) {
                    return Err(
                        codec_failure(
                            "Error decoding SM file: ",
                            "a time of the chart is out of range",
                        ),
                    );
                }
            }
            match first_chart(&file) {
                Err(e) => Err(codec_failure("Error decoding SM file: ", describe(&e).as_str())),
                Ok(chart) => convert_chart(chart),
            }
        },
    }
}

} // verus!
