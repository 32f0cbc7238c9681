//! The download of a new launcher: what is known of it beforehand, how it is fetched, and what is
//! shown of it meanwhile.

use vstd::prelude::*;

use crate::digest;
use crate::ranges;
use crate::sizes;
use crate::strings;
use crate::text;

verus! {

/// The bar position that the update has reached when its download starts.
pub const PROGRESS_BEFORE_DOWNLOAD: u8 = 8;

/// The time after which a report is due though the bar has not moved.
pub const REPORT_INTERVAL_MS: u64 = 250;

/// The status of an answer that holds a part of a file.
pub const PARTIAL_CONTENT: u16 = 206;

/// What is known of a download before it starts.
#[derive(Clone, Copy, Debug, PartialEq, Eq, Structural)]
pub struct LauncherUpdateProbe {
    pub total_bytes: Option<u64>,
    pub supports_ranges: bool,
}

/// The number above zero that the text writes, if it writes one that fits in 64 bits.
pub open spec fn positive_number(s: Seq<char>) -> Option<u64> {
    match text::parse_unsigned(s, u64::MAX as nat) {
        Some(n) => if n > 0 {
            Some(n as u64)
        } else {
            None
        },
        None => None,
    }
}

/// The status says that the request succeeded.
pub open spec fn is_success(status: u16) -> bool {
    200 <= status < 300
}

/// Success is told by the first digit of the status, whatever the other two are.
pub proof fn success_is_told_by_the_first_digit(status: u16)
    ensures
        is_success(status) <==> status / 100 == 2,
{
}

/// The size that the answer to a request for the headers gives.
pub open spec fn head_content_length(
    status: Option<u16>,
    content_length: Option<Seq<char>>,
) -> Option<u64> {
    match (status, content_length) {
        (Some(status), Some(length)) => if is_success(status) {
            positive_number(length)
        } else {
            None
        },
        _ => None,
    }
}

/// The size of the whole that a range header gives behind its last slash.
pub open spec fn content_range_total(value: Seq<char>) -> Option<u64> {
    match text::after_last(value, '/') {
        Some(total) => positive_number(text::trim(total)),
        None => None,
    }
}

/// What the answer to a request for the first byte alone says.
pub open spec fn range_probe(
    status: Option<u16>,
    content_range: Option<Seq<char>>,
) -> LauncherUpdateProbe {
    if status == Some(PARTIAL_CONTENT) {
        LauncherUpdateProbe {
            total_bytes: match content_range {
                Some(value) => content_range_total(value),
                None => None,
            },
            supports_ranges: true,
        }
    } else {
        LauncherUpdateProbe { total_bytes: None, supports_ranges: false }
    }
}

/// The view of a header that may be missing.
pub open spec fn header_view(header: Option<&str>) -> Option<Seq<char>> {
    match header {
        Some(value) => Some(value@),
        None => None,
    }
}

fn parsed_positive(chars: &Vec<char>) -> (r: Option<u64>)
    ensures
        r == positive_number(chars@),
{
    match strings::parsed_unsigned(chars, u64::MAX) {
        Some(n) => if n > 0 {
            Some(n)
        } else {
            None
        },
        None => None,
    }
}

/// The size that the answer to a request for the headers gives; `status` is none where there was
/// no answer.
pub fn launcher_update_head_content_length(
    status: Option<u16>,
    content_length: Option<&str>,
) -> (r: Option<u64>)
    ensures
        r == head_content_length(status, header_view(content_length)),
{
    match (status, content_length) {
        (Some(status), Some(length)) => if 200 <= status && status < 300 {
            parsed_positive(&strings::chars_of(length))
        } else {
            None
        },
        _ => None,
    }
}

/// The size of the whole that a range header gives.
pub fn content_range_total_bytes(value: &str) -> (r: Option<u64>)
    ensures
        r == content_range_total(value@),
{
    match strings::cut_after_last(&strings::chars_of(value), '/') {
        Some(total) => parsed_positive(&strings::trimmed(&total)),
        None => None,
    }
}

/// What the answer to a request for the first byte alone says; `status` is none where there was no
/// answer.
pub fn launcher_update_range_probe(
    status: Option<u16>,
    content_range: Option<&str>,
) -> (r: LauncherUpdateProbe)
    ensures
        r == range_probe(status, header_view(content_range)),
{
    match status {
        Some(code) => if code == PARTIAL_CONTENT {
            let total_bytes = match content_range {
                Some(value) => content_range_total_bytes(value),
                None => None,
            };
            LauncherUpdateProbe { total_bytes, supports_ranges: true }
        } else {
            LauncherUpdateProbe { total_bytes: None, supports_ranges: false }
        },
        None => LauncherUpdateProbe { total_bytes: None, supports_ranges: false },
    }
}

/// What the two probes say together.
pub open spec fn combined(
    head_total: Option<u64>,
    range_probe: LauncherUpdateProbe,
) -> LauncherUpdateProbe {
    LauncherUpdateProbe {
        total_bytes: if head_total is Some {
            head_total
        } else {
            range_probe.total_bytes
        },
        supports_ranges: range_probe.supports_ranges,
    }
}

/// The probe reads sizes as they are written: that of the headers counts where they give one, that
/// of a range where they give none. Only an answer with the status of a part shows that the server
/// gives ranges, and only headers of a success give a size. A size of zero is none.
pub proof fn the_probe_reads_sizes_as_written(
    size: u64,
    other: u64,
    status: u16,
    before: Seq<char>,
    space: Seq<char>,
)
    requires
        forall|i: int| 0 <= i < space.len() ==> text::is_white_space(#[trigger] space[i]),
        !space.contains('/'),
    ensures
        ({
            let header = text::decimal(size as nat);
            let range = before + seq!['/'] + (space + text::decimal(other as nat) + space);
            let head = head_content_length(Some(status), Some(header));
            let part = range_probe(Some(status), Some(range));
            &&& 200 <= status < 300 && size > 0 ==> head == Some(size)
            &&& !(200 <= status < 300) || size == 0 ==> head is None
            &&& part.supports_ranges <==> status == 206
            &&& status == 206 && other > 0 ==> part.total_bytes == Some(other)
            &&& status != 206 || other == 0 ==> part.total_bytes is None
            &&& combined(head, part).supports_ranges == part.supports_ranges
            &&& head is Some ==> combined(head, part).total_bytes == head
            &&& head is None ==> combined(head, part).total_bytes == part.total_bytes
        }),
        head_content_length(None, Some(text::decimal(size as nat))) is None,
        !range_probe(None, None).supports_ranges,
{
    text::lemma_decimal_parses(size as nat, u64::MAX as nat);
    text::lemma_decimal_parses(other as nat, u64::MAX as nat);
    let digits = text::decimal(other as nat);
    text::lemma_decimal(other as nat);
    assert(text::is_digit(digits[0]) && text::is_digit(digits[digits.len() - 1]));
    text::lemma_trim_around(space, digits, space);
    let tail = space + digits + space;
    assert(!tail.contains('/')) by {
        assert forall|i: int| 0 <= i < tail.len() implies tail[i] != '/' by {
            if i < space.len() {
                assert(space.contains(space[i]));
            } else if i < space.len() + digits.len() {
                assert(text::is_digit(digits[i - space.len()]));
            } else {
                assert(space.contains(space[i - space.len() - digits.len()]));
            }
        }
    }
    lemma_after_last(before, '/', tail);
}

proof fn lemma_after_last(before: Seq<char>, c: char, tail: Seq<char>)
    requires
        !tail.contains(c),
    ensures
        text::after_last(before + seq![c] + tail, c) == Some(tail),
    decreases tail.len(),
{
    let s = before + seq![c] + tail;
    if tail.len() == 0 {
        assert(s.last() == c);
        assert(tail =~= Seq::empty());
    } else {
        assert(tail.contains(tail.last()));
        let shorter = tail.drop_last();
        assert forall|i: int| 0 <= i < shorter.len() implies shorter[i] != c by {
            assert(tail.contains(tail[i]));
        }
        assert(s.drop_last() =~= before + seq![c] + shorter);
        lemma_after_last(before, c, shorter);
        assert(shorter.push(tail.last()) =~= tail);
    }
}

/// What the two probes say together: the size that the headers give, or else the one that the
/// range gives.
pub fn launcher_update_probe(
    head_total: Option<u64>,
    range_probe: LauncherUpdateProbe,
) -> (r: LauncherUpdateProbe)
    ensures
        r == combined(head_total, range_probe),
        r.total_bytes == if head_total is Some {
            head_total
        } else {
            range_probe.total_bytes
        },
        r.supports_ranges == range_probe.supports_ranges,
{
    LauncherUpdateProbe {
        total_bytes: match head_total {
            Some(total) => Some(total),
            None => range_probe.total_bytes,
        },
        supports_ranges: range_probe.supports_ranges,
    }
}

/// A way to fetch a file.
#[derive(Clone, Copy, Debug, PartialEq, Eq, Structural)]
pub enum Transfer {
    /// In ranges that several workers fetch at once.
    Parallel { total_bytes: u64 },
    /// From beginning to end.
    Sequential { total_bytes: Option<u64> },
}

/// What comes next in a download.
#[derive(Debug)]
pub enum DownloadStep {
    /// Fetch the file; what an attempt before has left of it is to be removed first.
    Fetch { transfer: Transfer, remove_first: bool },
    /// Compare the file's digest with the one expected.
    Verify { downloaded: u64 },
    Failed { error: String },
}

/// The way in which a file of which the probe is known is fetched first.
pub open spec fn first_transfer(probe: LauncherUpdateProbe) -> Transfer {
    match probe.total_bytes {
        Some(total) => if total >= ranges::LAUNCHER_UPDATE_MIN_PARALLEL_BYTES
            && probe.supports_ranges {
            Transfer::Parallel { total_bytes: total }
        } else {
            Transfer::Sequential { total_bytes: Some(total) }
        },
        None => Transfer::Sequential { total_bytes: None },
    }
}

/// A file is fetched in ranges just if the server gives ranges, and its size is known and four MiB
/// at least. The size that the probe knows is kept either way.
pub proof fn a_large_file_is_fetched_in_ranges(probe: LauncherUpdateProbe)
    ensures
        first_transfer(probe) is Parallel <==> probe.supports_ranges && (
        probe.total_bytes matches Some(total) && total >= 4 * 1024 * 1024),
        match first_transfer(probe) {
            Transfer::Parallel { total_bytes } => probe.total_bytes == Some(total_bytes),
            Transfer::Sequential { total_bytes } => probe.total_bytes == total_bytes,
        },
{
}

/// How a download of which the probe is known starts.
pub fn download_launcher_update(probe: LauncherUpdateProbe) -> (r: DownloadStep)
    ensures
        r == (DownloadStep::Fetch { transfer: first_transfer(probe), remove_first: false }),
{
    let transfer = match probe.total_bytes {
        Some(total_bytes) => if total_bytes >= ranges::LAUNCHER_UPDATE_MIN_PARALLEL_BYTES
            && probe.supports_ranges {
            Transfer::Parallel { total_bytes }
        } else {
            Transfer::Sequential { total_bytes: Some(total_bytes) }
        },
        None => Transfer::Sequential { total_bytes: None },
    };
    DownloadStep::Fetch { transfer, remove_first: false }
}

/// What comes after a transfer: the digest is checked where it succeeded, a parallel one that
/// failed is tried again from beginning to end, and any other failure ends the download.
pub open spec fn after_transfer(
    transfer: Transfer,
    outcome: Result<u64, String>,
) -> DownloadStep {
    match outcome {
        Ok(downloaded) => DownloadStep::Verify { downloaded },
        Err(error) => match transfer {
            Transfer::Parallel { total_bytes } => DownloadStep::Fetch {
                transfer: Transfer::Sequential { total_bytes: Some(total_bytes) },
                remove_first: true,
            },
            Transfer::Sequential { .. } => DownloadStep::Failed { error },
        },
    }
}

/// What comes after a transfer.
pub fn next_download_step(transfer: Transfer, outcome: Result<u64, String>) -> (r: DownloadStep)
    ensures
        r == after_transfer(transfer, outcome),
{
    match outcome {
        Ok(downloaded) => DownloadStep::Verify { downloaded },
        Err(error) => match transfer {
            Transfer::Parallel { total_bytes } => DownloadStep::Fetch {
                transfer: Transfer::Sequential { total_bytes: Some(total_bytes) },
                remove_first: true,
            },
            Transfer::Sequential { .. } => DownloadStep::Failed { error },
        },
    }
}

/// A download ends after two transfers at most, and fails only with the error of one that ran from
/// beginning to end.
pub proof fn a_download_ends(
    transfer: Transfer,
    first: Result<u64, String>,
    second: Result<u64, String>,
)
    ensures
        match after_transfer(transfer, first) {
            DownloadStep::Fetch { transfer: again, remove_first } => {
                &&& transfer is Parallel
                &&& remove_first
                &&& again is Sequential
                &&& transfer matches Transfer::Parallel { total_bytes } && again == (
                Transfer::Sequential { total_bytes: Some(total_bytes) })
                &&& first is Err
                &&& after_transfer(again, second) !is Fetch
            },
            DownloadStep::Failed { error } => transfer is Sequential && first == Err::<u64, String>(
                error,
            ),
            DownloadStep::Verify { downloaded } => first == Ok::<u64, String>(downloaded),
        },
{
}

/// The bar position while the digest of a downloaded file is checked.
pub const VERIFY_PROGRESS: u8 = 92;

/// How a download ends whose transfer has succeeded.
#[derive(Debug)]
pub enum DownloadEnd {
    /// The file is the one that was asked for.
    Done,
    /// The file is removed, and the download fails.
    Discard { error: String },
}

/// How a download ends after its file has been checked.
pub open spec fn end_after(check: Result<(), String>) -> DownloadEnd {
    match check {
        Ok(()) => DownloadEnd::Done,
        Err(error) => DownloadEnd::Discard { error },
    }
}

/// How a download ends after its file has been checked.
pub fn after_verification(check: Result<(), String>) -> (r: DownloadEnd)
    ensures
        r == end_after(check),
{
    match check {
        Ok(()) => DownloadEnd::Done,
        Err(error) => DownloadEnd::Discard { error },
    }
}

/// How a download ends that has brought these bytes. Only a file with the digest that is expected
/// is kept.
pub fn finish_download(bytes: &[u8], expected_sha256: &str) -> (r: DownloadEnd)
    ensures
        match r {
            DownloadEnd::Done => digest::has_digest(bytes@, expected_sha256@),
            DownloadEnd::Discard { error } => !digest::has_digest(bytes@, expected_sha256@)
                && error@ == digest::mismatch(
                expected_sha256@,
                digest::hex(digest::sha256_of(bytes@)),
            ),
        },
{
    after_verification(digest::verify_launcher_update(bytes, expected_sha256))
}

/// The bar position of a download: the percentage where its size is known, else one that starts
/// at twelve and moves with each MiB, up to 88.
pub open spec fn download_progress(downloaded: int, total: Option<u64>) -> int {
    match total {
        Some(total) => if total > 0 {
            (if downloaded < total {
                downloaded
            } else {
                total as int
            }) * 100 / (total as int)
        } else {
            progress_without_total(downloaded)
        },
        None => progress_without_total(downloaded),
    }
}

/// The bar position of a download whose size is not known.
pub open spec fn progress_without_total(downloaded: int) -> int {
    if downloaded / 1048576 < 76 {
        12 + downloaded / 1048576
    } else {
        88
    }
}

/// The percentage of such a download can be computed in 64 bits.
pub open spec fn progress_fits(downloaded: int, total: Option<u64>) -> bool {
    total matches Some(total) ==> (if downloaded < total {
        downloaded
    } else {
        total as int
    }) * 100 <= u64::MAX
}

/// The texts that a report of a download is made of.
#[derive(Debug)]
pub struct DownloadDetail {
    pub downloaded: String,
    /// The size of the whole and the percentage, where the size is known.
    pub whole: Option<(String, String)>,
    pub speed: String,
}

/// What is to be shown of a download.
#[derive(Debug)]
pub struct DownloadReport {
    pub progress: u8,
    pub detail: DownloadDetail,
}

/// The report says how far the download is.
pub open spec fn reports(
    report: DownloadReport,
    downloaded: int,
    total: Option<u64>,
    speed: u64,
) -> bool {
    &&& report.progress == download_progress(downloaded, total)
    &&& report.detail.downloaded@ == sizes::size_text(downloaded as nat)
    &&& report.detail.speed@ == sizes::size_text(speed as nat)
    &&& match report.detail.whole {
        Some((size, percent)) => total matches Some(total) && total > 0 && size@
            == sizes::size_text(total as nat) && percent@ == text::decimal(
            report.progress as nat,
        ),
        None => !(total matches Some(total) && total > 0),
    }
}

proof fn lemma_percentage(part: int, total: int)
    requires
        0 <= part <= total,
        0 < total,
    ensures
        0 <= part * 100 / total <= 100,
{
    assert(0 <= part * 100 / total <= 100) by (nonlinear_arith)
        requires
            0 <= part <= total,
            0 < total,
    ;
}

/// How far a download is, at `speed` bytes a second.
pub fn launcher_download_progress_detail(
    downloaded: u64,
    total_bytes: Option<u64>,
    speed: u64,
) -> (r: DownloadReport)
    requires
        progress_fits(downloaded as int, total_bytes),
    ensures
        reports(r, downloaded as int, total_bytes, speed),
{
    if let Some(total) = total_bytes {
        if total > 0 {
            let part: u64 = if downloaded < total {
                downloaded
            } else {
                total
            };
            proof {
                lemma_percentage(part as int, total as int);
            }
            let percentage: u8 = (part * 100 / total) as u8;
            return DownloadReport {
                progress: percentage,
                detail: DownloadDetail {
                    downloaded: sizes::format_bytes(downloaded),
                    whole: Some(
                        (sizes::format_bytes(total), strings::decimal_string(percentage as u64)),
                    ),
                    speed: sizes::format_bytes(speed),
                },
            };
        }
    }
    let mib: u64 = downloaded / 1048576;
    let progress: u8 = if mib < 76 {
        12 + mib as u8
    } else {
        88
    };
    DownloadReport {
        progress,
        detail: DownloadDetail {
            downloaded: sizes::format_bytes(downloaded),
            whole: None,
            speed: sizes::format_bytes(speed),
        },
    }
}

/// The bar position of a download is a percentage, and more bytes never move it back.
pub proof fn download_progress_grows(fewer: int, more: int, total: Option<u64>)
    requires
        0 <= fewer <= more,
    ensures
        0 <= download_progress(fewer, total) <= download_progress(more, total) <= 100,
{
    if let Some(t) = total {
        if t > 0 {
            let a = if fewer < t {
                fewer
            } else {
                t as int
            };
            let b = if more < t {
                more
            } else {
                t as int
            };
            lemma_percentage(a, t as int);
            lemma_percentage(b, t as int);
            assert(a * 100 / (t as int) <= b * 100 / (t as int)) by (nonlinear_arith)
                requires
                    0 <= a <= b,
                    0 < t,
            ;
        }
    }
}

/// The text on a download whose size is not the one expected.
pub open spec fn incomplete_message(expected: u64, got: u64) -> Seq<char> {
    "launcher update download incomplete: expected "@ + text::decimal(expected as nat)
        + " bytes, got "@ + text::decimal(got as nat) + " bytes"@
}

fn incomplete(expected: u64, got: u64) -> (r: String)
    ensures
        r@ == incomplete_message(expected, got),
{
    let mut message: String = "launcher update download incomplete: expected ".to_owned();
    message.append(strings::decimal_string(expected).as_str());
    message.append(" bytes, got ");
    message.append(strings::decimal_string(got).as_str());
    message.append(" bytes");
    message
}

/// A report is due: the bar has moved on, or the last one is a while ago.
pub open spec fn report_is_due(progress: int, last: u8, since_report_ms: u64) -> bool {
    progress > last || since_report_ms >= REPORT_INTERVAL_MS
}

/// The size of a file of which one size is expected and the answer gives another.
pub open spec fn known_size(expected: Option<u64>, content_length: Option<u64>) -> Option<u64> {
    if expected is Some {
        expected
    } else {
        content_length
    }
}

/// The size that is expected counts, whatever the answer gives; the answer's own counts only where
/// none is expected.
pub proof fn the_expected_size_counts(expected: u64, content_length: Option<u64>)
    ensures
        known_size(Some(expected), content_length) == Some(expected),
        known_size(None, content_length) == content_length,
{
}

/// A download of so many bytes is all of a file of this size, if the size is known.
pub open spec fn is_complete(total: Option<u64>, downloaded: u64) -> bool {
    match total {
        Some(total) => downloaded == total,
        None => true,
    }
}

/// A file is complete just when neither a byte is missing nor one too many has come; where its size
/// is not known, whatever has come is.
pub proof fn a_complete_file_has_just_its_bytes(total: u64, downloaded: u64)
    ensures
        downloaded < total ==> !is_complete(Some(total), downloaded),
        downloaded > total ==> !is_complete(Some(total), downloaded),
        is_complete(Some(total), total),
        is_complete(None, downloaded),
{
}

/// A download from beginning to end.
#[derive(Debug)]
pub struct SequentialDownload {
    pub total_bytes: Option<u64>,
    pub downloaded: u64,
    pub last_reported_progress: u8,
}

impl SequentialDownload {
    /// A download of which nothing has come yet. Its size is the one expected, or else the one
    /// that the answer gives.
    pub fn new(expected_total_bytes: Option<u64>, content_length: Option<u64>) -> (r: Self)
        ensures
            r.total_bytes == known_size(expected_total_bytes, content_length),
            r.downloaded == 0,
            r.last_reported_progress == PROGRESS_BEFORE_DOWNLOAD,
    {
        SequentialDownload {
            total_bytes: match expected_total_bytes {
                Some(total) => Some(total),
                None => content_length,
            },
            downloaded: 0,
            last_reported_progress: PROGRESS_BEFORE_DOWNLOAD,
        }
    }

    /// Another `size` bytes can be counted.
    pub open spec fn can_take(self, size: u64) -> bool {
        self.downloaded + size <= u64::MAX && progress_fits(
            self.downloaded + size,
            self.total_bytes,
        )
    }

    /// Whether another `size` bytes can be counted.
    pub fn has_room(&self, size: u64) -> (r: bool)
        ensures
            r == self.can_take(size),
    {
        if size > u64::MAX - self.downloaded {
            return false;
        }
        let downloaded: u64 = self.downloaded + size;
        match self.total_bytes {
            Some(total) => if downloaded < total {
                downloaded <= u64::MAX / 100
            } else {
                total <= u64::MAX / 100
            },
            None => true,
        }
    }

    /// After `size` more bytes the download stands at `after`, and the report is the one due then.
    pub open spec fn counts(
        self,
        size: u64,
        since_report_ms: u64,
        speed: u64,
        after: SequentialDownload,
        report: Option<DownloadReport>,
    ) -> bool {
        let downloaded = self.downloaded + size;
        let progress = download_progress(downloaded, self.total_bytes);
        let due = report_is_due(progress, self.last_reported_progress, since_report_ms);
        &&& after.total_bytes == self.total_bytes
        &&& after.downloaded == downloaded
        &&& after.last_reported_progress == if due {
            progress
        } else {
            self.last_reported_progress as int
        }
        &&& report is Some <==> due
        &&& report matches Some(report) ==> reports(report, downloaded, self.total_bytes, speed)
    }

    /// Counts `size` bytes that were written to the file, and gives the report if one is due.
    pub fn on_chunk(&mut self, size: u64, since_report_ms: u64, speed: u64) -> (r: Option<
        DownloadReport,
    >)
        requires
            old(self).can_take(size),
        ensures
            final(self).total_bytes == old(self).total_bytes,
            final(self).downloaded == old(self).downloaded + size,
            old(self).counts(size, since_report_ms, speed, *final(self), r),
    {
        self.downloaded = self.downloaded + size;
        let report = launcher_download_progress_detail(self.downloaded, self.total_bytes, speed);
        if report.progress > self.last_reported_progress || since_report_ms >= REPORT_INTERVAL_MS {
            self.last_reported_progress = report.progress;
            Some(report)
        } else {
            None
        }
    }

    /// The number of bytes when no more come, or an error if they are not as many as the size that
    /// is known.
    pub fn finish(&self) -> (r: Result<u64, String>)
        ensures
            r is Ok <==> is_complete(self.total_bytes, self.downloaded),
            match r {
                Ok(downloaded) => downloaded == self.downloaded && (self.total_bytes is Some
                    ==> self.total_bytes == Some(downloaded)),
                Err(e) => self.total_bytes matches Some(total) && total != self.downloaded && e@
                    == incomplete_message(total, self.downloaded),
            },
    {
        if let Some(total) = self.total_bytes {
            if self.downloaded != total {
                return Err(incomplete(total, self.downloaded));
            }
        }
        Ok(self.downloaded)
    }
}

/// The value of the header that asks for the bytes from `start` to `end`.
pub open spec fn range_text(start: u64, end: u64) -> Seq<char> {
    "bytes="@ + text::decimal(start as nat) + "-"@ + text::decimal(end as nat)
}

/// The value of the header that asks for the bytes from `start` to `end`.
pub fn range_header(start: u64, end: u64) -> (r: String)
    ensures
        r@ == range_text(start, end),
{
    let mut range: String = "bytes=".to_owned();
    range.append(strings::decimal_string(start).as_str());
    range.append("-");
    range.append(strings::decimal_string(end).as_str());
    range
}

/// What a worker does next.
#[derive(Clone, Copy, Debug, PartialEq, Eq, Structural)]
pub enum WorkerStep {
    Fetch { start: u64, end: u64 },
    Stop,
}

/// What a worker does next.
pub open spec fn worker_step(cancelled: bool, taken: Option<(u64, u64)>) -> WorkerStep {
    match taken {
        Some((start, end)) => if cancelled {
            WorkerStep::Stop
        } else {
            WorkerStep::Fetch { start, end }
        },
        None => WorkerStep::Stop,
    }
}

/// A worker fetches just the range that it has taken, and stops where it has taken none or is told
/// to.
pub proof fn a_worker_fetches_what_it_has_taken(cancelled: bool, taken: Option<(u64, u64)>)
    ensures
        worker_step(cancelled, taken) is Stop <==> cancelled || taken is None,
        worker_step(cancelled, taken) matches WorkerStep::Fetch { start, end } ==> taken == Some(
            (start, end),
        ),
{
}

/// What a worker does next: it fetches the range that it has taken, until it is told to stop or no
/// range is left. A worker that is told to stop takes no range.
pub fn download_launcher_update_worker(cancelled: bool, taken: Option<(u64, u64)>) -> (r:
    WorkerStep)
    ensures
        r == worker_step(cancelled, taken),
{
    match taken {
        Some((start, end)) => if cancelled {
            WorkerStep::Stop
        } else {
            WorkerStep::Fetch { start, end }
        },
        None => WorkerStep::Stop,
    }
}

/// What is said of a range that failed.
pub fn range_failure(start: u64, end: u64) -> (r: String)
    ensures
        r@ == "range "@ + range_text(start, end) + " failed"@,
{
    let mut message: String = "range ".to_owned();
    message.append(range_header(start, end).as_str());
    message.append(" failed");
    message
}

/// What is said of a worker that failed; workers are counted from one.
pub fn worker_failure(index: usize) -> (r: String)
    requires
        index < u64::MAX,
    ensures
        r@ == "launcher update dynamic worker "@ + text::decimal((index + 1) as nat)
            + " failed"@,
{
    let mut message: String = "launcher update dynamic worker ".to_owned();
    message.append(strings::decimal_string(index as u64 + 1).as_str());
    message.append(" failed");
    message
}

/// The download of one range.
#[derive(Debug)]
pub struct RangeDownload {
    pub expected_len: u64,
    pub written: u64,
}

/// What to do with the bytes that a read of a range gave.
#[derive(Clone, Copy, Debug, PartialEq, Eq, Structural)]
pub enum RangeStep {
    /// They go to the file.
    Write,
    /// There were none: the answer has ended.
    End,
}

/// The number of bytes from `start` to `end`, both included.
pub open spec fn range_len(start: u64, end: u64) -> int {
    end - start + 1
}

/// A range is done when as many bytes are written as lie in it, the first and the last among them:
/// ranges that follow each other have together as many as the range from the first to the last.
pub proof fn a_range_has_all_its_bytes(start: u64, middle: u64, end: u64)
    requires
        start <= middle < end,
    ensures
        range_len(start, start) == 1,
        range_len(start, middle) + range_len((middle + 1) as u64, end) == range_len(start, end),
        range_len(start, end) == ranges::bytes_in(seq![(start as int, end as int)]),
{
    reveal_with_fuel(ranges::bytes_in, 2);
    let one = seq![(start as int, end as int)];
    assert(one.drop_last() =~= Seq::<(int, int)>::empty());
    assert(one.last() == (start as int, end as int));
}

impl RangeDownload {
    /// No more was written than was asked for.
    pub open spec fn well_formed(self) -> bool {
        self.written <= self.expected_len
    }

    /// The download of the bytes from `start` to `end`, of which the answer has the status
    /// `status`, shown as `status_text`.
    pub fn new(start: u64, end: u64, status: u16, status_text: &str) -> (r: Result<Self, String>)
        requires
            start <= end,
            end - start < u64::MAX,
        ensures
            match r {
                Ok(range) => status == PARTIAL_CONTENT && range.well_formed() && range.expected_len
                    == range_len(start, end) && range.expected_len == end - start + 1
                    && range.written == 0,
                Err(e) => status != PARTIAL_CONTENT && e@
                    == "range request returned unexpected status: "@ + status_text@,
            },
    {
        if status != PARTIAL_CONTENT {
            let mut message: String = "range request returned unexpected status: ".to_owned();
            message.append(status_text);
            return Err(message);
        }
        Ok(RangeDownload { expected_len: end - start + 1, written: 0 })
    }

    /// Whether more is to be read.
    pub fn wants_more(&self, cancelled: bool) -> (r: bool)
        ensures
            r == (self.written < self.expected_len && !cancelled),
    {
        self.written < self.expected_len && !cancelled
    }

    /// After a read that gave `size` bytes the range stands at `after`, and `result` is what becomes
    /// of them.
    pub open spec fn takes(
        self,
        size: int,
        after: RangeDownload,
        result: Result<RangeStep, String>,
    ) -> bool {
        match result {
            Ok(RangeStep::End) => size == 0 && after.written == self.written,
            Ok(RangeStep::Write) => 0 < size <= self.expected_len - self.written && after.written
                == self.written + size,
            Err(e) => size > self.expected_len - self.written && after.written == self.written && e@
                == "range response exceeded expected length: expected "@ + text::decimal(
                self.expected_len as nat,
            ) + " bytes, got at least "@ + text::decimal((self.written + size) as nat) + " bytes"@,
        }
    }

    /// Takes account of a read that gave `size` bytes. More than are missing are an error.
    pub fn on_read(&mut self, size: usize) -> (r: Result<RangeStep, String>)
        requires
            old(self).well_formed(),
            old(self).written + size <= u64::MAX,
        ensures
            final(self).well_formed(),
            final(self).expected_len == old(self).expected_len,
            old(self).takes(size as int, *final(self), r),
    {
        if size == 0 {
            return Ok(RangeStep::End);
        }
        let got: u64 = self.written + size as u64;
        if size as u64 > self.expected_len - self.written {
            let mut message: String =
                "range response exceeded expected length: expected ".to_owned();
            message.append(strings::decimal_string(self.expected_len).as_str());
            message.append(" bytes, got at least ");
            message.append(strings::decimal_string(got).as_str());
            message.append(" bytes");
            return Err(message);
        }
        self.written = got;
        Ok(RangeStep::Write)
    }

    /// Whether the range is done when nothing more is read: a range that was cancelled is, and any
    /// other is if all of it was written.
    pub fn finish(&self, cancelled: bool) -> (r: Result<(), String>)
        ensures
            r is Ok <==> cancelled || is_complete(Some(self.expected_len), self.written),
            r matches Err(e) ==> e@ == "range response incomplete: expected "@ + text::decimal(
                self.expected_len as nat,
            ) + " bytes, got "@ + text::decimal(self.written as nat) + " bytes"@,
    {
        if cancelled || self.written == self.expected_len {
            return Ok(());
        }
        let mut message: String = "range response incomplete: expected ".to_owned();
        message.append(strings::decimal_string(self.expected_len).as_str());
        message.append(" bytes, got ");
        message.append(strings::decimal_string(self.written).as_str());
        message.append(" bytes");
        Err(message)
    }
}

/// What the monitor of a parallel download hears of its workers.
#[derive(Debug)]
pub enum WorkerNews {
    Finished,
    Failed { error: String },
    /// Nothing for a while.
    Nothing,
    /// That none is left to say anything.
    Disconnected,
}

/// The monitor of a parallel download.
#[derive(Debug)]
pub struct ParallelMonitor {
    pub total_bytes: u64,
    pub worker_count: usize,
    pub finished_workers: usize,
    pub last_reported_progress: u8,
}

impl ParallelMonitor {
    /// No more workers have finished than there are, and a percentage of the file can be computed.
    pub open spec fn well_formed(self) -> bool {
        self.finished_workers <= self.worker_count && self.total_bytes * 100 <= u64::MAX
    }

    /// The monitor of a download that no worker has finished.
    pub fn new(total_bytes: u64, worker_count: usize) -> (r: Self)
        requires
            total_bytes * 100 <= u64::MAX,
        ensures
            r.well_formed(),
            r.total_bytes == total_bytes,
            r.worker_count == worker_count,
            r.finished_workers == 0,
            r.last_reported_progress == PROGRESS_BEFORE_DOWNLOAD,
    {
        ParallelMonitor {
            total_bytes,
            worker_count,
            finished_workers: 0,
            last_reported_progress: PROGRESS_BEFORE_DOWNLOAD,
        }
    }

    /// Whether there are workers left to wait for.
    pub fn waits(&self) -> (r: bool)
        ensures
            r == (self.finished_workers < self.worker_count),
    {
        self.finished_workers < self.worker_count
    }

    /// The bytes that are shown where the workers have counted `downloaded`.
    pub open spec fn shown_bytes(self, downloaded: u64) -> int {
        if downloaded < self.total_bytes {
            downloaded as int
        } else {
            self.total_bytes as int
        }
    }

    /// After the news the monitor stands at `after`, and `result` is what comes of them.
    pub open spec fn hears(
        self,
        news: WorkerNews,
        downloaded: u64,
        since_report_ms: u64,
        speed: u64,
        after: ParallelMonitor,
        result: Result<Option<DownloadReport>, String>,
    ) -> bool {
        &&& after.finished_workers == self.finished_workers + if news is Finished {
            1int
        } else {
            0int
        }
        &&& match result {
            Err(e) => {
                &&& match news {
                    WorkerNews::Failed { error } => e == error,
                    WorkerNews::Disconnected => e@ == "launcher update worker channel disconnected"@,
                    _ => false,
                }
                &&& after.last_reported_progress == self.last_reported_progress
            },
            Ok(report) => {
                let bytes = self.shown_bytes(downloaded);
                let total = Some(self.total_bytes);
                let progress = download_progress(bytes, total);
                let due = report_is_due(progress, self.last_reported_progress, since_report_ms);
                &&& news is Finished || news is Nothing
                &&& report is Some <==> due
                &&& after.last_reported_progress == if due {
                    progress
                } else {
                    self.last_reported_progress as int
                }
                &&& report matches Some(report) ==> reports(report, bytes, total, speed)
            },
        }
    }

    /// Takes account of news of the workers, which have counted `downloaded` bytes so far. An error
    /// ends the download, and the other workers are to be told to stop; else the report is given if
    /// one is due.
    pub fn on_news(
        &mut self,
        news: WorkerNews,
        downloaded: u64,
        since_report_ms: u64,
        speed: u64,
    ) -> (r: Result<Option<DownloadReport>, String>)
        requires
            old(self).well_formed(),
            old(self).finished_workers < old(self).worker_count,
        ensures
            final(self).well_formed(),
            final(self).total_bytes == old(self).total_bytes,
            final(self).worker_count == old(self).worker_count,
            old(self).hears(news, downloaded, since_report_ms, speed, *final(self), r),
    {
        match news {
            WorkerNews::Finished => {
                self.finished_workers = self.finished_workers + 1;
            },
            WorkerNews::Failed { error } => {
                return Err(error);
            },
            WorkerNews::Nothing => {},
            WorkerNews::Disconnected => {
                return Err("launcher update worker channel disconnected".to_owned());
            },
        }
        let current: u64 = if downloaded < self.total_bytes {
            downloaded
        } else {
            self.total_bytes
        };
        let report = launcher_download_progress_detail(current, Some(self.total_bytes), speed);
        if report.progress > self.last_reported_progress || since_report_ms >= REPORT_INTERVAL_MS {
            self.last_reported_progress = report.progress;
            Ok(Some(report))
        } else {
            Ok(None)
        }
    }

    /// The number of bytes when every worker has finished, or an error if they are not as many as
    /// the file has.
    pub fn finish(&self, downloaded: u64) -> (r: Result<u64, String>)
        ensures
            r is Ok <==> is_complete(Some(self.total_bytes), downloaded),
            match r {
                Ok(n) => n == downloaded && downloaded == self.total_bytes,
                Err(e) => downloaded != self.total_bytes && e@ == incomplete_message(
                    self.total_bytes,
                    downloaded,
                ),
            },
    {
        if downloaded != self.total_bytes {
            return Err(incomplete(self.total_bytes, downloaded));
        }
        Ok(downloaded)
    }
}

/// The numbers added up.
pub open spec fn sum(numbers: Seq<int>) -> int
    decreases numbers.len(),
{
    if numbers.len() == 0 {
        0
    } else {
        sum(numbers.drop_last()) + numbers.last()
    }
}

/// Where the workers have taken ranges until none was left, and all of each range was written, the
/// bytes that they have counted are as many as the file has: such a download is complete.
pub proof fn complete_ranges_make_a_complete_download(
    total: int,
    workers: int,
    downloaded: Seq<int>,
    ranges: Seq<(int, int)>,
    downloaded_at_end: int,
    written: Seq<int>,
)
    requires
        0 <= total,
        ranges::taken_in_turn(total, workers, downloaded, ranges),
        ranges::next_range(
            total,
            workers,
            ranges::position_after(ranges, ranges.len() as int),
            downloaded_at_end,
        ) is None,
        written.len() == ranges.len(),
        forall|i: int|
            0 <= i < ranges.len() ==> #[trigger] written[i] == ranges[i].1 - ranges[i].0 + 1,
    ensures
        sum(written) == total,
{
    ranges::ranges_taken_to_the_end_are_the_file(
        total,
        workers,
        downloaded,
        ranges,
        downloaded_at_end,
    );
    lemma_sum_of_lengths(ranges, written);
}

proof fn lemma_sum_of_lengths(ranges: Seq<(int, int)>, written: Seq<int>)
    requires
        written.len() == ranges.len(),
        forall|i: int|
            0 <= i < ranges.len() ==> #[trigger] written[i] == ranges[i].1 - ranges[i].0 + 1,
    ensures
        sum(written) == ranges::bytes_in(ranges),
    decreases ranges.len(),
{
    if ranges.len() > 0 {
        assert forall|i: int| 0 <= i < ranges.drop_last().len() implies #[trigger] written.drop_last()[i]
            == ranges.drop_last()[i].1 - ranges.drop_last()[i].0 + 1 by {
            assert(written[i] == ranges[i].1 - ranges[i].0 + 1);
        }
        lemma_sum_of_lengths(ranges.drop_last(), written.drop_last());
        assert(written[ranges.len() - 1] == ranges.last().1 - ranges.last().0 + 1);
    }
}

/// The bar shows the full percentages of what has come: nothing at first, everything at the end, and
/// so many percent in between that one more would be too much.
pub proof fn the_bar_shows_full_percentages(downloaded: int, total: u64)
    requires
        0 <= downloaded,
        0 < total,
    ensures
        download_progress(0, Some(total)) == 0,
        downloaded >= total ==> download_progress(downloaded, Some(total)) == 100,
        downloaded < total ==> download_progress(downloaded, Some(total)) * total <= downloaded * 100
            < (download_progress(downloaded, Some(total)) + 1) * total,
{
    let t = total as int;
    assert(0int * 100 / t == 0) by (nonlinear_arith)
        requires
            t > 0,
    ;
    assert(t * 100 / t == 100) by (nonlinear_arith)
        requires
            t > 0,
    ;
    if downloaded < total {
        vstd::arithmetic::div_mod::lemma_fundamental_div_mod(downloaded * 100, t);
        let q = downloaded * 100 / t;
        assert(q * t <= downloaded * 100 < (q + 1) * t) by (nonlinear_arith)
            requires
                downloaded * 100 == t * q + (downloaded * 100) % t,
                0 <= (downloaded * 100) % t < t,
        ;
    }
}

/// Where the size is not known, or is zero, the bar starts at twelve, moves on by one with each MiB
/// and stays at 88 from there on.
pub proof fn the_bar_moves_with_each_mib(downloaded: int, total: Option<u64>)
    requires
        0 <= downloaded,
        total is None || total == Some(0u64),
    ensures
        download_progress(0, total) == 12,
        12 <= download_progress(downloaded, total) <= 88,
        download_progress(downloaded, total) < 88 ==> download_progress(
            downloaded + 1024 * 1024,
            total,
        ) == download_progress(downloaded, total) + 1,
        download_progress(downloaded, total) == 88 ==> download_progress(
            downloaded + 1024 * 1024,
            total,
        ) == 88,
        downloaded < 1024 * 1024 ==> download_progress(downloaded, total) == 12,
{
}

/// The header asks for the bytes by the two numbers that it is made with, the first before the
/// hyphen and the last behind it.
pub proof fn the_range_header_reads_back(start: u64, end: u64)
    ensures
        text::starts_with(range_text(start, end), "bytes="@),
        text::split_once(range_text(start, end).skip("bytes="@.len() as int), seq!['-']) == Some(
            (text::decimal(start as nat), text::decimal(end as nat)),
        ),
        text::parse_unsigned(text::decimal(start as nat), u64::MAX as nat) == Some(start as nat),
        text::parse_unsigned(text::decimal(end as nat), u64::MAX as nat) == Some(end as nat),
{
    reveal_strlit("-");
    let (a, b) = (text::decimal(start as nat), text::decimal(end as nat));
    let k = "bytes="@.len() as int;
    assert(range_text(start, end).take(k) =~= "bytes="@);
    assert("-"@ =~= seq!['-']);
    assert(range_text(start, end).skip(k) =~= a + seq!['-'] + b);
    text::lemma_decimal(start as nat);
    assert(!a.contains('-')) by {
        assert forall|i: int| 0 <= i < a.len() implies a[i] != '-' by {
            assert(text::is_digit(a[i]));
        }
    }
    text::lemma_split_once_char(a, '-', b);
    text::lemma_decimal_parses(start as nat, u64::MAX as nat);
    text::lemma_decimal_parses(end as nat, u64::MAX as nat);
}

/// A download is kept just if its file passes the check; the error of the check is that of the
/// download.
pub proof fn only_a_checked_file_is_kept(check: Result<(), String>)
    ensures
        end_after(check) is Done <==> check is Ok,
        end_after(check) matches DownloadEnd::Discard { error } ==> check == Err::<(), String>(error),
{
}

/// A report is due whenever the bar has moved on, and otherwise once a quarter of a second after the
/// last one; more time never makes it less due.
pub proof fn reports_come_in_time(progress: int, last: u8, since_ms: u64, later_ms: u64)
    requires
        since_ms <= later_ms,
    ensures
        progress > last ==> report_is_due(progress, last, since_ms),
        progress <= last && since_ms < 250 ==> !report_is_due(progress, last, since_ms),
        since_ms >= 250 ==> report_is_due(progress, last, since_ms),
        report_is_due(progress, last, since_ms) ==> report_is_due(progress, last, later_ms),
{
}

/// The message on a download that is not complete tells the size that was expected before the one
/// that came.
pub proof fn an_incomplete_download_tells_both_sizes(expected: u64, got: u64)
    ensures
        (text::decimal(expected as nat) + " bytes, got "@ + text::decimal(got as nat)
            + " bytes"@).is_suffix_of(incomplete_message(expected, got)),
{
    let message = incomplete_message(expected, got);
    let end = text::decimal(expected as nat) + " bytes, got "@ + text::decimal(got as nat)
        + " bytes"@;
    assert(message =~= "launcher update download incomplete: expected "@ + end);
    assert(message.skip(message.len() - end.len()) =~= end);
}

/// A report tells how much has come, how much there is in all where that is known, and how fast it
/// comes, each in its own place, and the percentage beside the whole is the one that the bar shows.
pub proof fn a_report_tells_each_size_in_its_place(
    report: DownloadReport,
    downloaded: u64,
    total: Option<u64>,
    speed: u64,
)
    requires
        reports(report, downloaded as int, total, speed),
    ensures
        report.detail.downloaded@ == sizes::size_text(downloaded as nat),
        report.detail.speed@ == sizes::size_text(speed as nat),
        report.detail.whole is Some <==> (total is Some && total->0 > 0),
        report.detail.whole matches Some(whole) ==> whole.0@ == sizes::size_text(total->0 as nat)
            && text::parse_unsigned(whole.1@, 100) == Some(report.progress as nat),
        report.progress <= 100,
{
    download_progress_grows(downloaded as int, downloaded as int, total);
    text::lemma_decimal_parses(report.progress as nat, 100);
}

/// What the monitor shows is what the workers have counted, but never more than the file has.
pub proof fn the_monitor_shows_no_more_than_the_file(monitor: ParallelMonitor, downloaded: u64)
    ensures
        monitor.shown_bytes(downloaded) <= monitor.total_bytes,
        downloaded <= monitor.total_bytes ==> monitor.shown_bytes(downloaded) == downloaded,
        downloaded > monitor.total_bytes ==> monitor.shown_bytes(downloaded) == monitor.total_bytes,
{
}

/// Bytes that come are counted each once, whatever is reported of them: two chunks one after the other
/// count as much as one of both. A report tells of all that has come, the last chunk among it.
pub proof fn every_byte_is_counted_once(
    start: SequentialDownload,
    first: u64,
    middle: SequentialDownload,
    second: u64,
    end: SequentialDownload,
    since_ms: u64,
    later_ms: u64,
    speed: u64,
    report: Option<DownloadReport>,
    last_report: Option<DownloadReport>,
)
    requires
        start.counts(first, since_ms, speed, middle, report),
        middle.counts(second, later_ms, speed, end, last_report),
        start.downloaded + first + second <= u64::MAX,
    ensures
        end.downloaded == start.downloaded + first + second,
        end.total_bytes == start.total_bytes,
        is_complete(end.total_bytes, end.downloaded) <==> is_complete(
            start.total_bytes,
            (start.downloaded + first + second) as u64,
        ),
        last_report matches Some(told) ==> told.progress == download_progress(
            start.downloaded + first + second,
            start.total_bytes,
        ) && end.last_reported_progress == told.progress,
        last_report is None ==> end.last_reported_progress == middle.last_reported_progress
            && later_ms < 250,
{
}

/// A range takes whatever still fits into it, up to the last byte, and not one more; what it takes
/// is written, and a read that gives nothing ends it.
pub proof fn a_range_takes_what_fits(
    range: RangeDownload,
    size: int,
    after: RangeDownload,
    result: Result<RangeStep, String>,
)
    requires
        range.well_formed(),
        range.takes(size, after, result),
        0 <= size,
    ensures
        size == 0 <==> (result matches Ok(step) && step is End),
        0 < size <= range.expected_len - range.written <==> (result matches Ok(step) && step
            is Write),
        size > range.expected_len - range.written <==> result is Err,
        result is Ok ==> after.written - range.written == size,
        result is Err ==> after.written == range.written,
        size == range.expected_len - range.written ==> is_complete(
            Some(range.expected_len),
            after.written,
        ),
{
}

/// The monitor counts each worker that has finished, and no other news, and ends the download with
/// the worker's own error where one has failed.
pub proof fn the_monitor_counts_finished_workers(
    monitor: ParallelMonitor,
    news: WorkerNews,
    downloaded: u64,
    since_ms: u64,
    speed: u64,
    after: ParallelMonitor,
    result: Result<Option<DownloadReport>, String>,
)
    requires
        monitor.hears(news, downloaded, since_ms, speed, after, result),
    ensures
        news is Finished <==> after.finished_workers == monitor.finished_workers + 1,
        news !is Finished ==> after.finished_workers == monitor.finished_workers,
        result is Err <==> news is Failed || news is Disconnected,
        news matches WorkerNews::Failed { error } ==> result == Err::<
            Option<DownloadReport>,
            String,
        >(error),
        result matches Ok(report) ==> (report matches Some(told) ==> told.progress
            == download_progress(
            if downloaded < monitor.total_bytes {
                downloaded as int
            } else {
                monitor.total_bytes as int
            },
            Some(monitor.total_bytes),
        )),
{
}

} // verus!
