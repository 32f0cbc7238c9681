//! What the splash window shows while the launcher starts.

use vstd::prelude::*;

verus! {

/// What the splash window is to show next.
#[derive(Clone, Debug)]
pub struct SplashUpdate {
    pub subtitle: String,
    pub title: String,
    pub detail: String,
    pub progress: u8,
    pub is_error: bool,
}

/// The progress bar ends at one hundred.
pub open spec fn at_most_full(progress: int) -> int {
    if progress > 100 {
        100
    } else {
        progress
    }
}

fn up_to_full(progress: u8) -> (r: u8)
    ensures
        r == at_most_full(progress as int),
{
    if progress > 100 {
        100
    } else {
        progress
    }
}

/// The texts and the progress that an update shows.
pub struct Shown {
    pub subtitle: Seq<char>,
    pub title: Seq<char>,
    pub detail: Seq<char>,
    pub progress: int,
    pub is_error: bool,
}

impl View for SplashUpdate {
    type V = Shown;

    open spec fn view(&self) -> Shown {
        Shown {
            subtitle: self.subtitle@,
            title: self.title@,
            detail: self.detail@,
            progress: self.progress as int,
            is_error: self.is_error,
        }
    }
}

/// What an update shows, if there is one.
pub open spec fn shown(update: Option<SplashUpdate>) -> Option<Shown> {
    match update {
        Some(u) => Some(u@),
        None => None,
    }
}

/// What `SplashUpdate::loading` shows.
pub open spec fn loading(title: Seq<char>, detail: Seq<char>, progress: int) -> Shown {
    Shown {
        subtitle: "正在连接本地服务..."@,
        title,
        detail,
        progress: at_most_full(progress),
        is_error: false,
    }
}

/// What `SplashUpdate::error` shows.
pub open spec fn error(title: Seq<char>, detail: Seq<char>, progress: int) -> Shown {
    Shown {
        subtitle: "连接失败"@,
        title,
        detail,
        progress: at_most_full(progress),
        is_error: true,
    }
}

impl SplashUpdate {
    /// A step of the start that is under way.
    pub fn loading(title: &str, detail: &str, progress: u8) -> (r: SplashUpdate)
        ensures
            r@ == loading(title@, detail@, progress as int),
    {
        SplashUpdate {
            subtitle: "正在连接本地服务...".to_owned(),
            title: title.to_owned(),
            detail: detail.to_owned(),
            progress: up_to_full(progress),
            is_error: false,
        }
    }

    /// A step of the start that failed.
    pub fn error(title: &str, detail: &str, progress: u8) -> (r: SplashUpdate)
        ensures
            r@ == error(title@, detail@, progress as int),
    {
        SplashUpdate {
            subtitle: "连接失败".to_owned(),
            title: title.to_owned(),
            detail: detail.to_owned(),
            progress: up_to_full(progress),
            is_error: true,
        }
    }

    /// The same update under another subtitle.
    pub fn with_subtitle(self, subtitle: &str) -> (r: SplashUpdate)
        ensures
            r@ == (Shown { subtitle: subtitle@, ..self@ }),
    {
        SplashUpdate {
            subtitle: subtitle.to_owned(),
            title: self.title,
            detail: self.detail,
            progress: self.progress,
            is_error: self.is_error,
        }
    }
}

/// Lets updates through to the splash window so that the progress bar never moves back.
#[derive(Clone, Copy, Debug, PartialEq, Eq, Structural)]
pub struct ProgressGate {
    pub last_progress: u8,
}

impl ProgressGate {
    /// A gate that has let nothing through yet.
    pub fn new() -> (r: ProgressGate)
        ensures
            r.last_progress == 0,
    {
        ProgressGate { last_progress: 0 }
    }

    /// The update as it is shown: with the progress of the last one, if its own is less.
    pub fn pass(&mut self, update: SplashUpdate) -> (r: SplashUpdate)
        ensures
            r@ == (Shown {
                progress: advanced(old(self).last_progress as int, update.progress as int),
                ..update@
            }),
            final(self).last_progress == r.progress,
    {
        let progress: u8 = if update.progress > self.last_progress {
            update.progress
        } else {
            self.last_progress
        };
        self.last_progress = progress;
        SplashUpdate {
            subtitle: update.subtitle,
            title: update.title,
            detail: update.detail,
            progress,
            is_error: update.is_error,
        }
    }

    /// The progress for an error that is shown now: where the bar stands, and no less than
    /// `least`.
    pub fn error_progress(&self, least: u8) -> (r: u8)
        ensures
            r == advanced(self.last_progress as int, least as int),
    {
        if self.last_progress > least {
            self.last_progress
        } else {
            least
        }
    }
}

/// Where the bar stands after an update with the progress `next`.
pub open spec fn advanced(last: int, next: int) -> int {
    if next > last {
        next
    } else {
        last
    }
}

/// Where the bar stands after each of a row of updates.
pub open spec fn bar_positions(last: int, updates: Seq<int>) -> Seq<int>
    decreases updates.len(),
{
    if updates.len() == 0 {
        Seq::empty()
    } else {
        let front = bar_positions(last, updates.drop_last());
        let before = if front.len() == 0 {
            last
        } else {
            front.last()
        };
        front.push(advanced(before, updates.last()))
    }
}

/// Whatever the updates say, the bar never moves back, and it shows every progress that it has
/// been told at least.
pub proof fn progress_never_moves_back(last: int, updates: Seq<int>)
    ensures
        bar_positions(last, updates).len() == updates.len(),
        forall|i: int, j: int|
            0 <= i <= j < updates.len() ==> #[trigger] bar_positions(last, updates)[i]
                <= #[trigger] bar_positions(last, updates)[j],
        forall|i: int|
            0 <= i < updates.len() ==> last <= #[trigger] bar_positions(last, updates)[i],
        forall|i: int|
            0 <= i < updates.len() ==> updates[i] <= #[trigger] bar_positions(last, updates)[i],
    decreases updates.len(),
{
    if updates.len() > 0 {
        let front = updates.drop_last();
        progress_never_moves_back(last, front);
        let all = bar_positions(last, updates);
        let before = bar_positions(last, front);
        assert forall|i: int, j: int| 0 <= i <= j < updates.len() implies #[trigger] all[i]
            <= #[trigger] all[j] by {
            if j < front.len() {
                assert(all[i] == before[i] && all[j] == before[j]);
            } else if i < front.len() {
                assert(all[i] == before[i]);
                assert(before[i] <= before[before.len() - 1]);
            }
        }
        assert forall|i: int| 0 <= i < updates.len() implies last <= #[trigger] all[i] by {
            if i < front.len() {
                assert(all[i] == before[i]);
            }
        }
        assert forall|i: int| 0 <= i < updates.len() implies updates[i] <= #[trigger] all[i] by {
            if i < front.len() {
                assert(all[i] == before[i]);
                assert(front[i] == updates[i]);
            }
        }
    }
}

/// The tips, of which one is shown each second.
pub const TIPS: [&'static str; 19] = [
    "指挥官，今天也要加油哦！",
    "听说给舰娘送戒指能变强？",
    "每日任务记得领，蚊子腿也是肉。",
    "后宅的食物记得补充，不然舰娘会饿肚子的。",
    "科研项目虽然慢，但那是变强的必经之路。",
    "不要忘记每日的免费建造哦（虽然大都是狗粮）。",
    "AzurPilot 正在努力为你打工，请稍等片刻。",
    "正在试图潜入塞壬据点...",
    "正在调配燃油，请指挥官稍后...",
    "正在说服蛮啾们加快进度...",
    "适当的休息也是指挥官工作的一部分哦。",
    "听说点击看板娘会有惊喜？",
    "维护补偿的魔方和物资已经... 还没发，再等会儿。",
    "正在拦截塞壬的干扰信号...",
    "正在分析塞壬的技术矩阵...",
    "皇家的红茶已经泡好了，指挥官要来一杯吗？",
    "白鹰的派对已经准备就绪，就等指挥官了。",
    "重樱的樱花落了，但我们的奋斗才刚开始。",
    "铁血的科技世界第一！",
];

/// The tip of the second `timestamp`.
pub open spec fn tip_at(timestamp: i64) -> Seq<char> {
    TIPS@[((timestamp as usize) as int) % 19]@
}

/// The tip of the second `timestamp`.
pub fn tip_of(timestamp: i64) -> (r: String)
    ensures
        r@ == tip_at(timestamp),
{
    let now: usize = timestamp as usize;
    TIPS[now % 19].to_owned()
}

/// `chrono::Local::now` and `DateTime::timestamp`: the seconds since 1970 by the clock of the
/// machine. Nothing is claimed of the number.
#[verifier::external_body]
fn local_timestamp() -> (r: i64)
{
    chrono::Local::now().timestamp()
}

/// The tip of the present second, which is one of the tips.
pub fn get_tip() -> (r: String)
    ensures
        exists|timestamp: i64| r@ == #[trigger] tip_at(timestamp),
{
    let now: i64 = local_timestamp();
    tip_of(now)
}

/// Every tip shown is one of the list.
pub proof fn a_tip_is_one_of_the_list(timestamp: i64)
    ensures
        exists|i: int| 0 <= i < 19 && tip_at(timestamp) == #[trigger] TIPS@[i]@,
{
    let i = ((timestamp as usize) as int) % 19;
    assert(tip_at(timestamp) == TIPS@[i]@);
}

/// A status with a tip behind it.
pub open spec fn with_tip(status: Seq<char>, mark: Seq<char>, tip: Seq<char>) -> Seq<char> {
    status + " | Tips"@ + mark + tip
}

/// A status with a tip behind it: the splash window takes the two apart at the bar and the mark.
pub fn subtitle_with_tip(status: &str, mark: &str, tip: &str) -> (r: String)
    ensures
        r@ == with_tip(status@, mark@, tip@),
{
    let mut out: String = status.to_owned();
    out.append(" | Tips");
    out.append(mark);
    out.append(tip);
    out
}

/// The bar stands just where the furthest of the updates so far has moved it, or where it stood
/// before where none has moved it on.
pub proof fn the_bar_shows_the_furthest_update(last: int, updates: Seq<int>, i: int)
    requires
        0 <= i < updates.len(),
    ensures
        bar_positions(last, updates).len() == updates.len(),
        bar_positions(last, updates)[i] == last || exists|j: int|
            0 <= j <= i && #[trigger] updates[j] == bar_positions(last, updates)[i],
    decreases updates.len(),
{
    let front = updates.drop_last();
    let all = bar_positions(last, updates);
    let before = bar_positions(last, front);
    progress_never_moves_back(last, updates);
    progress_never_moves_back(last, front);
    if i < front.len() {
        the_bar_shows_the_furthest_update(last, front, i);
        assert(all[i] == before[i]);
        if before[i] != last {
            let j = choose|j: int| 0 <= j <= i && #[trigger] front[j] == before[i];
            assert(updates[j] == all[i]);
        }
    } else if front.len() > 0 {
        the_bar_shows_the_furthest_update(last, front, i - 1);
        if all[i] != updates[i] {
            assert(all[i] == before[i - 1]);
            if before[i - 1] != last {
                let j = choose|j: int| 0 <= j <= i - 1 && #[trigger] front[j] == before[i - 1];
                assert(updates[j] == all[i]);
            }
        }
    } else {
        assert(all[i] == advanced(last, updates[i]));
    }
}

/// An update shows the title and the detail that it was made with, and its progress up to one
/// hundred; only one that reports a failure counts as an error.
pub proof fn an_update_shows_what_it_was_made_with(
    title: Seq<char>,
    detail: Seq<char>,
    progress: int,
)
    ensures
        loading(title, detail, progress).title == title,
        loading(title, detail, progress).detail == detail,
        !loading(title, detail, progress).is_error,
        error(title, detail, progress).title == title,
        error(title, detail, progress).detail == detail,
        error(title, detail, progress).is_error,
        loading(title, detail, progress).progress == error(title, detail, progress).progress,
        loading(title, detail, progress).progress <= 100,
        progress <= 100 ==> loading(title, detail, progress).progress == progress,
        progress >= 100 ==> loading(title, detail, progress).progress == 100,
{
}

/// The tips are shown in turn, one each second, and start again after the last one.
pub proof fn the_tips_take_turns(timestamp: i64)
    requires
        0 <= timestamp < 0x7fff_ffff,
    ensures
        tip_at(timestamp) == TIPS@[timestamp as int % 19]@,
        tip_at((timestamp + 19) as i64) == tip_at(timestamp),
{
    assert((timestamp as int + 19) % 19 == timestamp as int % 19);
}

/// The status and the tip can be told from a subtitle: the status stands in front of the bar, and
/// the tip at the end, behind the mark.
pub proof fn a_subtitle_keeps_status_and_tip(status: Seq<char>, mark: Seq<char>, tip: Seq<char>)
    ensures
        with_tip(status, mark, tip).take(status.len() as int) == status,
        with_tip(status, mark, tip).skip(status.len() as int) == " | Tips"@ + mark + tip,
        with_tip(status, mark, tip).len() == status.len() + 7 + mark.len() + tip.len(),
{
    reveal_strlit(" | Tips");
    assert(with_tip(status, mark, tip).take(status.len() as int) =~= status);
    assert(with_tip(status, mark, tip).skip(status.len() as int) =~= " | Tips"@ + mark + tip);
}

} // verus!
