//! Background jobs: the strip under the footer that shows them, and the feed
//! that keeps it and the reports of finished jobs up to date.
use crate::echo::{dim, dim_text};
use crate::lang::{pick, t, Lang};
use crate::layout::{at_least_one, not_negative};
use crate::text::{
    begins_with, decimal, decimal_text, from_chars, run_of, same, spaces, strip_prefix, texts,
    to_chars, two_digit_text, two_digits,
};
use crate::tokens::TurnTokens;
use crate::width::{visible_width, width_of};
use vstd::prelude::*;
use vstd::string::*;

verus! {

/// A job that runs in the background.
#[derive(Clone, Debug)]
pub struct JobOverview {
    pub job_id: String,
    pub title: String,
    pub kind: String,
    pub status: String,
    pub runtime_seconds: u64,
    pub session_id: Option<String>,
    /// It is not over yet.
    pub running: bool,
}

/// A running time: seconds, minutes and seconds, or hours and minutes.
pub open spec fn duration(seconds: nat) -> Seq<char> {
    if seconds >= 3600 {
        decimal(seconds / 3600) + "h "@ + two_digits((seconds % 3600) / 60) + "m"@
    } else if seconds >= 60 {
        decimal(seconds / 60) + "m "@ + two_digits(seconds % 60) + "s"@
    } else {
        decimal(seconds) + "s"@
    }
}

pub fn format_job_duration(seconds: u64) -> (r: String)
    ensures
        r@ == duration(seconds as nat),
{
    if seconds >= 3600 {
        let mut r = decimal_text(seconds / 3600);
        let rest = two_digit_text((seconds % 3600) / 60);
        r.append("h ");
        r.append(rest.as_str());
        r.append("m");
        r
    } else if seconds >= 60 {
        let mut r = decimal_text(seconds / 60);
        let rest = two_digit_text(seconds % 60);
        r.append("m ");
        r.append(rest.as_str());
        r.append("s");
        r
    } else {
        let mut r = decimal_text(seconds);
        r.append("s");
        r
    }
}

/// The frames of the spinner.
pub open spec fn spinner_frame(phase: nat) -> Seq<char> {
    let k = phase % 10;
    if k == 0 {
        "⠋"@
    } else if k == 1 {
        "⠙"@
    } else if k == 2 {
        "⠹"@
    } else if k == 3 {
        "⠸"@
    } else if k == 4 {
        "⠼"@
    } else if k == 5 {
        "⠴"@
    } else if k == 6 {
        "⠦"@
    } else if k == 7 {
        "⠧"@
    } else if k == 8 {
        "⠇"@
    } else {
        "⠏"@
    }
}

fn job_spinner_frame(phase: usize) -> (r: &'static str)
    ensures
        r@ == spinner_frame(phase as nat),
{
    match phase % 10 {
        0 => "⠋",
        1 => "⠙",
        2 => "⠹",
        3 => "⠸",
        4 => "⠼",
        5 => "⠴",
        6 => "⠦",
        7 => "⠧",
        8 => "⠇",
        _ => "⠏",
    }
}

/// What kind of job it is.
pub open spec fn kind_label(lang: Lang, job: JobOverview) -> Seq<char> {
    if job.kind@ == "subagent"@ {
        pick(lang, "agent"@, "子代理"@)
    } else {
        pick(lang, "cmd"@, "命令"@)
    }
}

fn job_kind_label(lang: Lang, job: &JobOverview) -> (r: &'static str)
    ensures
        r@ == kind_label(lang, *job),
{
    if same(job.kind.as_str(), "subagent") {
        t(lang, "agent", "子代理")
    } else {
        t(lang, "cmd", "命令")
    }
}

/// The width of the widest kind among the first `n` jobs.
pub open spec fn kind_column(lang: Lang, jobs: Seq<JobOverview>, n: int) -> int
    decreases n,
{
    if n <= 0 {
        0
    } else {
        let before = kind_column(lang, jobs, n - 1);
        let w = width_of(kind_label(lang, jobs[n - 1])) as int;
        if w > before {
            w
        } else {
            before
        }
    }
}

/// The longest prefix that takes at most `max` columns.
pub open spec fn shrunk(s: Seq<char>, max: int) -> Seq<char>
    decreases s.len(),
{
    if width_of(s) <= max || s.len() == 0 {
        s
    } else {
        shrunk(s.drop_last(), max)
    }
}

/// A title that was shortened fits.
pub proof fn law_shrunk_title_fits(s: Seq<char>, max: int)
    requires
        max >= 0,
    ensures
        width_of(shrunk(s, max)) <= max,
    decreases s.len(),
{
    if !(width_of(s) <= max || s.len() == 0) {
        law_shrunk_title_fits(s.drop_last(), max);
    }
}

fn shrink(text: String, max: usize) -> (r: String)
    ensures
        r@ == shrunk(text@, max as int),
{
    let v = to_chars(text.as_str());
    let mut r = text;
    let mut n: usize = v.len();
    assert(v@.take(n as int) =~= v@);
    while n > 0 && visible_width(r.as_str()) > max
        invariant
            n <= v@.len(),
            r@ == v@.take(n as int),
            shrunk(r@, max as int) == shrunk(v@, max as int),
        decreases n,
    {
        assert(v@.take(n as int).drop_last() =~= v@.take(n - 1));
        n = n - 1;
        r = from_chars(&v, 0, n);
        assert(r@ =~= v@.take(n as int));
    }
    r
}

/// What the strip says of a job, without its running time.
pub open spec fn job_text(lang: Lang, job: JobOverview, phase: nat, column: int) -> Seq<char> {
    let kind = kind_label(lang, job);
    spinner_frame(phase) + " "@ + kind + run_of(
        ' ',
        not_negative(column - width_of(kind)) as nat,
    ) + " "@ + job.job_id@ + " · "@ + job.title@
}

/// The line of a job: what there is to say, cut to leave two columns before the
/// running time at the right edge.
pub open spec fn job_line(
    lang: Lang,
    job: JobOverview,
    phase: nat,
    column: int,
    cols: int,
) -> Seq<char> {
    let timer = duration(job.runtime_seconds as nat);
    let left = shrunk(
        job_text(lang, job, phase, column),
        not_negative(not_negative(cols - width_of(timer)) - 2),
    );
    let pad = at_least_one(not_negative(not_negative(cols - width_of(left)) - width_of(timer)));
    dim(left + run_of(' ', pad as nat) + timer)
}

/// The strip: a line for each job, with an empty line before each.
pub open spec fn strip_lines(
    lang: Lang,
    jobs: Seq<JobOverview>,
    phase: nat,
    cols: int,
) -> Seq<Seq<char>> {
    Seq::new(
        2 * jobs.len(),
        |k: int|
            if k % 2 == 0 {
                Seq::<char>::empty()
            } else {
                job_line(
                    lang,
                    jobs[k / 2],
                    phase,
                    kind_column(lang, jobs, jobs.len() as int),
                    cols,
                )
            },
    )
}

fn job_strip_line(lang: Lang, job: &JobOverview, phase: usize, column: usize, cols: usize) -> (r:
    String)
    ensures
        r@ == job_line(lang, *job, phase as nat, column as int, cols as int),
{
    let kind = job_kind_label(lang, job);
    let kind_pad = spaces(column.saturating_sub(visible_width(kind)));
    let mut text = job_spinner_frame(phase).to_owned();
    text.append(" ");
    text.append(kind);
    text.append(kind_pad.as_str());
    text.append(" ");
    text.append(job.job_id.as_str());
    text.append(" · ");
    text.append(job.title.as_str());
    let timer = format_job_duration(job.runtime_seconds);
    let timer_width = visible_width(timer.as_str());
    let left = shrink(text, cols.saturating_sub(timer_width).saturating_sub(2));
    let room = cols.saturating_sub(visible_width(left.as_str())).saturating_sub(timer_width);
    let pad: usize = if room == 0 {
        1
    } else {
        room
    };
    let fill = spaces(pad);
    let mut line = left;
    line.append(fill.as_str());
    line.append(timer.as_str());
    dim_text(line.as_str())
}

pub fn background_job_lines(
    lang: Lang,
    jobs: &Vec<JobOverview>,
    spinner_phase: usize,
    cols: usize,
) -> (r: Vec<String>)
    ensures
        texts(r@) == strip_lines(lang, jobs@, spinner_phase as nat, cols as int),
        r@.len() == 2 * jobs@.len(),
{
    let mut lines: Vec<String> = Vec::new();
    let mut column: usize = 0;
    let mut i: usize = 0;
    while i < jobs.len()
        invariant
            i <= jobs@.len(),
            column == kind_column(lang, jobs@, i as int),
        decreases jobs@.len() - i,
    {
        let w = visible_width(job_kind_label(lang, &jobs[i]));
        if w > column {
            column = w;
        }
        i = i + 1;
    }
    let ghost want = strip_lines(lang, jobs@, spinner_phase as nat, cols as int);
    let mut j: usize = 0;
    while j < jobs.len()
        invariant
            j <= jobs@.len(),
            column == kind_column(lang, jobs@, jobs@.len() as int),
            want == strip_lines(lang, jobs@, spinner_phase as nat, cols as int),
            lines@.len() == 2 * j,
            forall|k: int| 0 <= k < 2 * j ==> (#[trigger] lines@[k])@ == want[k],
        decreases jobs@.len() - j,
    {
        let line = job_strip_line(lang, &jobs[j], spinner_phase, column, cols);
        let empty = String::new();
        assert(empty@ =~= Seq::<char>::empty());
        lines.push(empty);
        lines.push(line);
        assert((2 * j) % 2 == 0 && (2 * j + 1) % 2 == 1 && (2 * j + 1) / 2 == j);
        j = j + 1;
    }
    assert(texts(lines@) =~= want);
    lines
}

/// Two jobs look the same in the strip, their running times included.
pub open spec fn look_alike(a: JobOverview, b: JobOverview) -> bool {
    &&& a.job_id@ == b.job_id@
    &&& a.title@ == b.title@
    &&& a.kind@ == b.kind@
    &&& a.status@ == b.status@
    &&& a.runtime_seconds == b.runtime_seconds
}

/// Whether the strip has something else to show: other jobs, another state or
/// title, or a timer that moved on.
pub open spec fn strip_differs(a: Seq<JobOverview>, b: Seq<JobOverview>) -> bool {
    !(a.len() == b.len() && forall|i: int| 0 <= i < b.len() ==> look_alike(#[trigger] a[i], b[i]))
}

fn same_look(a: &JobOverview, b: &JobOverview) -> (r: bool)
    ensures
        r == look_alike(*a, *b),
{
    same(a.job_id.as_str(), b.job_id.as_str()) && same(a.title.as_str(), b.title.as_str()) && same(
        a.kind.as_str(),
        b.kind.as_str(),
    ) && same(a.status.as_str(), b.status.as_str()) && a.runtime_seconds == b.runtime_seconds
}

pub fn jobs_differ(a: &Vec<JobOverview>, b: &Vec<JobOverview>) -> (r: bool)
    ensures
        r == strip_differs(a@, b@),
{
    if a.len() != b.len() {
        return true;
    }
    let mut i: usize = 0;
    while i < b.len()
        invariant
            i <= b@.len(),
            a@.len() == b@.len(),
            forall|k: int| 0 <= k < i ==> look_alike(#[trigger] a@[k], b@[k]),
        decreases b@.len() - i,
    {
        if !same_look(&a[i], &b[i]) {
            assert(!look_alike(a@[i as int], b@[i as int]));
            return true;
        }
        i = i + 1;
    }
    false
}

/// What a wake headline says without the bracketed tag before it; sessions hold
/// two spellings of the tag.
pub open spec fn wake_headline(headline: Seq<char>) -> Seq<char> {
    if begins_with(headline, "[后台任务完成] "@) {
        headline.skip("[后台任务完成] "@.len() as int)
    } else if begins_with(headline, "[后台命令完成] "@) {
        headline.skip("[后台命令完成] "@.len() as int)
    } else {
        headline
    }
}

pub fn job_wake_headline<'a>(headline: &'a str) -> (r: &'a str)
    ensures
        r@ == wake_headline(headline@),
{
    match strip_prefix(headline, "[后台任务完成] ") {
        Some(rest) => rest,
        None => match strip_prefix(headline, "[后台命令完成] ") {
            Some(rest) => rest,
            None => headline,
        },
    }
}

/// Whether the strip of a session shows the job: its own jobs, and those that
/// belong to no session.
pub open spec fn shows_job(job: JobOverview, session: Option<Seq<char>>) -> bool {
    match (session, job.session_id) {
        (Some(wanted), Some(owner)) => owner@ == wanted,
        _ => true,
    }
}

pub open spec fn job_filter(session: Option<Seq<char>>) -> spec_fn(JobOverview) -> bool {
    |job: JobOverview| shows_job(job, session)
}

pub open spec fn opt_text(o: Option<&str>) -> Option<Seq<char>> {
    match o {
        Some(s) => Some(s@),
        None => None,
    }
}

pub open spec fn opt_string(o: Option<String>) -> Option<Seq<char>> {
    match o {
        Some(s) => Some(s@),
        None => None,
    }
}

fn keeps_job(job: &JobOverview, session: Option<&str>) -> (r: bool)
    ensures
        r == shows_job(*job, opt_text(session)),
{
    match (session, &job.session_id) {
        (Some(wanted), Some(owner)) => same(owner.as_str(), wanted),
        _ => true,
    }
}

pub fn retain_session_jobs(jobs: &mut Vec<JobOverview>, session: Option<&str>)
    ensures
        final(jobs)@ == old(jobs)@.filter(job_filter(opt_text(session))),
{
    let ghost all = jobs@;
    let ghost keep = job_filter(opt_text(session));
    let mut i: usize = 0;
    let ghost mut k: int = 0;
    proof {
        reveal(Seq::filter);
        assert(all.take(0).filter(keep) =~= Seq::empty());
        assert(all.take(0).filter(keep) + all.skip(0) =~= all);
    }
    while i < jobs.len()
        invariant
            0 <= k <= all.len(),
            i <= jobs@.len(),
            keep == job_filter(opt_text(session)),
            jobs@ == all.take(k).filter(keep) + all.skip(k),
            i == all.take(k).filter(keep).len(),
        decreases all.len() - k,
    {
        assert(jobs@[i as int] == all[k]);
        proof {
            reveal(Seq::filter);
            assert(all.take(k + 1).drop_last() =~= all.take(k));
        }
        let ghost done = all.take(k).filter(keep);
        if keeps_job(&jobs[i], session) {
            assert(done.push(all[k]) + all.skip(k + 1) =~= jobs@);
            i = i + 1;
        } else {
            jobs.remove(i);
            assert(jobs@ =~= done + all.skip(k + 1));
        }
        proof {
            k = k + 1;
        }
    }
    assert(k == all.len());
    assert(all.take(k) =~= all);
    assert(all.skip(k) =~= Seq::empty());
    assert(jobs@ =~= all.filter(keep));
}

/// How many seconds pass before the daemon is asked for background work again:
/// fewer while there is some.
pub fn jobs_poll_seconds(jobs: &Vec<JobOverview>) -> (r: u64)
    ensures
        r == (if jobs@.len() > 0 {
            1u64
        } else {
            3u64
        }),
{
    if jobs.is_empty() {
        3
    } else {
        1
    }
}

/// The jobs that run, or those that are over, by their names.
pub open spec fn jobs_in_state(jobs: Seq<JobOverview>, running: bool, n: int) -> Seq<Seq<char>>
    decreases n,
{
    if n <= 0 {
        Seq::empty()
    } else if jobs[n - 1].running == running {
        jobs_in_state(jobs, running, n - 1).push(jobs[n - 1].job_id@)
    } else {
        jobs_in_state(jobs, running, n - 1)
    }
}

/// The names of the jobs that are to be stopped, `running`, or that count as
/// reported once the user moved on.
pub fn job_ids(jobs: &Vec<JobOverview>, running: bool) -> (r: Vec<String>)
    ensures
        texts(r@) == jobs_in_state(jobs@, running, jobs@.len() as int),
{
    let mut out: Vec<String> = Vec::new();
    let mut i: usize = 0;
    assert(texts(out@) =~= Seq::empty());
    while i < jobs.len()
        invariant
            i <= jobs@.len(),
            texts(out@) == jobs_in_state(jobs@, running, i as int),
        decreases jobs@.len() - i,
    {
        if jobs[i].running == running {
            let id = jobs[i].job_id.clone();
            proof {
                crate::text::lemma_texts_push(out@, id);
            }
            out.push(id);
        }
        i = i + 1;
    }
    out
}

/// Whether a desktop notification is due: only while the window is known to be
/// out of focus.
pub fn notify_if_unfocused(enabled: bool, focused: Option<bool>) -> (r: bool)
    ensures
        r == (enabled && focused == Some(false)),
{
    enabled && match focused {
        Some(focused) => !focused,
        None => false,
    }
}

/// The report of a finished job.
#[derive(Debug)]
pub struct BackgroundReport {
    pub turn_id: String,
    pub headline: String,
    pub reply: String,
}

/// A turn that the daemon started by itself.
#[derive(Debug)]
pub struct WakeRun {
    pub run_id: String,
    pub session_id: String,
    pub label: String,
}

/// What the poll of the daemon hands to the prompt.
#[derive(Debug)]
pub struct SharedJobsFeed {
    /// The session of the prompt, which the daemon's own may differ from.
    pub repl_session: Option<String>,
    pub jobs: Vec<JobOverview>,
    /// Reports that wait to be printed.
    pub reports: Vec<BackgroundReport>,
    pub cumulative: Option<TurnTokens>,
    pub wake_runs: Vec<WakeRun>,
    /// Runs that were attached to already.
    pub followed_runs: Vec<String>,
    /// Turns that were shown while they ran.
    pub rendered_turns: Vec<String>,
}

/// Where the jobs of the strip come from.
#[derive(Debug)]
pub enum JobsFeed {
    /// From the daemon, by polling.
    Shared(SharedJobsFeed),
    /// From this process.
    Local(Vec<JobOverview>),
}

pub fn contains_name(names: &Vec<String>, name: &str) -> (r: bool)
    ensures
        r == texts(names@).contains(name@),
{
    let mut i: usize = 0;
    while i < names.len()
        invariant
            i <= names@.len(),
            forall|k: int| 0 <= k < i ==> (#[trigger] names@[k])@ != name@,
        decreases names@.len() - i,
    {
        if same(names[i].as_str(), name) {
            assert(texts(names@)[i as int] == name@);
            return true;
        }
        i = i + 1;
    }
    proof {
        if texts(names@).contains(name@) {
            let k = choose|k: int| 0 <= k < names@.len() && texts(names@)[k] == name@;
            assert(names@[k]@ == name@);
        }
    }
    false
}

/// Whether a report is still to be printed.
pub open spec fn unseen(rendered: Seq<Seq<char>>) -> spec_fn(BackgroundReport) -> bool {
    |report: BackgroundReport| !rendered.contains(report.turn_id@)
}

/// Whether a run can be attached to: it is of the session and was not attached
/// to before.
pub open spec fn claimable(run: WakeRun, session: Seq<char>, followed: Seq<Seq<char>>) -> bool {
    run.session_id@ == session && !followed.contains(run.run_id@)
}

impl JobsFeed {
    /// The jobs as they stand.
    pub fn current(&self) -> (r: &Vec<JobOverview>)
        ensures
            *r == match *self {
                JobsFeed::Shared(shared) => shared.jobs,
                JobsFeed::Local(jobs) => jobs,
            },
    {
        match self {
            JobsFeed::Shared(shared) => &shared.jobs,
            JobsFeed::Local(jobs) => jobs,
        }
    }

    /// The total of the session, where the feed knows it.
    pub fn cumulative(&self) -> (r: Option<TurnTokens>)
        ensures
            r == match *self {
                JobsFeed::Shared(shared) => shared.cumulative,
                JobsFeed::Local(_) => None,
            },
    {
        match self {
            JobsFeed::Shared(shared) => shared.cumulative,
            JobsFeed::Local(_) => None,
        }
    }

    /// Takes the reports out of the feed, without those whose turn was shown
    /// while it ran.
    pub fn take_reports(&mut self) -> (r: Vec<BackgroundReport>)
        ensures
            match *old(self) {
                JobsFeed::Shared(before) => {
                    &&& r@ == before.reports@.filter(unseen(texts(before.rendered_turns@)))
                    &&& (*final(self) matches JobsFeed::Shared(after) && after.reports@.len() == 0
                        && after == (SharedJobsFeed { reports: after.reports, ..before }))
                },
                JobsFeed::Local(_) => r@.len() == 0 && *final(self) == *old(self),
            },
    {
        match self {
            JobsFeed::Shared(shared) => shared.drain_reports(),
            JobsFeed::Local(_) => Vec::new(),
        }
    }

    /// The next run of the session that was not attached to yet; it counts as
    /// attached to from now on.
    pub fn claim_wake_run(&mut self, session: &str) -> (r: Option<(String, String)>)
        ensures
            match *old(self) {
                JobsFeed::Shared(before) => *final(self) matches JobsFeed::Shared(after)
                    && claimed(before, after, session@, r),
                JobsFeed::Local(_) => r is None && *final(self) == *old(self),
            },
    {
        match self {
            JobsFeed::Shared(shared) => shared.claim(session),
            JobsFeed::Local(_) => None,
        }
    }
}

/// `r` is the first run that can be attached to, and the feed remembers it.
pub open spec fn claimed(
    before: SharedJobsFeed,
    after: SharedJobsFeed,
    session: Seq<char>,
    r: Option<(String, String)>,
) -> bool {
    let followed = texts(before.followed_runs@);
    let runs = before.wake_runs@;
    match r {
        Some((run_id, label)) => {
            &&& exists|i: int|
                {
                    &&& 0 <= i < runs.len()
                    &&& #[trigger] claimable(runs[i], session, followed)
                    &&& runs[i].run_id@ == run_id@
                    &&& runs[i].label@ == label@
                    &&& forall|k: int| 0 <= k < i ==> !claimable(#[trigger] runs[k], session, followed)
                }
            &&& texts(after.followed_runs@) == followed.push(run_id@)
            &&& after == (SharedJobsFeed { followed_runs: after.followed_runs, ..before })
        },
        None => {
            &&& forall|k: int| 0 <= k < runs.len() ==> !claimable(#[trigger] runs[k], session, followed)
            &&& after == before
        },
    }
}

impl SharedJobsFeed {
    pub fn new() -> (r: Self)
        ensures
            r.repl_session is None,
            r.jobs@.len() == 0,
            r.reports@.len() == 0,
            r.cumulative is None,
            r.wake_runs@.len() == 0,
            r.followed_runs@.len() == 0,
            r.rendered_turns@.len() == 0,
    {
        SharedJobsFeed {
            repl_session: None,
            jobs: Vec::new(),
            reports: Vec::new(),
            cumulative: None,
            wake_runs: Vec::new(),
            followed_runs: Vec::new(),
            rendered_turns: Vec::new(),
        }
    }

    fn drain_reports(&mut self) -> (r: Vec<BackgroundReport>)
        ensures
            r@ == old(self).reports@.filter(unseen(texts(old(self).rendered_turns@))),
            final(self).reports@.len() == 0,
            *final(self) == (SharedJobsFeed { reports: final(self).reports, ..*old(self) }),
    {
        let mut waiting: Vec<BackgroundReport> = Vec::new();
        std::mem::swap(&mut waiting, &mut self.reports);
        let ghost all = waiting@;
        let ghost keep = unseen(texts(self.rendered_turns@));
        let mut i: usize = 0;
        let ghost mut k: int = 0;
        proof {
            reveal(Seq::filter);
            assert(all.take(0).filter(keep) =~= Seq::empty());
            assert(all.take(0).filter(keep) + all.skip(0) =~= all);
        }
        while i < waiting.len()
            invariant
                0 <= k <= all.len(),
                i <= waiting@.len(),
                keep == unseen(texts(self.rendered_turns@)),
                waiting@ == all.take(k).filter(keep) + all.skip(k),
                i == all.take(k).filter(keep).len(),
            decreases all.len() - k,
        {
            assert(waiting@[i as int] == all[k]);
            proof {
                reveal(Seq::filter);
                assert(all.take(k + 1).drop_last() =~= all.take(k));
            }
            let ghost done = all.take(k).filter(keep);
            if !contains_name(&self.rendered_turns, waiting[i].turn_id.as_str()) {
                assert(done.push(all[k]) + all.skip(k + 1) =~= waiting@);
                i = i + 1;
            } else {
                waiting.remove(i);
                assert(waiting@ =~= done + all.skip(k + 1));
            }
            proof {
                k = k + 1;
            }
        }
        assert(k == all.len());
        assert(all.take(k) =~= all);
        assert(all.skip(k) =~= Seq::empty());
        assert(waiting@ =~= all.filter(keep));
        waiting
    }

    fn claim(&mut self, session: &str) -> (r: Option<(String, String)>)
        ensures
            claimed(*old(self), *final(self), session@, r),
    {
        let mut i: usize = 0;
        let ghost followed = texts(self.followed_runs@);
        while i < self.wake_runs.len()
            invariant
                i <= self.wake_runs@.len(),
                *self == *old(self),
                followed == texts(self.followed_runs@),
                forall|k: int|
                    0 <= k < i ==> !claimable(#[trigger] self.wake_runs@[k], session@, followed),
            decreases self.wake_runs@.len() - i,
        {
            let run = &self.wake_runs[i];
            if same(run.session_id.as_str(), session) && !contains_name(
                &self.followed_runs,
                run.run_id.as_str(),
            ) {
                assert(claimable(self.wake_runs@[i as int], session@, followed));
                let run_id = run.run_id.clone();
                let label = run.label.clone();
                let entry = run.run_id.clone();
                proof {
                    crate::text::lemma_texts_push(self.followed_runs@, entry);
                }
                self.followed_runs.push(entry);
                return Some((run_id, label));
            }
            i = i + 1;
        }
        None
    }

    /// Notes that a turn was shown while it ran, so that its report is not
    /// printed as well.
    pub fn mark_rendered(&mut self, turn_id: &str)
        ensures
            texts(final(self).rendered_turns@) == texts(old(self).rendered_turns@).push(turn_id@),
            *final(self) == (SharedJobsFeed {
                rendered_turns: final(self).rendered_turns,
                ..*old(self)
            }),
    {
        let entry = turn_id.to_owned();
        proof {
            crate::text::lemma_texts_push(self.rendered_turns@, entry);
        }
        self.rendered_turns.push(entry);
    }

    /// What one poll brought: the jobs of the prompt's session and the runs
    /// that the daemon started.
    pub fn absorb_overview(&mut self, jobs: Vec<JobOverview>, wake_runs: Vec<WakeRun>)
        ensures
            final(self).jobs@ == jobs@.filter(job_filter(opt_string(old(self).repl_session))),
            final(self).wake_runs == wake_runs,
            *final(self) == (SharedJobsFeed {
                jobs: final(self).jobs,
                wake_runs: final(self).wake_runs,
                ..*old(self)
            }),
    {
        let mut jobs = jobs;
        let session = match &self.repl_session {
            Some(s) => Some(s.as_str()),
            None => None,
        };
        assert(opt_text(session) == opt_string(self.repl_session));
        retain_session_jobs(&mut jobs, session);
        self.jobs = jobs;
        self.wake_runs = wake_runs;
    }
}

/// A run is attached to at most once: right after it was claimed it can no
/// longer be.
pub proof fn law_run_is_claimed_once(
    before: SharedJobsFeed,
    after: SharedJobsFeed,
    session: Seq<char>,
    run_id: String,
    label: String,
)
    requires
        claimed(before, after, session, Some((run_id, label))),
    ensures
        forall|i: int|
            0 <= i < after.wake_runs@.len() && (#[trigger] after.wake_runs@[i]).run_id@ == run_id@
                ==> !claimable(after.wake_runs@[i], session, texts(after.followed_runs@)),
{
    let followed = texts(before.followed_runs@);
    assert(texts(after.followed_runs@).last() == run_id@);
    assert(texts(after.followed_runs@).contains(run_id@)) by {
        let v = texts(after.followed_runs@);
        assert(v[v.len() - 1] == run_id@);
    }
}

/// The runs of a session that are to be attached to, in the order of the list,
/// each with its label: those that were not attached to before, and each name
/// once.
pub open spec fn claims_among(
    runs: Seq<WakeRun>,
    n: int,
    session: Seq<char>,
    followed: Seq<Seq<char>>,
) -> Seq<(Seq<char>, Seq<char>)>
    decreases n,
{
    if n <= 0 {
        Seq::empty()
    } else {
        let before = claims_among(runs, n - 1, session, followed);
        let run = runs[n - 1];
        if claimable(run, session, followed + claim_names(before)) {
            before.push((run.run_id@, run.label@))
        } else {
            before
        }
    }
}

pub open spec fn claim_names(claims: Seq<(Seq<char>, Seq<char>)>) -> Seq<Seq<char>> {
    claims.map_values(|c: (Seq<char>, Seq<char>)| c.0)
}

pub open spec fn claim_view(r: Option<(String, String)>) -> Option<(Seq<char>, Seq<char>)> {
    match r {
        Some((run_id, label)) => Some((run_id@, label@)),
        None => None,
    }
}

/// Every claim is of a run among the first, of the session, not attached to
/// before, and no name is claimed twice.
proof fn lemma_claims(runs: Seq<WakeRun>, n: int, session: Seq<char>, followed: Seq<Seq<char>>)
    requires
        0 <= n <= runs.len(),
    ensures
        ({
            let claims = claims_among(runs, n, session, followed);
            &&& forall|t: int|
                0 <= t < claims.len() ==> exists|k: int|
                    0 <= k < n && is_claim_of(#[trigger] runs[k], session, #[trigger] claims[t])
            &&& forall|t: int|
                0 <= t < claims.len() ==> !followed.contains((#[trigger] claims[t]).0)
            &&& forall|s: int, t: int|
                0 <= s < t < claims.len() ==> (#[trigger] claims[s]).0 != (#[trigger] claims[t]).0
        }),
    decreases n,
{
    if n > 0 {
        lemma_claims(runs, n - 1, session, followed);
        let before = claims_among(runs, n - 1, session, followed);
        let claims = claims_among(runs, n, session, followed);
        let names = claim_names(before);
        if claims.len() > before.len() {
            let run = runs[n - 1];
            assert(is_claim_of(runs[n - 1], session, claims[before.len() as int]));
            assert(!followed.contains(run.run_id@)) by {
                if followed.contains(run.run_id@) {
                    let k = choose|k: int| 0 <= k < followed.len() && followed[k] == run.run_id@;
                    assert((followed + names)[k] == run.run_id@);
                }
            }
            assert forall|t: int| 0 <= t < before.len() implies before[t].0 != run.run_id@ by {
                assert((followed + names)[followed.len() + t] == before[t].0);
            }
        }
    }
}

/// The claim `c` is of the run.
pub open spec fn is_claim_of(run: WakeRun, session: Seq<char>, c: (Seq<char>, Seq<char>)) -> bool {
    run.session_id@ == session && run.run_id@ == c.0 && run.label@ == c.1
}

proof fn lemma_claims_begin(
    runs: Seq<WakeRun>,
    n: int,
    m: int,
    session: Seq<char>,
    followed: Seq<Seq<char>>,
)
    requires
        0 <= n <= m <= runs.len(),
    ensures
        ({
            let few = claims_among(runs, n, session, followed);
            let all = claims_among(runs, m, session, followed);
            few.len() <= all.len() && few == all.take(few.len() as int)
        }),
    decreases m - n,
{
    let few = claims_among(runs, n, session, followed);
    let all = claims_among(runs, m, session, followed);
    if n < m {
        lemma_claims_begin(runs, n, m - 1, session, followed);
        let before = claims_among(runs, m - 1, session, followed);
        assert(all.take(few.len() as int) =~= before.take(few.len() as int));
    } else {
        assert(all.take(few.len() as int) =~= few);
    }
}

/// With the first `j` claims made, the first `i` runs hold none of the others if
/// none of them can be attached to any more.
proof fn lemma_claims_made(
    runs: Seq<WakeRun>,
    i: int,
    session: Seq<char>,
    followed: Seq<Seq<char>>,
    j: int,
)
    requires
        0 <= i <= runs.len(),
        0 <= j <= claims_among(runs, runs.len() as int, session, followed).len(),
        forall|k: int|
            0 <= k < i ==> !claimable(
                #[trigger] runs[k],
                session,
                followed + claim_names(
                    claims_among(runs, runs.len() as int, session, followed).take(j),
                ),
            ),
    ensures
        claims_among(runs, i, session, followed).len() <= j,
{
    let all = claims_among(runs, runs.len() as int, session, followed);
    let few = claims_among(runs, i, session, followed);
    let made = claim_names(all.take(j));
    lemma_claims(runs, runs.len() as int, session, followed);
    lemma_claims(runs, i, session, followed);
    lemma_claims_begin(runs, i, runs.len() as int, session, followed);
    if few.len() > j {
        assert(few[j] == all[j]);
        let k = choose|k: int|
            0 <= k < i && is_claim_of(#[trigger] runs[k], session, few[j]);
        assert(!claimable(runs[k], session, followed + made));
        assert((followed + made).contains(few[j].0));
        let x = choose|x: int| 0 <= x < (followed + made).len() && (followed + made)[x] == few[j].0;
        if x < followed.len() {
            assert(followed.contains(few[j].0));
        } else {
            assert(made[x - followed.len()] == all[x - followed.len()].0);
        }
        assert(false);
    }
}

/// The claim that comes behind the first `j`.
proof fn lemma_next_claim(
    before: SharedJobsFeed,
    after: SharedJobsFeed,
    session: Seq<char>,
    r: Option<(String, String)>,
    followed: Seq<Seq<char>>,
    j: int,
)
    requires
        claimed(before, after, session, r),
        0 <= j <= claims_among(
            before.wake_runs@,
            before.wake_runs@.len() as int,
            session,
            followed,
        ).len(),
        texts(before.followed_runs@) == followed + claim_names(
            claims_among(
                before.wake_runs@,
                before.wake_runs@.len() as int,
                session,
                followed,
            ).take(j),
        ),
    ensures
        ({
            let all = claims_among(
                before.wake_runs@,
                before.wake_runs@.len() as int,
                session,
                followed,
            );
            if j < all.len() {
                &&& claim_view(r) == Some(all[j])
                &&& texts(after.followed_runs@) == followed + claim_names(all.take(j + 1))
            } else {
                r is None && after == before
            }
        }),
{
    let runs = before.wake_runs@;
    let n = runs.len() as int;
    let all = claims_among(runs, n, session, followed);
    let made = claim_names(all.take(j));
    lemma_claims(runs, n, session, followed);
    match r {
        None => {
            lemma_claims_made(runs, n, session, followed, j);
        },
        Some((run_id, label)) => {
            let i = choose|i: int|
                {
                    &&& 0 <= i < runs.len()
                    &&& #[trigger] claimable(runs[i], session, followed + made)
                    &&& runs[i].run_id@ == run_id@
                    &&& runs[i].label@ == label@
                    &&& forall|k: int|
                        0 <= k < i ==> !claimable(#[trigger] runs[k], session, followed + made)
                };
            lemma_claims_made(runs, i, session, followed, j);
            let few = claims_among(runs, i, session, followed);
            lemma_claims_begin(runs, i, n, session, followed);
            lemma_claims_begin(runs, i + 1, n, session, followed);
            let names = claim_names(few);
            assert(!(followed + names).contains(run_id@)) by {
                if (followed + names).contains(run_id@) {
                    let x = choose|x: int|
                        0 <= x < (followed + names).len() && (followed + names)[x] == run_id@;
                    if x < followed.len() {
                        assert((followed + made)[x] == run_id@);
                    } else {
                        assert(few[x - followed.len()] == all[x - followed.len()]);
                        assert((followed + made)[x] == run_id@);
                    }
                }
            }
            let more = claims_among(runs, i + 1, session, followed);
            assert(more == few.push((run_id@, label@)));
            assert(more[few.len() as int] == all[few.len() as int]);
            if few.len() < j {
                assert((followed + made)[followed.len() as int + few.len() as int] == run_id@);
                assert((followed + made).contains(run_id@));
            }
            assert(few.len() == j);
            assert(followed + claim_names(all.take(j + 1)) =~= (followed + made).push(run_id@));
        },
    }
}

/// Over a row of calls the runs of the session are claimed in the order of the
/// list, each once, and then none for ever. What was claimed counts as attached to
/// afterwards, and nothing else does.
pub proof fn law_claims_in_a_row(
    feeds: Seq<SharedJobsFeed>,
    results: Seq<Option<(String, String)>>,
    session: Seq<char>,
)
    requires
        feeds.len() == results.len() + 1,
        forall|i: int|
            0 <= i < results.len() ==> claimed(feeds[i], feeds[i + 1], session, #[trigger] results[i]),
    ensures
        ({
            let runs = feeds[0].wake_runs@;
            let followed = texts(feeds[0].followed_runs@);
            let claims = claims_among(runs, runs.len() as int, session, followed);
            &&& forall|i: int|
                0 <= i < results.len() ==> claim_view(#[trigger] results[i]) == if i < claims.len() {
                    Some(claims[i])
                } else {
                    None
                }
            &&& texts(feeds.last().followed_runs@) == followed + claim_names(
                if results.len() < claims.len() {
                    claims.take(results.len() as int)
                } else {
                    claims
                },
            )
            &&& feeds.last() == (SharedJobsFeed {
                followed_runs: feeds.last().followed_runs,
                ..feeds[0]
            })
            &&& forall|s: int, t: int|
                0 <= s < t < claims.len() ==> (#[trigger] claims[s]).0 != (#[trigger] claims[t]).0
            &&& forall|t: int|
                0 <= t < claims.len() ==> !followed.contains((#[trigger] claims[t]).0)
            &&& forall|t: int|
                0 <= t < claims.len() ==> exists|k: int|
                    0 <= k < runs.len() && is_claim_of(#[trigger] runs[k], session, #[trigger] claims[t])
        }),
    decreases results.len(),
{
    let runs = feeds[0].wake_runs@;
    let followed = texts(feeds[0].followed_runs@);
    let claims = claims_among(runs, runs.len() as int, session, followed);
    lemma_claims(runs, runs.len() as int, session, followed);
    let n = results.len() as int;
    if n == 0 {
        assert(followed + claim_names(claims.take(0)) =~= followed);
        if claims.len() == 0 {
            assert(followed + claim_names(claims) =~= followed);
        }
    } else {
        let fewer = results.drop_last();
        assert forall|i: int| 0 <= i < fewer.len() implies claimed(
            feeds.drop_last()[i],
            feeds.drop_last()[i + 1],
            session,
            #[trigger] fewer[i],
        ) by {
            assert(fewer[i] == results[i]);
        }
        law_claims_in_a_row(feeds.drop_last(), fewer, session);
        let j = if n - 1 < claims.len() {
            n - 1
        } else {
            claims.len() as int
        };
        assert(claims.take(claims.len() as int) =~= claims);
        let last = results[n - 1];
        lemma_next_claim(feeds[n - 1], feeds[n], session, last, followed, j);
        assert forall|i: int| 0 <= i < n implies claim_view(#[trigger] results[i]) == if i
            < claims.len() {
            Some(claims[i])
        } else {
            None
        } by {
            if i < n - 1 {
                assert(fewer[i] == results[i]);
            }
        }
    }
}

/// A turn that was shown while it ran is never reported.
pub proof fn law_rendered_turn_is_not_reported(feed: SharedJobsFeed, report: BackgroundReport)
    requires
        texts(feed.rendered_turns@).contains(report.turn_id@),
    ensures
        !feed.reports@.filter(unseen(texts(feed.rendered_turns@))).contains(report),
{
    broadcast use vstd::seq_lib::group_filter_ensures;

    let keep = unseen(texts(feed.rendered_turns@));
    let kept = feed.reports@.filter(keep);
    if kept.contains(report) {
        let i = choose|i: int| 0 <= i < kept.len() && kept[i] == report;
        assert(keep(kept[i]));
    }
}

/// How far the reports of each session have been read.
#[derive(Debug)]
pub struct Watermarks {
    pub seen: Vec<(String, i64)>,
}

/// The mark of a session: the last one that was set.
pub open spec fn mark_of(seen: Seq<(String, i64)>, session: Seq<char>) -> Option<i64>
    decreases seen.len(),
{
    if seen.len() == 0 {
        None
    } else if seen.last().0@ == session {
        Some(seen.last().1)
    } else {
        mark_of(seen.drop_last(), session)
    }
}

/// A report as the store hands it out.
#[derive(Debug)]
pub struct ReportRow {
    pub seq: i64,
    pub turn_id: String,
    pub display: String,
    pub reply: String,
}

impl Watermarks {
    pub fn find(&self, session: &str) -> (r: Option<i64>)
        ensures
            r == mark_of(self.seen@, session@),
    {
        let mut i: usize = self.seen.len();
        assert(self.seen@.take(i as int) =~= self.seen@);
        while i > 0
            invariant
                i <= self.seen@.len(),
                mark_of(self.seen@, session@) == mark_of(self.seen@.take(i as int), session@),
            decreases i,
        {
            assert(self.seen@.take(i as int).drop_last() =~= self.seen@.take(i - 1));
            assert(self.seen@.take(i as int).last() == self.seen@[i - 1]);
            let entry = &self.seen[i - 1];
            if same(entry.0.as_str(), session) {
                return Some(entry.1);
            }
            i = i - 1;
        }
        None
    }

    pub fn set(&mut self, session: &str, mark: i64)
        ensures
            mark_of(final(self).seen@, session@) == Some(mark),
            forall|other: Seq<char>|
                other != session@ ==> #[trigger] mark_of(final(self).seen@, other) == mark_of(
                    old(self).seen@,
                    other,
                ),
    {
        let ghost before = self.seen@;
        self.seen.push((session.to_owned(), mark));
        assert(self.seen@.drop_last() =~= before);
    }

    /// The mark to read from. A session that is met for the first time starts
    /// behind its latest turn, so that its history is never replayed.
    pub fn start(&mut self, session: &str, latest: i64) -> (mark: i64)
        ensures
            mark == match mark_of(old(self).seen@, session@) {
                Some(m) => m,
                None => latest,
            },
            mark_of(final(self).seen@, session@) == Some(mark),
            forall|other: Seq<char>|
                other != session@ ==> #[trigger] mark_of(final(self).seen@, other) == mark_of(
                    old(self).seen@,
                    other,
                ),
    {
        match self.find(session) {
            Some(m) => m,
            None => {
                self.set(session, latest);
                latest
            },
        }
    }
}

/// The reports of the first `n` rows whose turn was not shown while it ran.
pub open spec fn new_reports(rows: Seq<ReportRow>, rendered: Seq<Seq<char>>, n: int) -> Seq<
    (Seq<char>, Seq<char>, Seq<char>),
>
    decreases n,
{
    if n <= 0 {
        Seq::empty()
    } else {
        let before = new_reports(rows, rendered, n - 1);
        let row = rows[n - 1];
        if rendered.contains(row.turn_id@) {
            before
        } else {
            before.push((row.turn_id@, row.display@, row.reply@))
        }
    }
}

pub open spec fn report_views(v: Seq<BackgroundReport>) -> Seq<(Seq<char>, Seq<char>, Seq<char>)> {
    v.map_values(|r: BackgroundReport| (r.turn_id@, r.headline@, r.reply@))
}

impl SharedJobsFeed {
    /// Takes over the rows that the store returned behind the mark of the
    /// session; the mark follows them, shown or not.
    pub fn absorb_reports(&mut self, marks: &mut Watermarks, session: &str, rows: Vec<ReportRow>)
        ensures
            report_views(final(self).reports@) == report_views(old(self).reports@) + new_reports(
                rows@,
                texts(old(self).rendered_turns@),
                rows@.len() as int,
            ),
            *final(self) == (SharedJobsFeed { reports: final(self).reports, ..*old(self) }),
            mark_of(final(marks).seen@, session@) == if rows@.len() == 0 {
                mark_of(old(marks).seen@, session@)
            } else {
                Some(rows@.last().seq)
            },
            forall|other: Seq<char>|
                other != session@ ==> #[trigger] mark_of(final(marks).seen@, other) == mark_of(
                    old(marks).seen@,
                    other,
                ),
    {
        let ghost rendered = texts(self.rendered_turns@);
        let ghost before = report_views(self.reports@);
        let mut i: usize = 0;
        assert(before + new_reports(rows@, rendered, 0) =~= before);
        while i < rows.len()
            invariant
                i <= rows@.len(),
                rendered == texts(self.rendered_turns@),
                before == report_views(old(self).reports@),
                rendered == texts(old(self).rendered_turns@),
                report_views(self.reports@) == before + new_reports(rows@, rendered, i as int),
                *self == (SharedJobsFeed { reports: self.reports, ..*old(self) }),
                mark_of(marks.seen@, session@) == if i == 0 {
                    mark_of(old(marks).seen@, session@)
                } else {
                    Some(rows@[i - 1].seq)
                },
                forall|other: Seq<char>|
                    other != session@ ==> #[trigger] mark_of(marks.seen@, other) == mark_of(
                        old(marks).seen@,
                        other,
                    ),
            decreases rows@.len() - i,
        {
            let row = &rows[i];
            marks.set(session, row.seq);
            if !contains_name(&self.rendered_turns, row.turn_id.as_str()) {
                let report = BackgroundReport {
                    turn_id: row.turn_id.clone(),
                    headline: row.display.clone(),
                    reply: row.reply.clone(),
                };
                let ghost was = self.reports@;
                self.reports.push(report);
                assert(report_views(self.reports@) =~= report_views(was).push(
                    (row.turn_id@, row.display@, row.reply@),
                ));
                assert(report_views(self.reports@) =~= before + new_reports(
                    rows@,
                    rendered,
                    i + 1,
                ));
            }
            i = i + 1;
        }
    }
}

/// A running time below a minute is given in seconds, below an hour in minutes
/// and seconds, and above that in hours and minutes.
pub proof fn law_running_times(h: nat, m: nat, s: nat)
    requires
        m < 60,
        s < 60,
    ensures
        duration(s) == decimal(s) + "s"@,
        m >= 1 ==> duration(m * 60 + s) == decimal(m) + "m "@ + two_digits(s) + "s"@,
        h >= 1 ==> duration(h * 3600 + m * 60 + s) == decimal(h) + "h "@ + two_digits(m) + "m"@,
{
    assert((m * 60 + s) / 60 == m && (m * 60 + s) % 60 == s);
    let t = h * 3600 + m * 60 + s;
    assert(t / 3600 == h && t % 3600 == m * 60 + s);
}

/// The strip of a session shows its own jobs and those of no session, and no
/// others, in their order.
pub proof fn law_strip_shows_the_sessions_jobs(
    jobs: &mut Vec<JobOverview>,
    session: Option<&str>,
    job: JobOverview,
)
    requires
        call_ensures(retain_session_jobs, (jobs, session), ()),
    ensures
        final(jobs)@.contains(job) <==> old(jobs)@.contains(job) && (session is None
            || job.session_id is None || job.session_id->0@ == session->0@),
{
    broadcast use vstd::seq_lib::group_filter_ensures;

    let keep = job_filter(opt_text(session));
    let all = old(jobs)@;
    if all.filter(keep).contains(job) {
        let i = choose|i: int| 0 <= i < all.filter(keep).len() && all.filter(keep)[i] == job;
        assert(keep(job));
        all.lemma_filter_contains_rev(keep, job);
    }
    if all.contains(job) && shows_job(job, opt_text(session)) {
        assert(keep(job));
        let i = choose|i: int| 0 <= i < all.len() && all[i] == job;
        assert(all.filter(keep).contains(all[i]));
    }
}

/// The strip has two rows for each job: an empty one, and one that ends with its
/// running time.
pub proof fn law_strip_has_a_line_for_each_job(
    lang: Lang,
    jobs: &Vec<JobOverview>,
    phase: usize,
    cols: usize,
    r: Vec<String>,
    i: int,
)
    requires
        call_ensures(background_job_lines, (lang, jobs, phase, cols), r),
        0 <= i < jobs@.len(),
    ensures
        r@.len() == 2 * jobs@.len(),
        r@[2 * i]@.len() == 0,
        r@[2 * i + 1]@ == job_line(
            lang,
            jobs@[i],
            phase as nat,
            kind_column(lang, jobs@, jobs@.len() as int),
            cols as int,
        ),
        exists|left: Seq<char>|
            r@[2 * i + 1]@ == #[trigger] dim(left + duration(jobs@[i].runtime_seconds as nat)),
{
    assert(texts(r@).len() == r@.len());
    assert(texts(r@)[2 * i] == r@[2 * i]@);
    assert(texts(r@)[2 * i + 1] == r@[2 * i + 1]@);
    assert((2 * i) % 2 == 0 && (2 * i + 1) % 2 == 1 && (2 * i + 1) / 2 == i);
    let column = kind_column(lang, jobs@, jobs@.len() as int);
    let timer = duration(jobs@[i].runtime_seconds as nat);
    let left = shrunk(
        job_text(lang, jobs@[i], phase as nat, column),
        not_negative(not_negative(cols - width_of(timer)) - 2),
    );
    let pad = at_least_one(not_negative(not_negative(cols - width_of(left)) - width_of(timer)));
    let head = left + run_of(' ', pad as nat);
    assert(r@[2 * i + 1]@ == dim(head + timer));
}

/// The jobs to stop are those that run, by name; the others are over.
pub proof fn law_jobs_by_state(jobs: Seq<JobOverview>, running: bool, n: int, i: int)
    requires
        0 <= i < n <= jobs.len(),
    ensures
        jobs[i].running == running ==> jobs_in_state(jobs, running, n).contains(jobs[i].job_id@),
        (forall|k: int| 0 <= k < n ==> (#[trigger] jobs[k]).running != running) ==> jobs_in_state(
            jobs,
            running,
            n,
        ).len() == 0,
        jobs_in_state(jobs, running, n).len() <= n,
    decreases n,
{
    if n > 1 {
        law_jobs_by_state(
            jobs,
            running,
            n - 1,
            if i < n - 1 {
                i
            } else {
                0
            },
        );
    } else {
        reveal_with_fuel(jobs_in_state, 2);
    }
    let before = jobs_in_state(jobs, running, n - 1);
    let after = jobs_in_state(jobs, running, n);
    if jobs[i].running == running {
        if i < n - 1 {
            let k = choose|k: int| 0 <= k < before.len() && before[k] == jobs[i].job_id@;
            assert(after[k] == jobs[i].job_id@);
        } else {
            assert(after[before.len() as int] == jobs[i].job_id@);
        }
    }
}

/// A notification is due only where it is wanted and the window is known to be
/// out of focus.
pub proof fn law_notifications_are_for_absent_users(enabled: bool, focused: Option<bool>, r: bool)
    requires
        call_ensures(notify_if_unfocused, (enabled, focused), r),
    ensures
        !enabled ==> !r,
        focused == Some(true) ==> !r,
        focused is None ==> !r,
        enabled && focused == Some(false) ==> r,
{
}

/// While there is work the daemon is asked every second, and every third
/// otherwise.
pub proof fn law_polling_is_faster_with_work(jobs: &Vec<JobOverview>, r: u64)
    requires
        call_ensures(jobs_poll_seconds, (jobs,), r),
    ensures
        jobs@.len() > 0 <==> r == 1,
        jobs@.len() == 0 <==> r == 3,
{
}

/// The feed hands out each report once, and none whose turn was shown.
pub proof fn law_reports_are_taken_once(feed: &mut JobsFeed, r: Vec<BackgroundReport>, report: BackgroundReport)
    requires
        call_ensures(JobsFeed::take_reports, (feed,), r),
        *old(feed) is Shared,
    ensures
        *final(feed) is Shared && (*final(feed))->Shared_0.reports@.len() == 0,
        r@.contains(report) <==> (*old(feed))->Shared_0.reports@.contains(report) && !texts(
            (*old(feed))->Shared_0.rendered_turns@,
        ).contains(report.turn_id@),
{
    broadcast use vstd::seq_lib::group_filter_ensures;

    let before = (*old(feed))->Shared_0;
    let keep = unseen(texts(before.rendered_turns@));
    let all = before.reports@;
    if all.filter(keep).contains(report) {
        let i = choose|i: int| 0 <= i < all.filter(keep).len() && all.filter(keep)[i] == report;
        assert(keep(report));
        all.lemma_filter_contains_rev(keep, report);
    }
    if all.contains(report) && !texts(before.rendered_turns@).contains(report.turn_id@) {
        assert(keep(report));
        let i = choose|i: int| 0 <= i < all.len() && all[i] == report;
        assert(all.filter(keep).contains(all[i]));
    }
}

/// A run that is attached to is of the session and was not attached to before.
pub proof fn law_claimed_runs_are_of_the_session(
    feed: &mut JobsFeed,
    session: &str,
    r: Option<(String, String)>,
)
    requires
        call_ensures(JobsFeed::claim_wake_run, (feed, session), r),
        *old(feed) is Shared,
    ensures
        r matches Some((id, label)) ==> !texts(
            (*old(feed))->Shared_0.followed_runs@,
        ).contains(id@) && exists|i: int|
            0 <= i < (*old(feed))->Shared_0.wake_runs@.len() && (
            #[trigger] (*old(feed))->Shared_0.wake_runs@[i]).session_id@ == session@
                && (*old(feed))->Shared_0.wake_runs@[i].run_id@ == id@
                && (*old(feed))->Shared_0.wake_runs@[i].label@ == label@,
        *final(feed) is Shared && (*final(feed))->Shared_0.jobs == (*old(feed))->Shared_0.jobs,
{
    if let Some((id, label)) = r {
        let before = (*old(feed))->Shared_0;
        let runs = before.wake_runs@;
        let followed = texts(before.followed_runs@);
        let i = choose|i: int|
            {
                &&& 0 <= i < runs.len()
                &&& #[trigger] claimable(runs[i], session@, followed)
                &&& runs[i].run_id@ == id@
                &&& runs[i].label@ == label@
                &&& forall|k: int| 0 <= k < i ==> !claimable(#[trigger] runs[k], session@, followed)
            };
        assert((*old(feed))->Shared_0.wake_runs@[i].session_id@ == session@);
    }
}

/// The spinner has ten frames and begins again behind the last.
pub proof fn law_spinner_goes_round(phase: nat)
    ensures
        spinner_frame(phase + 10) == spinner_frame(phase),
        spinner_frame(0) == "⠋"@,
        spinner_frame(9) == "⠏"@,
        spinner_frame(phase) != spinner_frame(phase + 1),
{
    reveal_strlit("⠋");
    reveal_strlit("⠙");
    reveal_strlit("⠹");
    reveal_strlit("⠸");
    reveal_strlit("⠼");
    reveal_strlit("⠴");
    reveal_strlit("⠦");
    reveal_strlit("⠧");
    reveal_strlit("⠇");
    reveal_strlit("⠏");
    let k = phase % 10;
    assert((phase + 10) % 10 == k);
    assert((phase + 1) % 10 == if k == 9 {
        0nat
    } else {
        k + 1
    });
    assert(spinner_frame(phase)[0] != spinner_frame(phase + 1)[0]);
}

/// The bracketed tag before a headline is left out, in either spelling.
pub proof fn law_headlines_lose_their_tag(text: Seq<char>)
    ensures
        wake_headline("[后台任务完成] "@ + text) == text,
        wake_headline("[后台命令完成] "@ + text) == text,
        text.len() > 0 && text[0] != '[' ==> wake_headline(text) == text,
{
    reveal_strlit("[后台任务完成] ");
    reveal_strlit("[后台命令完成] ");
    let a = "[后台任务完成] "@;
    let b = "[后台命令完成] "@;
    assert((a + text).take(a.len() as int) =~= a);
    assert((a + text).skip(a.len() as int) =~= text);
    assert((b + text).take(b.len() as int) =~= b);
    assert((b + text).skip(b.len() as int) =~= text);
    assert((b + text).take(a.len() as int)[3] == '命');
    assert(a[3] == '任');
    if text.len() > 0 && text[0] != '[' {
        if a.len() <= text.len() {
            assert(text.take(a.len() as int)[0] == text[0]);
        }
        if b.len() <= text.len() {
            assert(text.take(b.len() as int)[0] == text[0]);
        }
    }
}

/// A poll brings the jobs of the prompt's session and all runs that the daemon
/// started.
pub proof fn law_polls_are_taken_over(
    feed: &mut SharedJobsFeed,
    jobs: Vec<JobOverview>,
    runs: Vec<WakeRun>,
    job: JobOverview,
)
    requires
        call_ensures(SharedJobsFeed::absorb_overview, (feed, jobs, runs), ()),
    ensures
        final(feed).wake_runs == runs,
        final(feed).jobs@.contains(job) <==> jobs@.contains(job) && (old(feed).repl_session is None
            || job.session_id is None || job.session_id->0@ == old(feed).repl_session->0@),
        final(feed).reports == old(feed).reports,
{
    broadcast use vstd::seq_lib::group_filter_ensures;

    let keep = job_filter(opt_string(old(feed).repl_session));
    let all = jobs@;
    if all.filter(keep).contains(job) {
        let i = choose|i: int| 0 <= i < all.filter(keep).len() && all.filter(keep)[i] == job;
        assert(keep(job));
        all.lemma_filter_contains_rev(keep, job);
    }
    if all.contains(job) && keep(job) {
        let i = choose|i: int| 0 <= i < all.len() && all[i] == job;
        assert(all.filter(keep).contains(all[i]));
    }
}

/// A session met for the first time starts behind its latest turn; one met before
/// goes on where it was read to.
pub proof fn law_history_is_never_replayed(
    marks: &mut Watermarks,
    session: &str,
    latest: i64,
    mark: i64,
)
    requires
        call_ensures(Watermarks::start, (marks, session, latest), mark),
    ensures
        mark_of(old(marks).seen@, session@) is None ==> mark == latest,
        mark_of(old(marks).seen@, session@) matches Some(m) ==> mark == m,
        mark_of(final(marks).seen@, session@) == Some(mark),
{
}

} // verus!
