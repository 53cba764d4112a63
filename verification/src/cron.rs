//! Scheduled prompts: cron jobs checked every second; a job fires at most
//! once per minute (kept by a minute marker), and a one-off job is removed
//! once fired. The caller ticks, queues the fires and delivers them.

use chrono::{Datelike, TimeZone, Timelike};
use vstd::prelude::*;

use crate::tasks::opt_view;
use crate::text::{append, owned, str_eq, take_chars, take_chars_of, text_lines};

verus! {

/// A scheduled prompt.
#[derive(Debug, Clone)]
pub struct CronJob {
    pub id: String,
    pub title: String,
    /// Five fields: minute, hour, day, month, weekday.
    pub expr: String,
    pub prompt: String,
    pub recurring: bool,
    pub durable: bool,
    pub session_id: String,
}

/// A job that came due.
#[derive(Debug, Clone)]
pub struct CronFire {
    pub job_id: String,
    pub title: String,
    pub session_id: String,
    pub prompt: String,
}

/// The value of a job.
pub struct JobView {
    pub id: Seq<char>,
    pub title: Seq<char>,
    pub expr: Seq<char>,
    pub prompt: Seq<char>,
    pub recurring: bool,
    pub durable: bool,
    pub session_id: Seq<char>,
}

impl View for CronJob {
    type V = JobView;

    open spec fn view(&self) -> JobView {
        JobView {
            id: self.id@,
            title: self.title@,
            expr: self.expr@,
            prompt: self.prompt@,
            recurring: self.recurring,
            durable: self.durable,
            session_id: self.session_id@,
        }
    }
}

impl CronJob {
    /// A copy.
    pub fn duplicate(&self) -> (r: CronJob)
        ensures
            r@ == self@,
    {
        CronJob {
            id: self.id.clone(),
            title: self.title.clone(),
            expr: self.expr.clone(),
            prompt: self.prompt.clone(),
            recurring: self.recurring,
            durable: self.durable,
            session_id: self.session_id.clone(),
        }
    }
}

/// The values of a list of jobs.
pub open spec fn jobs_view(v: Seq<CronJob>) -> Seq<JobView> {
    v.map_values(|j: CronJob| j@)
}

/// A local time, field by field.
#[derive(Debug, Clone, Copy)]
pub struct LocalTime {
    pub year: i32,
    pub month: u32,
    pub day: u32,
    pub hour: u32,
    pub minute: u32,
    pub second: u32,
}

/// What `croner` says of a cron expression: why it does not parse, if it
/// does not.
pub uninterp spec fn spec_cron_error(expr: Seq<char>) -> Option<Seq<char>>;

/// What `croner` says of whether an expression matches a time given field by
/// field (seconds included: a five-field expression matches at second 0);
/// false for an expression that does not parse or a date that does not
/// exist.
pub uninterp spec fn spec_cron_matches(expr: Seq<char>, year: i32, month: u32, day: u32, hour: u32, minute: u32, second: u32) -> bool;

/// croner `Cron::new(expr).parse()`: the error's text when it fails.
#[verifier::external_body]
fn cron_error(expr: &str) -> (r: Option<String>)
    ensures
        opt_view(r) == spec_cron_error(expr@),
{
    match croner::Cron::new(expr).parse() {
        Ok(_) => None,
        Err(e) => Some(e.to_string()),
    }
}

/// croner `is_time_matching` of a parsed expression, on the given time.
#[verifier::external_body]
fn cron_matches(expr: &str, t: LocalTime) -> (r: bool)
    ensures
        r == spec_cron_matches(expr@, t.year, t.month, t.day, t.hour, t.minute, t.second),
{
    let when = match chrono::Utc.with_ymd_and_hms(t.year, t.month, t.day, t.hour, t.minute, t.second) {
        chrono::LocalResult::Single(w) => w,
        _ => return false,
    };
    match croner::Cron::new(expr).parse() {
        Ok(c) => c.is_time_matching(&when).unwrap_or(false),
        Err(_) => false,
    }
}

/// chrono `Local::now()`, field by field. It is the time, so only the ranges
/// of the fields are stated.
#[verifier::external_body]
fn local_now() -> (r: LocalTime)
    ensures
        1 <= r.month <= 12,
        1 <= r.day <= 31,
        r.hour < 24,
        r.minute < 60,
        r.second < 61,
{
    let n = chrono::Local::now();
    LocalTime { year: n.year(), month: n.month(), day: n.day(), hour: n.hour(), minute: n.minute(), second: n.second() }
}

/// A number as chrono's `%m`, `%d`, `%H` and `%M` write it: in decimal,
/// padded with a zero to two digits.
pub open spec fn two_digits(n: u32) -> Seq<char> {
    if n < 10 {
        seq!['0'] + crate::text::decimal(n as nat)
    } else {
        crate::text::decimal(n as nat)
    }
}

/// The year as chrono's `%Y` writes it for years 0 to 9999: four digits.
pub open spec fn year_text(y: i32) -> Seq<char> {
    if 0 <= y <= 9999 {
        seq![crate::text::digit_char((y / 1000) as nat), crate::text::digit_char(((y / 100) % 10) as nat),
            crate::text::digit_char(((y / 10) % 10) as nat), crate::text::digit_char((y % 10) as nat)]
    } else {
        crate::text::signed_decimal(y as int)
    }
}

/// The minute marker of a time: `YYYY-MM-DD HH:MM` (only compared with other
/// markers; other years are written with their sign).
pub open spec fn marker_of(t: LocalTime) -> Seq<char> {
    year_text(t.year) + "-"@ + two_digits(t.month) + "-"@ + two_digits(t.day) + " "@ + two_digits(t.hour) + ":"@
        + two_digits(t.minute)
}

fn push_two(s: &mut String, n: u32)
    ensures
        final(s)@ == old(s)@ + two_digits(n),
{
    let ghost s0 = s@;
    if n < 10 {
        crate::text::push_char(s, '0');
        assert(s@ =~= s0 + seq!['0']);
    }
    let d = crate::text::decimal_string(n as u64);
    append(s, d.as_str());
    assert(s@ =~= s0 + two_digits(n));
}

/// The minute marker of a time.
pub fn minute_marker(t: LocalTime) -> (r: String)
    ensures
        r@ == marker_of(t),
{
    let mut s = String::new();
    if 0 <= t.year && t.year <= 9999 {
        let y = t.year as u64;
        crate::text::push_char(&mut s, crate::text::digit_char_exec(y / 1000));
        crate::text::push_char(&mut s, crate::text::digit_char_exec((y / 100) % 10));
        crate::text::push_char(&mut s, crate::text::digit_char_exec((y / 10) % 10));
        crate::text::push_char(&mut s, crate::text::digit_char_exec(y % 10));
    } else {
        let d = crate::text::int_string(t.year as i64);
        append(&mut s, d.as_str());
    }
    assert(s@ =~= year_text(t.year));
    append(&mut s, "-");
    push_two(&mut s, t.month);
    append(&mut s, "-");
    push_two(&mut s, t.day);
    append(&mut s, " ");
    push_two(&mut s, t.hour);
    append(&mut s, ":");
    push_two(&mut s, t.minute);
    s
}

/// The title of a scheduled prompt: its first line (or `定时任务`), cut to 40
/// characters.
pub open spec fn cron_title_of(prompt: Seq<char>) -> Seq<char> {
    let lines = text_lines(prompt);
    take_chars(if lines.len() > 0 {
        lines[0]
    } else {
        "定时任务"@
    }, 40)
}

/// The title of a scheduled prompt.
pub fn cron_title(prompt: &str) -> (r: String)
    ensures
        r@ == cron_title_of(prompt@),
{
    let lines = crate::text::lines_of(prompt);
    if lines.len() > 0 {
        take_chars_of(lines[0].as_str(), 40)
    } else {
        take_chars_of("定时任务", 40)
    }
}

/// The position of job `id`, if any.
pub open spec fn job_index(s: Seq<JobView>, id: Seq<char>) -> Option<int> {
    if exists|i: int| 0 <= i < s.len() && (#[trigger] s[i]).id == id {
        Some(choose|i: int| 0 <= i < s.len() && (#[trigger] s[i]).id == id)
    } else {
        None
    }
}

/// The marker recorded for job `id`, if any.
pub open spec fn marker_for(m: Seq<(Seq<char>, Seq<char>)>, id: Seq<char>) -> Option<Seq<char>> {
    if exists|i: int| 0 <= i < m.len() && (#[trigger] m[i]).0 == id {
        Some(m[choose|i: int| 0 <= i < m.len() && (#[trigger] m[i]).0 == id].1)
    } else {
        None
    }
}

/// The value of the recorded markers.
pub open spec fn markers_view(v: Seq<(String, String)>) -> Seq<(Seq<char>, Seq<char>)> {
    v.map_values(|p: (String, String)| (p.0@, p.1@))
}

/// The jobs, by id, and the minute each last fired.
pub struct CronScheduler {
    jobs: Vec<CronJob>,
    last_fired: Vec<(String, String)>,
}

impl CronScheduler {
    /// The jobs, in the order they were added.
    pub closed spec fn job_list(&self) -> Seq<JobView> {
        jobs_view(self.jobs@)
    }

    /// The minute markers of the last fires.
    pub closed spec fn markers(&self) -> Seq<(Seq<char>, Seq<char>)> {
        markers_view(self.last_fired@)
    }

    /// Ids occur once among the jobs and among the markers.
    pub open spec fn wf(&self) -> bool {
        &&& forall|a: int, b: int| 0 <= a < b < self.job_list().len() ==> self.job_list()[a].id != self.job_list()[b].id
        &&& forall|a: int, b: int| 0 <= a < b < self.markers().len() ==> self.markers()[a].0 != self.markers()[b].0
    }

    /// No jobs.
    pub fn new() -> (r: CronScheduler)
        ensures
            r.wf(),
            r.job_list().len() == 0,
            r.markers().len() == 0,
    {
        CronScheduler { jobs: Vec::new(), last_fired: Vec::new() }
    }

    /// Adds a job (replacing one with its id), or refuses an expression that
    /// does not parse.
    pub fn add(&mut self, job: CronJob) -> (r: Result<(), String>)
        requires
            old(self).wf(),
        ensures
            final(self).wf(),
            final(self).markers() == old(self).markers(),
            match spec_cron_error(job@.expr) {
                Some(e) => (r matches Err(m) && m@ == "cron 表达式无效: "@ + e) && final(self).job_list() == old(
                    self,
                ).job_list(),
                None => r is Ok && match job_index(old(self).job_list(), job@.id) {
                    Some(i) => final(self).job_list() == old(self).job_list().update(i, job@),
                    None => final(self).job_list() == old(self).job_list().push(job@),
                },
            },
    {
        match cron_error(job.expr.as_str()) {
            Some(e) => {
                let mut m = owned("cron 表达式无效: ");
                append(&mut m, e.as_str());
                return Err(m);
            },
            None => {},
        }
        let ghost jv = job@;
        let ghost o = self.job_list();
        let mut i: usize = 0;
        while i < self.jobs.len()
            invariant
                i <= self.jobs@.len(),
                self.wf(),
                o == self.job_list(),
                o == old(self).job_list(),
                self.markers() == old(self).markers(),
                jv == job@,
                spec_cron_error(jv.expr) is None,
                forall|k: int| 0 <= k < i ==> (#[trigger] o[k]).id != jv.id,
            decreases self.jobs@.len() - i,
        {
            if str_eq(self.jobs[i].id.as_str(), job.id.as_str()) {
                proof {
                    let c = choose|k: int| 0 <= k < o.len() && (#[trigger] o[k]).id == jv.id;
                    assert(o[i as int].id == jv.id);
                    if c != i {
                        assert(o[c].id == o[i as int].id);
                    }
                }
                self.jobs.set(i, job);
                assert(self.job_list() =~= o.update(i as int, jv));
                assert forall|a: int, b: int| 0 <= a < b < self.job_list().len() implies self.job_list()[a].id
                    != self.job_list()[b].id by {
                    assert(self.job_list()[a].id == o[a].id);
                    assert(self.job_list()[b].id == o[b].id);
                }
                return Ok(());
            }
            i += 1;
        }
        self.jobs.push(job);
        assert(self.job_list() =~= o.push(jv));
        Ok(())
    }

    /// Removes job `id` and its marker.
    pub fn remove(&mut self, id: &str)
        requires
            old(self).wf(),
        ensures
            final(self).wf(),
            final(self).job_list() == old(self).job_list().filter(|j: JobView| j.id != id@),
            final(self).markers() == old(self).markers().filter(|m: (Seq<char>, Seq<char>)| m.0 != id@),
    {
        let ghost jp = |j: JobView| j.id != id@;
        let ghost mp = |m: (Seq<char>, Seq<char>)| m.0 != id@;
        let ghost oj = self.job_list();
        let ghost om = self.markers();
        let mut jobs: Vec<CronJob> = Vec::new();
        let mut i: usize = 0;
        while i < self.jobs.len()
            invariant
                i <= self.jobs@.len(),
                oj == self.job_list(),
                jp == (|j: JobView| j.id != id@),
                jobs_view(jobs@) == oj.take(i as int).filter(jp),
            decreases self.jobs@.len() - i,
        {
            let ghost prev = jobs@;
            if !str_eq(self.jobs[i].id.as_str(), id) {
                jobs.push(self.jobs[i].duplicate());
                assert(jobs_view(jobs@) =~= jobs_view(prev).push(oj[i as int]));
            }
            proof {
                assert(oj.take(i + 1).drop_last() =~= oj.take(i as int));
                reveal(Seq::filter);
            }
            i += 1;
        }
        assert(oj.take(self.jobs@.len() as int) =~= oj);
        let mut marks: Vec<(String, String)> = Vec::new();
        let mut k: usize = 0;
        while k < self.last_fired.len()
            invariant
                k <= self.last_fired@.len(),
                om == self.markers(),
                mp == (|m: (Seq<char>, Seq<char>)| m.0 != id@),
                markers_view(marks@) == om.take(k as int).filter(mp),
            decreases self.last_fired@.len() - k,
        {
            let ghost prev = marks@;
            if !str_eq(self.last_fired[k].0.as_str(), id) {
                marks.push((self.last_fired[k].0.clone(), self.last_fired[k].1.clone()));
                assert(markers_view(marks@) =~= markers_view(prev).push(om[k as int]));
            }
            proof {
                assert(om.take(k + 1).drop_last() =~= om.take(k as int));
                reveal(Seq::filter);
            }
            k += 1;
        }
        assert(om.take(self.last_fired@.len() as int) =~= om);
        self.jobs = jobs;
        self.last_fired = marks;
        proof {
            broadcast use vstd::seq_lib::group_filter_ensures;
            let nj = self.job_list();
            assert forall|a: int, b: int| 0 <= a < b < nj.len() implies nj[a].id != nj[b].id by {
                self.lemma_filter_distinct_jobs(oj, jp, a, b);
            }
            let nm = self.markers();
            assert forall|a: int, b: int| 0 <= a < b < nm.len() implies nm[a].0 != nm[b].0 by {
                self.lemma_filter_distinct_marks(om, mp, a, b);
            }
        }
    }

    proof fn lemma_filter_distinct_jobs(&self, s: Seq<JobView>, p: spec_fn(JobView) -> bool, a: int, b: int)
        requires
            forall|x: int, y: int| 0 <= x < y < s.len() ==> s[x].id != s[y].id,
            0 <= a < b < s.filter(p).len(),
        ensures
            s.filter(p)[a].id != s.filter(p)[b].id,
    {
        lemma_filter_keeps_distinct(s.map_values(|j: JobView| j.id), s, p, a, b);
    }

    proof fn lemma_filter_distinct_marks(&self, s: Seq<(Seq<char>, Seq<char>)>, p: spec_fn((Seq<char>, Seq<char>)) -> bool, a: int, b: int)
        requires
            forall|x: int, y: int| 0 <= x < y < s.len() ==> s[x].0 != s[y].0,
            0 <= a < b < s.filter(p).len(),
        ensures
            s.filter(p)[a].0 != s.filter(p)[b].0,
    {
        lemma_filter_keeps_distinct_pairs(s, p, a, b);
    }

    /// The jobs, in the order they were added.
    pub fn list(&self) -> (r: Vec<CronJob>)
        ensures
            jobs_view(r@) == self.job_list(),
    {
        let mut out: Vec<CronJob> = Vec::new();
        let mut i: usize = 0;
        while i < self.jobs.len()
            invariant
                i <= self.jobs@.len(),
                jobs_view(out@) == self.job_list().take(i as int),
            decreases self.jobs@.len() - i,
        {
            let ghost prev = out@;
            out.push(self.jobs[i].duplicate());
            assert(jobs_view(out@) =~= jobs_view(prev).push(self.job_list()[i as int]));
            assert(jobs_view(out@) =~= self.job_list().take(i + 1));
            i += 1;
        }
        assert(self.job_list().take(self.jobs@.len() as int) =~= self.job_list());
        out
    }
}

/// Filtering keeps distinct keys distinct.
proof fn lemma_filter_keeps_distinct(keys: Seq<Seq<char>>, s: Seq<JobView>, p: spec_fn(JobView) -> bool, a: int, b: int)
    requires
        forall|x: int, y: int| 0 <= x < y < s.len() ==> s[x].id != s[y].id,
        0 <= a < b < s.filter(p).len(),
    ensures
        s.filter(p)[a].id != s.filter(p)[b].id,
    decreases s.len(),
{
    reveal(Seq::filter);
    let f = s.filter(p);
    let fr = s.drop_last().filter(p);
    assert forall|x: int, y: int| 0 <= x < y < s.drop_last().len() implies s.drop_last()[x].id != s.drop_last()[y].id by {
        assert(s.drop_last()[x] == s[x] && s.drop_last()[y] == s[y]);
    }
    if p(s.last()) {
        assert(f == fr.push(s.last()));
        if b < fr.len() {
            lemma_filter_keeps_distinct(keys, s.drop_last(), p, a, b);
        } else {
            s.drop_last().lemma_filter_contains_rev(p, fr[a]);
            broadcast use vstd::seq_lib::group_filter_ensures;
            assert(fr.contains(fr[a]));
            let k = choose|k: int| 0 <= k < s.drop_last().len() && s.drop_last()[k] == fr[a];
            assert(s[k] == fr[a]);
            assert(s[k].id != s[s.len() - 1].id);
        }
    } else {
        assert(f == fr);
        lemma_filter_keeps_distinct(keys, s.drop_last(), p, a, b);
    }
}

/// Filtering keeps distinct keys distinct.
proof fn lemma_filter_keeps_distinct_pairs(s: Seq<(Seq<char>, Seq<char>)>, p: spec_fn((Seq<char>, Seq<char>)) -> bool, a: int, b: int)
    requires
        forall|x: int, y: int| 0 <= x < y < s.len() ==> s[x].0 != s[y].0,
        0 <= a < b < s.filter(p).len(),
    ensures
        s.filter(p)[a].0 != s.filter(p)[b].0,
    decreases s.len(),
{
    reveal(Seq::filter);
    let f = s.filter(p);
    let fr = s.drop_last().filter(p);
    assert forall|x: int, y: int| 0 <= x < y < s.drop_last().len() implies s.drop_last()[x].0 != s.drop_last()[y].0 by {
        assert(s.drop_last()[x] == s[x] && s.drop_last()[y] == s[y]);
    }
    if p(s.last()) {
        assert(f == fr.push(s.last()));
        if b < fr.len() {
            lemma_filter_keeps_distinct_pairs(s.drop_last(), p, a, b);
        } else {
            s.drop_last().lemma_filter_contains_rev(p, fr[a]);
            broadcast use vstd::seq_lib::group_filter_ensures;
            assert(fr.contains(fr[a]));
            let k = choose|k: int| 0 <= k < s.drop_last().len() && s.drop_last()[k] == fr[a];
            assert(s[k] == fr[a]);
            assert(s[k].0 != s[s.len() - 1].0);
        }
    } else {
        assert(f == fr);
        lemma_filter_keeps_distinct_pairs(s.drop_last(), p, a, b);
    }
}

} // verus!

verus! {

/// The value of a fire.
pub struct FireView {
    pub job_id: Seq<char>,
    pub title: Seq<char>,
    pub session_id: Seq<char>,
    pub prompt: Seq<char>,
}

/// The value of a fire.
pub open spec fn fire_view(f: CronFire) -> FireView {
    FireView { job_id: f.job_id@, title: f.title@, session_id: f.session_id@, prompt: f.prompt@ }
}

/// The markers with the marker of `id` set to `marker`.
pub open spec fn with_marker(ms: Seq<(Seq<char>, Seq<char>)>, id: Seq<char>, marker: Seq<char>) -> Seq<(Seq<char>, Seq<char>)> {
    if exists|i: int| 0 <= i < ms.len() && (#[trigger] ms[i]).0 == id {
        ms.update(choose|i: int| 0 <= i < ms.len() && (#[trigger] ms[i]).0 == id, (id, marker))
    } else {
        ms.push((id, marker))
    }
}

/// The scheduler state after considering job `j` at time `now`: a job that
/// matches and has not fired this minute fires, records the minute, and, if
/// one-off, is removed.
pub open spec fn tick_job(
    js: Seq<JobView>,
    ms: Seq<(Seq<char>, Seq<char>)>,
    j: JobView,
    now: LocalTime,
) -> (Seq<JobView>, Seq<(Seq<char>, Seq<char>)>, Option<FireView>) {
    let marker = marker_of(now);
    if !spec_cron_matches(j.expr, now.year, now.month, now.day, now.hour, now.minute, now.second) {
        (js, ms, None)
    } else if marker_for(ms, j.id) == Some(marker) {
        (js, ms, None)
    } else {
        let ms2 = with_marker(ms, j.id, marker);
        let f = Some(FireView { job_id: j.id, title: j.title, session_id: j.session_id, prompt: j.prompt });
        if j.recurring {
            (js, ms2, f)
        } else {
            (js.filter(|x: JobView| x.id != j.id), ms2.filter(|m: (Seq<char>, Seq<char>)| m.0 != j.id), f)
        }
    }
}

/// The first `k` jobs of `snap` considered in order.
pub open spec fn tick_jobs(
    snap: Seq<JobView>,
    k: nat,
    js: Seq<JobView>,
    ms: Seq<(Seq<char>, Seq<char>)>,
    now: LocalTime,
) -> (Seq<JobView>, Seq<(Seq<char>, Seq<char>)>, Seq<FireView>)
    decreases k,
{
    if k == 0 {
        (js, ms, Seq::empty())
    } else {
        let (a, b, fs) = tick_jobs(snap, (k - 1) as nat, js, ms, now);
        let (a2, b2, f) = tick_job(a, b, snap[k - 1], now);
        (a2, b2, match f {
            Some(x) => fs.push(x),
            None => fs,
        })
    }
}

impl CronScheduler {
    fn set_marker(&mut self, id: &str, marker: &str)
        requires
            old(self).wf(),
        ensures
            final(self).wf(),
            final(self).job_list() == old(self).job_list(),
            final(self).markers() == with_marker(old(self).markers(), id@, marker@),
    {
        let ghost o = self.markers();
        let mut i: usize = 0;
        while i < self.last_fired.len()
            invariant
                i <= self.last_fired@.len(),
                self.wf(),
                o == self.markers(),
                o == old(self).markers(),
                self.job_list() == old(self).job_list(),
                forall|k: int| 0 <= k < i ==> (#[trigger] o[k]).0 != id@,
            decreases self.last_fired@.len() - i,
        {
            if str_eq(self.last_fired[i].0.as_str(), id) {
                proof {
                    let c = choose|k: int| 0 <= k < o.len() && (#[trigger] o[k]).0 == id@;
                    assert(o[i as int].0 == id@);
                    if c != i {
                        assert(o[c].0 == o[i as int].0);
                    }
                }
                self.last_fired.set(i, (owned(id), owned(marker)));
                assert(self.markers() =~= o.update(i as int, (id@, marker@)));
                assert forall|a: int, b: int| 0 <= a < b < self.markers().len() implies self.markers()[a].0
                    != self.markers()[b].0 by {
                    assert(self.markers()[a].0 == o[a].0);
                    assert(self.markers()[b].0 == o[b].0);
                }
                return;
            }
            i += 1;
        }
        self.last_fired.push((owned(id), owned(marker)));
        assert(self.markers() =~= o.push((id@, marker@)));
    }

    fn marker_of_job(&self, id: &str) -> (r: Option<String>)
        requires
            self.wf(),
        ensures
            opt_view(r) == marker_for(self.markers(), id@),
    {
        let mut i: usize = 0;
        while i < self.last_fired.len()
            invariant
                i <= self.last_fired@.len(),
                self.wf(),
                forall|k: int| 0 <= k < i ==> (#[trigger] self.markers()[k]).0 != id@,
            decreases self.last_fired@.len() - i,
        {
            if str_eq(self.last_fired[i].0.as_str(), id) {
                proof {
                    let o = self.markers();
                    let c = choose|k: int| 0 <= k < o.len() && (#[trigger] o[k]).0 == id@;
                    assert(o[i as int].0 == id@);
                    if c != i {
                        assert(o[c].0 == o[i as int].0);
                    }
                }
                return Some(self.last_fired[i].1.clone());
            }
            i += 1;
        }
        None
    }

    /// Considers every job at time `now`, in order, and gives the fires.
    pub fn tick_at(&mut self, now: LocalTime) -> (r: Vec<CronFire>)
        requires
            old(self).wf(),
        ensures
            final(self).wf(),
            ({
                let (js, ms, fs) = tick_jobs(old(self).job_list(), old(self).job_list().len(), old(self).job_list(), old(self).markers(), now);
                &&& final(self).job_list() == js
                &&& final(self).markers() == ms
                &&& r@.map_values(|f: CronFire| fire_view(f)) == fs
            }),
    {
        let marker = minute_marker(now);
        let snap = self.list();
        let ghost sv = jobs_view(snap@);
        let ghost o_js = old(self).job_list();
        let ghost o_ms = old(self).markers();
        let mut fires: Vec<CronFire> = Vec::new();
        let mut k: usize = 0;
        while k < snap.len()
            invariant
                k <= snap@.len(),
                self.wf(),
                sv == jobs_view(snap@),
                sv == o_js,
                marker@ == marker_of(now),
                ({
                    let (js, ms, fs) = tick_jobs(sv, k as nat, o_js, o_ms, now);
                    &&& self.job_list() == js
                    &&& self.markers() == ms
                    &&& fires@.map_values(|f: CronFire| fire_view(f)) == fs
                }),
            decreases snap@.len() - k,
        {
            let j = &snap[k];
            assert(j@ == sv[k as int]);
            let ghost pre_js = self.job_list();
            let ghost pre_ms = self.markers();
            let ghost pre_fs = fires@.map_values(|f: CronFire| fire_view(f));
            assert(tick_jobs(sv, k as nat, o_js, o_ms, now) == (pre_js, pre_ms, pre_fs));
            if cron_matches(j.expr.as_str(), now) {
                let last = self.marker_of_job(j.id.as_str());
                let fired = match &last {
                    Some(m) => str_eq(m.as_str(), marker.as_str()),
                    None => false,
                };
                if !fired {
                    self.set_marker(j.id.as_str(), marker.as_str());
                    let ghost prev = fires@;
                    fires.push(CronFire {
                        job_id: j.id.clone(),
                        title: j.title.clone(),
                        session_id: j.session_id.clone(),
                        prompt: j.prompt.clone(),
                    });
                    assert(fires@.map_values(|f: CronFire| fire_view(f)) =~= prev.map_values(|f: CronFire| fire_view(f)).push(
                        FireView { job_id: j.id@, title: j.title@, session_id: j.session_id@, prompt: j.prompt@ },
                    ));
                    if !j.recurring {
                        let ghost mid_js = self.job_list();
                        let ghost mid_ms = self.markers();
                        self.remove(j.id.as_str());
                        proof {
                            assert((|x: JobView| x.id != j@.id) =~= (|x: JobView| x.id != j.id@));
                            assert((|m: (Seq<char>, Seq<char>)| m.0 != j@.id) =~= (|m: (Seq<char>, Seq<char>)| m.0 != j.id@));
                        }
                    }
                }
            }
            proof {
                assert(tick_jobs(sv, (k + 1) as nat, o_js, o_ms, now) == {
                    let (a2, b2, f) = tick_job(pre_js, pre_ms, sv[k as int], now);
                    (a2, b2, match f {
                        Some(x) => pre_fs.push(x),
                        None => pre_fs,
                    })
                });
            }
            k += 1;
        }
        fires
    }

    /// Considers every job now, and gives the fires.
    pub fn tick(&mut self) -> (r: Vec<CronFire>)
        requires
            old(self).wf(),
        ensures
            final(self).wf(),
            exists|now: LocalTime| {
                let (js, ms, fs) = #[trigger] tick_jobs(old(self).job_list(), old(self).job_list().len(), old(self).job_list(), old(self).markers(), now);
                &&& final(self).job_list() == js
                &&& final(self).markers() == ms
                &&& r@.map_values(|f: CronFire| fire_view(f)) == fs
            },
    {
        let now = local_now();
        self.tick_at(now)
    }
}

} // verus!

verus! {

/// A recurring job that fired at some time does not fire again at a time
/// of the same minute.
pub proof fn law_fires_once_per_minute(
    js: Seq<JobView>,
    ms: Seq<(Seq<char>, Seq<char>)>,
    j: JobView,
    now: LocalTime,
    later: LocalTime,
)
    requires
        forall|a: int, b: int| 0 <= a < b < ms.len() ==> ms[a].0 != ms[b].0,
        marker_of(now) == marker_of(later),
        j.recurring,
        tick_job(js, ms, j, now).2 is Some,
    ensures
        tick_job(tick_job(js, ms, j, now).0, tick_job(js, ms, j, now).1, j, later).2 is None,
{
    let m = marker_of(now);
    let ms2 = with_marker(ms, j.id, m);
    if exists|i: int| 0 <= i < ms.len() && (#[trigger] ms[i]).0 == j.id {
        let i = choose|i: int| 0 <= i < ms.len() && (#[trigger] ms[i]).0 == j.id;
        assert(ms2[i].0 == j.id);
        let c = choose|c: int| 0 <= c < ms2.len() && (#[trigger] ms2[c]).0 == j.id;
        if c != i {
            assert(ms[c].0 == ms2[c].0);
        }
        assert(marker_for(ms2, j.id) == Some(m));
    } else {
        assert(ms2[ms.len() as int].0 == j.id);
        let c = choose|c: int| 0 <= c < ms2.len() && (#[trigger] ms2[c]).0 == j.id;
        if c < ms.len() {
            assert(ms[c].0 == ms2[c].0);
        }
        assert(marker_for(ms2, j.id) == Some(m));
    }
}

} // verus!

verus! {

/// Some job of the list has id `x`.
pub open spec fn has_id(js: Seq<JobView>, x: Seq<char>) -> bool {
    exists|i: int| 0 <= i < js.len() && (#[trigger] js[i]).id == x
}

/// Job ids occur once in the list.
pub open spec fn distinct_ids(js: Seq<JobView>) -> bool {
    forall|a: int, b: int| 0 <= a < b < js.len() ==> js[a].id != js[b].id
}

/// Marker ids occur once in the list.
pub open spec fn distinct_marks(ms: Seq<(Seq<char>, Seq<char>)>) -> bool {
    forall|a: int, b: int| 0 <= a < b < ms.len() ==> ms[a].0 != ms[b].0
}

/// Some fire of the list is of job `x`.
pub open spec fn fired_id(fs: Seq<FireView>, x: Seq<char>) -> bool {
    exists|i: int| 0 <= i < fs.len() && (#[trigger] fs[i]).job_id == x
}

/// Setting the marker of `id` changes the marker of `id` only.
proof fn lemma_with_marker(ms: Seq<(Seq<char>, Seq<char>)>, id: Seq<char>, m: Seq<char>, x: Seq<char>)
    requires
        distinct_marks(ms),
    ensures
        distinct_marks(with_marker(ms, id, m)),
        marker_for(with_marker(ms, id, m), x) == if x == id {
            Some(m)
        } else {
            marker_for(ms, x)
        },
{
    let ms2 = with_marker(ms, id, m);
    if exists|i: int| 0 <= i < ms.len() && (#[trigger] ms[i]).0 == id {
        let c = choose|i: int| 0 <= i < ms.len() && (#[trigger] ms[i]).0 == id;
        assert(ms2 == ms.update(c, (id, m)));
        assert forall|a: int| 0 <= a < ms2.len() implies (#[trigger] ms2[a]).0 == ms[a].0 by {}
        if x == id {
            assert(ms2[c].0 == id);
            let c2 = choose|i: int| 0 <= i < ms2.len() && (#[trigger] ms2[i]).0 == x;
            if c2 != c {
                assert(ms[c2].0 == ms[c].0);
            }
        } else {
            if exists|i: int| 0 <= i < ms.len() && (#[trigger] ms[i]).0 == x {
                let k = choose|i: int| 0 <= i < ms.len() && (#[trigger] ms[i]).0 == x;
                assert(ms2[k].0 == x);
                let k2 = choose|i: int| 0 <= i < ms2.len() && (#[trigger] ms2[i]).0 == x;
                if k2 != k {
                    assert(ms[k2].0 == ms[k].0);
                }
            } else {
                if exists|i: int| 0 <= i < ms2.len() && (#[trigger] ms2[i]).0 == x {
                    let k2 = choose|i: int| 0 <= i < ms2.len() && (#[trigger] ms2[i]).0 == x;
                    assert(ms[k2].0 == x);
                }
            }
        }
    } else {
        assert(ms2 == ms.push((id, m)));
        let n = ms.len() as int;
        assert forall|a: int, b: int| 0 <= a < b < ms2.len() implies ms2[a].0 != ms2[b].0 by {
            if b == n {
                assert(ms[a].0 != id);
            } else {
                assert(ms2[a] == ms[a] && ms2[b] == ms[b]);
            }
        }
        if x == id {
            assert(ms2[n].0 == id);
            let c2 = choose|i: int| 0 <= i < ms2.len() && (#[trigger] ms2[i]).0 == x;
            if c2 != n {
                assert(ms[c2].0 == id);
            }
        } else {
            if exists|i: int| 0 <= i < ms.len() && (#[trigger] ms[i]).0 == x {
                let k = choose|i: int| 0 <= i < ms.len() && (#[trigger] ms[i]).0 == x;
                assert(ms2[k].0 == x);
                let k2 = choose|i: int| 0 <= i < ms2.len() && (#[trigger] ms2[i]).0 == x;
                if k2 != k {
                    assert(ms2[k2] == ms[k2]);
                }
            } else {
                if exists|i: int| 0 <= i < ms2.len() && (#[trigger] ms2[i]).0 == x {
                    let k2 = choose|i: int| 0 <= i < ms2.len() && (#[trigger] ms2[i]).0 == x;
                    assert(ms2[k2] == ms[k2]);
                }
            }
        }
    }
}

/// Dropping the marker of `id` changes the marker of `id` only.
proof fn lemma_drop_marker(ms: Seq<(Seq<char>, Seq<char>)>, id: Seq<char>, x: Seq<char>)
    requires
        distinct_marks(ms),
    ensures
        distinct_marks(ms.filter(|m: (Seq<char>, Seq<char>)| m.0 != id)),
        marker_for(ms.filter(|m: (Seq<char>, Seq<char>)| m.0 != id), x) == if x == id {
            None
        } else {
            marker_for(ms, x)
        },
{
    broadcast use vstd::seq_lib::group_filter_ensures;
    let p = |m: (Seq<char>, Seq<char>)| m.0 != id;
    let f = ms.filter(p);
    assert forall|a: int, b: int| 0 <= a < b < f.len() implies f[a].0 != f[b].0 by {
        lemma_filter_keeps_distinct_pairs(ms, p, a, b);
    }
    if exists|j: int| 0 <= j < f.len() && (#[trigger] f[j]).0 == x {
        let j = choose|j: int| 0 <= j < f.len() && (#[trigger] f[j]).0 == x;
        assert(p(f[j]));
        assert(f.contains(f[j]));
        ms.lemma_filter_contains_rev(p, f[j]);
        let i = choose|i: int| 0 <= i < ms.len() && ms[i] == f[j];
        assert(ms[i].0 == x);
        let c = choose|i: int| 0 <= i < ms.len() && (#[trigger] ms[i]).0 == x;
        if c != i {
            assert(ms[c].0 == ms[i].0);
        }
    } else {
        if x != id {
            if exists|i: int| 0 <= i < ms.len() && (#[trigger] ms[i]).0 == x {
                let i = choose|i: int| 0 <= i < ms.len() && (#[trigger] ms[i]).0 == x;
                assert(p(ms[i]));
                ms.lemma_filter_contains(p, i);
                assert(f.contains(ms[i]));
                let j = choose|j: int| 0 <= j < f.len() && f[j] == ms[i];
                assert(f[j].0 == x);
            }
        }
    }
}

/// Dropping the jobs of id `y` leaves every other id as present as it was.
proof fn lemma_drop_job(js: Seq<JobView>, y: Seq<char>, x: Seq<char>)
    requires
        distinct_ids(js),
    ensures
        distinct_ids(js.filter(|j: JobView| j.id != y)),
        has_id(js.filter(|j: JobView| j.id != y), x) == (has_id(js, x) && x != y),
{
    broadcast use vstd::seq_lib::group_filter_ensures;
    let p = |j: JobView| j.id != y;
    let f = js.filter(p);
    assert forall|a: int, b: int| 0 <= a < b < f.len() implies f[a].id != f[b].id by {
        lemma_filter_keeps_distinct(js.map_values(|j: JobView| j.id), js, p, a, b);
    }
    if has_id(f, x) {
        let j = choose|j: int| 0 <= j < f.len() && (#[trigger] f[j]).id == x;
        assert(p(f[j]));
        assert(f.contains(f[j]));
        js.lemma_filter_contains_rev(p, f[j]);
        let i = choose|i: int| 0 <= i < js.len() && js[i] == f[j];
        assert(js[i].id == x);
    }
    if has_id(js, x) && x != y {
        let i = choose|i: int| 0 <= i < js.len() && (#[trigger] js[i]).id == x;
        js.lemma_filter_contains(p, i);
        let j = choose|j: int| 0 <= j < f.len() && f[j] == js[i];
        assert(f[j].id == x);
    }
}

/// One job considered: it touches the marker and the presence of its own id
/// only; when it fires, it is then marked for this minute if recurring, or
/// gone if not; a job already marked for this minute does not fire.
proof fn lemma_tick_job(js: Seq<JobView>, ms: Seq<(Seq<char>, Seq<char>)>, j: JobView, now: LocalTime, x: Seq<char>)
    requires
        distinct_marks(ms),
        distinct_ids(js),
    ensures
        distinct_marks(tick_job(js, ms, j, now).1),
        distinct_ids(tick_job(js, ms, j, now).0),
        x != j.id ==> marker_for(tick_job(js, ms, j, now).1, x) == marker_for(ms, x) && has_id(
            tick_job(js, ms, j, now).0,
            x,
        ) == has_id(js, x),
        tick_job(js, ms, j, now).2 matches Some(f) ==> f.job_id == j.id && (j.recurring ==> marker_for(
            tick_job(js, ms, j, now).1,
            j.id,
        ) == Some(marker_of(now))) && (!j.recurring ==> !has_id(tick_job(js, ms, j, now).0, j.id)),
        marker_for(ms, j.id) == Some(marker_of(now)) ==> tick_job(js, ms, j, now).2 is None,
{
    let m = marker_of(now);
    let ms2 = with_marker(ms, j.id, m);
    lemma_with_marker(ms, j.id, m, x);
    lemma_with_marker(ms, j.id, m, j.id);
    if !j.recurring {
        lemma_drop_marker(ms2, j.id, x);
        lemma_drop_job(js, j.id, x);
        lemma_drop_job(js, j.id, j.id);
    }
}

/// Considering the first `k` jobs of a list with distinct ids: markers and
/// presence change only for their ids, and every job that fired is then
/// marked for this minute or gone.
proof fn lemma_tick_jobs(snap: Seq<JobView>, k: nat, js: Seq<JobView>, ms: Seq<(Seq<char>, Seq<char>)>, now: LocalTime)
    requires
        k <= snap.len(),
        distinct_ids(snap),
        distinct_ids(js),
        distinct_marks(ms),
    ensures
        distinct_marks(tick_jobs(snap, k, js, ms, now).1),
        distinct_ids(tick_jobs(snap, k, js, ms, now).0),
        forall|x: Seq<char>|
            #![trigger marker_for(tick_jobs(snap, k, js, ms, now).1, x)]
            #![trigger has_id(tick_jobs(snap, k, js, ms, now).0, x)]
            (forall|t: int| 0 <= t < k ==> (#[trigger] snap[t]).id != x) ==> marker_for(
                tick_jobs(snap, k, js, ms, now).1,
                x,
            ) == marker_for(ms, x) && has_id(tick_jobs(snap, k, js, ms, now).0, x) == has_id(js, x),
        forall|i: int|
            0 <= i < tick_jobs(snap, k, js, ms, now).2.len() ==> (exists|t: int|
                0 <= t < k && (#[trigger] snap[t]).id == (#[trigger] tick_jobs(snap, k, js, ms, now).2[i]).job_id)
                && (marker_for(tick_jobs(snap, k, js, ms, now).1, tick_jobs(snap, k, js, ms, now).2[i].job_id)
                == Some(marker_of(now)) || !has_id(
                tick_jobs(snap, k, js, ms, now).0,
                tick_jobs(snap, k, js, ms, now).2[i].job_id,
            )),
    decreases k,
{
    if k > 0 {
        let k1 = (k - 1) as nat;
        lemma_tick_jobs(snap, k1, js, ms, now);
        let (a, b, fs) = tick_jobs(snap, k1, js, ms, now);
        let j = snap[k - 1];
        let (a2, b2, f) = tick_job(a, b, j, now);
        let fs2 = tick_jobs(snap, k, js, ms, now).2;
        assert(tick_jobs(snap, k, js, ms, now) == (a2, b2, fs2));
        lemma_tick_job(a, b, j, now, j.id);
        assert forall|x: Seq<char>| (forall|t: int| 0 <= t < k ==> (#[trigger] snap[t]).id != x) implies marker_for(b2, x)
            == marker_for(ms, x) && has_id(a2, x) == has_id(js, x) by {
            assert(snap[k - 1].id != x);
            assert forall|t: int| 0 <= t < k1 implies (#[trigger] snap[t]).id != x by {}
            lemma_tick_job(a, b, j, now, x);
        }
        assert forall|i: int| 0 <= i < fs2.len() implies (exists|t: int|
            0 <= t < k && (#[trigger] snap[t]).id == (#[trigger] fs2[i]).job_id) && (marker_for(b2, fs2[i].job_id)
            == Some(marker_of(now)) || !has_id(a2, fs2[i].job_id)) by {
            if i < fs.len() {
                assert(fs2[i] == fs[i]);
                let t = choose|t: int| 0 <= t < k1 && (#[trigger] snap[t]).id == fs[i].job_id;
                assert(snap[t].id != snap[k - 1].id);
                lemma_tick_job(a, b, j, now, fs[i].job_id);
            } else {
                assert(f is Some && fs2[i] == f->0);
                assert(snap[k - 1].id == fs2[i].job_id);
            }
        }
    }
}

/// A second tick in the same minute, over jobs with distinct ids whose
/// already-fired ones are all marked for this minute, fires none of those.
proof fn lemma_second_tick(snap: Seq<JobView>, k: nat, js: Seq<JobView>, ms: Seq<(Seq<char>, Seq<char>)>, now: LocalTime, first: Seq<FireView>)
    requires
        k <= snap.len(),
        distinct_ids(snap),
        distinct_ids(js),
        distinct_marks(ms),
        forall|p: int| 0 <= p < snap.len() && fired_id(first, (#[trigger] snap[p]).id) ==> marker_for(ms, snap[p].id)
            == Some(marker_of(now)),
    ensures
        forall|i: int| 0 <= i < tick_jobs(snap, k, js, ms, now).2.len() ==> !fired_id(first, (#[trigger] tick_jobs(snap, k, js, ms, now).2[i]).job_id),
    decreases k,
{
    if k > 0 {
        let k1 = (k - 1) as nat;
        lemma_second_tick(snap, k1, js, ms, now, first);
        lemma_tick_jobs(snap, k1, js, ms, now);
        let (a, b, fs) = tick_jobs(snap, k1, js, ms, now);
        let j = snap[k - 1];
        let (a2, b2, f) = tick_job(a, b, j, now);
        let fs2 = tick_jobs(snap, k, js, ms, now).2;
        lemma_tick_job(a, b, j, now, j.id);
        if fired_id(first, j.id) {
            assert forall|t: int| 0 <= t < k1 implies (#[trigger] snap[t]).id != j.id by {}
            assert(marker_for(b, j.id) == marker_for(ms, j.id));
            assert(f is None);
        }
        assert forall|i: int| 0 <= i < fs2.len() implies !fired_id(first, (#[trigger] fs2[i]).job_id) by {
            if i < fs.len() {
                assert(fs2[i] == fs[i]);
            }
        }
    }
}

/// A job is due at `now`: its expression matches and it has not fired in
/// this minute.
pub open spec fn due(j: JobView, ms: Seq<(Seq<char>, Seq<char>)>, now: LocalTime) -> bool {
    spec_cron_matches(j.expr, now.year, now.month, now.day, now.hour, now.minute, now.second) && marker_for(ms, j.id)
        != Some(marker_of(now))
}

/// The fire of job `j`.
pub open spec fn fire_of(j: JobView) -> FireView {
    FireView { job_id: j.id, title: j.title, session_id: j.session_id, prompt: j.prompt }
}

/// A job fired and left: it was due and is one-off.
pub open spec fn leaves(snap: Seq<JobView>, k: int, ms: Seq<(Seq<char>, Seq<char>)>, now: LocalTime, x: Seq<char>) -> bool {
    exists|t: int| 0 <= t < k && (#[trigger] snap[t]).id == x && due(snap[t], ms, now) && !snap[t].recurring
}

/// The first `k` jobs considered: the fires are those of the due jobs among
/// them, in order, and a job is gone exactly when it fired and is one-off.
proof fn lemma_tick_jobs_due(snap: Seq<JobView>, k: nat, js: Seq<JobView>, ms: Seq<(Seq<char>, Seq<char>)>, now: LocalTime)
    requires
        k <= snap.len(),
        distinct_ids(snap),
        distinct_ids(js),
        distinct_marks(ms),
    ensures
        tick_jobs(snap, k, js, ms, now).2 == snap.take(k as int).filter(|j: JobView| due(j, ms, now)).map_values(
            |j: JobView| fire_of(j),
        ),
        forall|x: Seq<char>|
            #[trigger] has_id(tick_jobs(snap, k, js, ms, now).0, x) == (has_id(js, x) && !leaves(snap, k as int, ms, now, x)),
    decreases k,
{
    let p = |j: JobView| due(j, ms, now);
    if k == 0 {
        assert(snap.take(0).filter(p) =~= Seq::<JobView>::empty()) by {
            reveal(Seq::filter);
        }
        assert(tick_jobs(snap, k, js, ms, now).2 =~= snap.take(0).filter(p).map_values(|j: JobView| fire_of(j)));
    } else {
        let k1 = (k - 1) as nat;
        lemma_tick_jobs_due(snap, k1, js, ms, now);
        lemma_tick_jobs(snap, k1, js, ms, now);
        let (a, b, fs) = tick_jobs(snap, k1, js, ms, now);
        let j = snap[k - 1];
        let (a2, b2, f) = tick_job(a, b, j, now);
        assert forall|t: int| 0 <= t < k1 implies (#[trigger] snap[t]).id != j.id by {}
        assert(marker_for(b, j.id) == marker_for(ms, j.id));
        assert(f is Some <==> due(j, ms, now));
        assert(snap.take(k as int).drop_last() =~= snap.take(k1 as int));
        assert(snap.take(k as int).filter(p) == if p(j) {
            snap.take(k1 as int).filter(p).push(j)
        } else {
            snap.take(k1 as int).filter(p)
        }) by {
            reveal(Seq::filter);
        }
        let fs2 = tick_jobs(snap, k, js, ms, now).2;
        if p(j) {
            assert(fs2 =~= snap.take(k as int).filter(p).map_values(|j: JobView| fire_of(j)));
        } else {
            assert(fs2 =~= snap.take(k as int).filter(p).map_values(|j: JobView| fire_of(j)));
        }
        assert forall|x: Seq<char>| #[trigger] has_id(a2, x) == (has_id(js, x) && !leaves(snap, k as int, ms, now, x)) by {
            lemma_tick_job(a, b, j, now, x);
            if x != j.id {
                if leaves(snap, k as int, ms, now, x) {
                    let t = choose|t: int| 0 <= t < k && (#[trigger] snap[t]).id == x && due(snap[t], ms, now) && !snap[t].recurring;
                    assert(leaves(snap, k1 as int, ms, now, x));
                }
            } else {
                assert(!leaves(snap, k1 as int, ms, now, x));
                assert(!(forall|t: int| 0 <= t < k1 ==> (#[trigger] snap[t]).id != x) || has_id(a, x) == has_id(js, x));
                if due(j, ms, now) && !j.recurring {
                    assert(leaves(snap, k as int, ms, now, x));
                } else {
                    assert(a2 == a);
                    if leaves(snap, k as int, ms, now, x) {
                        let t = choose|t: int| 0 <= t < k && (#[trigger] snap[t]).id == x && due(snap[t], ms, now) && !snap[t].recurring;
                        assert(t != k - 1);
                        assert(leaves(snap, k1 as int, ms, now, x));
                    }
                }
            }
        }
    }
}

/// A whole tick at `now` over jobs with distinct ids: exactly the due jobs
/// fire, once each, in list order; a one-off job that fired is removed, and
/// every other job stays.
pub proof fn law_tick_fires_due_jobs(js: Seq<JobView>, ms: Seq<(Seq<char>, Seq<char>)>, now: LocalTime)
    requires
        distinct_ids(js),
        distinct_marks(ms),
    ensures
        tick_jobs(js, js.len(), js, ms, now).2 == js.filter(|j: JobView| due(j, ms, now)).map_values(|j: JobView| fire_of(j)),
        forall|x: Seq<char>|
            #[trigger] has_id(tick_jobs(js, js.len(), js, ms, now).0, x) == (has_id(js, x) && !(exists|t: int|
                0 <= t < js.len() && (#[trigger] js[t]).id == x && due(js[t], ms, now) && !js[t].recurring)),
{
    lemma_tick_jobs_due(js, js.len(), js, ms, now);
    assert(js.take(js.len() as int) =~= js);
}

/// No job fires twice in one minute: after a whole tick, a second tick at a
/// time of the same minute fires none of the jobs that the first fired
/// (recurring ones are marked for the minute, one-off ones are gone).
pub proof fn law_no_job_fires_twice_in_a_minute(
    js: Seq<JobView>,
    ms: Seq<(Seq<char>, Seq<char>)>,
    now: LocalTime,
    later: LocalTime,
)
    requires
        distinct_ids(js),
        distinct_marks(ms),
        marker_of(now) == marker_of(later),
    ensures
        ({
            let first = tick_jobs(js, js.len(), js, ms, now);
            let second = tick_jobs(first.0, first.0.len(), first.0, first.1, later);
            forall|i: int| 0 <= i < second.2.len() ==> !fired_id(first.2, (#[trigger] second.2[i]).job_id)
        }),
{
    lemma_tick_jobs(js, js.len(), js, ms, now);
    let first = tick_jobs(js, js.len(), js, ms, now);
    let (a, b, fs) = first;
    assert forall|p: int| 0 <= p < a.len() && fired_id(fs, (#[trigger] a[p]).id) implies marker_for(b, a[p].id)
        == Some(marker_of(later)) by {
        let i = choose|i: int| 0 <= i < fs.len() && (#[trigger] fs[i]).job_id == a[p].id;
        assert(has_id(a, a[p].id));
    }
    lemma_second_tick(a, a.len(), a, b, later, fs);
}

/// The line of a job in `cron_list`.
pub open spec fn job_line(j: JobView) -> Seq<char> {
    j.id + " ["@ + j.expr + "] "@ + j.prompt + " (recurring="@ + (if j.recurring {
        "true"@
    } else {
        "false"@
    }) + ")"@
}

/// What `cron_list` answers.
pub fn cron_list_text(jobs: &Vec<CronJob>) -> (r: String)
    ensures
        jobs@.len() == 0 ==> r@ == "(无定时任务)"@,
        jobs@.len() > 0 ==> r@ == crate::text::join(jobs_view(jobs@).map_values(|j: JobView| job_line(j)), "\n"@),
{
    if jobs.len() == 0 {
        return owned("(无定时任务)");
    }
    let ghost jv = jobs_view(jobs@);
    let mut lines: Vec<String> = Vec::new();
    let mut i: usize = 0;
    while i < jobs.len()
        invariant
            i <= jobs@.len(),
            jv == jobs_view(jobs@),
            crate::text::views(lines@) == jv.take(i as int).map_values(|j: JobView| job_line(j)),
        decreases jobs@.len() - i,
    {
        let j = &jobs[i];
        let mut l = owned(j.id.as_str());
        append(&mut l, " [");
        append(&mut l, j.expr.as_str());
        append(&mut l, "] ");
        append(&mut l, j.prompt.as_str());
        append(&mut l, " (recurring=");
        if j.recurring {
            append(&mut l, "true");
        } else {
            append(&mut l, "false");
        }
        append(&mut l, ")");
        let ghost prev = lines@;
        lines.push(l);
        assert(crate::text::views(lines@) =~= crate::text::views(prev).push(job_line(jv[i as int])));
        assert(crate::text::views(lines@) =~= jv.take(i + 1).map_values(|j: JobView| job_line(j)));
        i += 1;
    }
    assert(jv.take(jobs@.len() as int) =~= jv);
    crate::text::join_strings(&lines, "\n")
}

/// A new job of `cron_schedule`: id `cron-` and 32 random characters, its
/// title from the prompt, for the calling session.
pub fn new_job(expr: &str, prompt: &str, recurring: bool, durable: bool, session_id: &str) -> (r: CronJob)
    ensures
        crate::text::seq_starts_with(r.id@, "cron-"@),
        r.id@.len() == 37,
        r.title@ == cron_title_of(prompt@),
        r.expr@ == expr@,
        r.prompt@ == prompt@,
        r.recurring == recurring,
        r.durable == durable,
        r.session_id@ == session_id@,
{
    let mut id = owned("cron-");
    let h = crate::ids::random_hex_id();
    append(&mut id, h.as_str());
    proof {
        reveal_strlit("cron-");
        assert(id@.subrange(0, 5) =~= "cron-"@);
    }
    CronJob {
        id,
        title: cron_title(prompt),
        expr: owned(expr),
        prompt: owned(prompt),
        recurring,
        durable,
        session_id: owned(session_id),
    }
}

/// What `cron_schedule` answers.
pub fn scheduled_text(id: &str, expr: &str, prompt: &str) -> (r: String)
    ensures
        r@ == "已创建定时任务 "@ + id@ + ": ["@ + expr@ + "] "@ + prompt@,
{
    let mut s = owned("已创建定时任务 ");
    append(&mut s, id);
    append(&mut s, ": [");
    append(&mut s, expr);
    append(&mut s, "] ");
    append(&mut s, prompt);
    s
}

/// The prompt a fired job puts into its session.
pub fn scheduled_prompt(prompt: &str) -> (r: String)
    ensures
        r@ == "[Scheduled] "@ + prompt@,
{
    let mut s = owned("[Scheduled] ");
    append(&mut s, prompt);
    s
}

/// The longest a fire waits for its session to be idle, in seconds.
pub const DELIVERY_MAX_WAIT_SECS: u64 = 300;

/// The pause between two looks at a busy session, in seconds.
pub const DELIVERY_POLL_SECS: u64 = 2;

/// What to do with a fire whose session may be busy.
#[derive(Debug, Clone, Copy, PartialEq, Eq, Structural)]
pub enum Delivery {
    /// The session is idle: run the prompt now.
    Deliver,
    /// Look again after `DELIVERY_POLL_SECS`.
    Wait,
    /// Waited too long: drop the fire.
    GiveUp,
}

/// The next step of delivering a fire after `waited_secs` of waiting: an idle
/// session gets it at once; a busy one is waited for up to
/// `DELIVERY_MAX_WAIT_SECS`, then the fire is dropped.
pub fn delivery_step(busy: bool, waited_secs: u64) -> (r: Delivery)
    ensures
        !busy ==> r == Delivery::Deliver,
        busy && waited_secs > DELIVERY_MAX_WAIT_SECS ==> r == Delivery::GiveUp,
        busy && waited_secs <= DELIVERY_MAX_WAIT_SECS ==> r == Delivery::Wait,
{
    if !busy {
        Delivery::Deliver
    } else if waited_secs > DELIVERY_MAX_WAIT_SECS {
        Delivery::GiveUp
    } else {
        Delivery::Wait
    }
}

/// The notice shown when a job fires.
pub fn fired_notice(prompt: &str) -> (r: String)
    ensures
        r@ == "定时任务触发: "@ + prompt@,
{
    let mut s = owned("定时任务触发: ");
    append(&mut s, prompt);
    s
}

} // verus!
