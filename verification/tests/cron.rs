use laver_agent::cron::{
    cron_list_text, cron_title, minute_marker, new_job, scheduled_prompt, scheduled_text, CronJob, CronScheduler,
    LocalTime,
};

fn at(hour: u32, minute: u32, second: u32) -> LocalTime {
    LocalTime { year: 2025, month: 3, day: 7, hour, minute, second }
}

fn job(id: &str, expr: &str, recurring: bool) -> CronJob {
    CronJob {
        id: id.to_string(),
        title: "t".to_string(),
        expr: expr.to_string(),
        prompt: format!("do {id}"),
        recurring,
        durable: false,
        session_id: "s1".to_string(),
    }
}

#[test]
fn markers_and_titles() {
    assert_eq!(minute_marker(at(9, 5, 59)), "2025-03-07 09:05");
    assert_eq!(minute_marker(LocalTime { year: 12, month: 1, day: 2, hour: 3, minute: 4, second: 0 }), "0012-01-02 03:04");
    assert_eq!(cron_title("周报\n第二行"), "周报");
    assert_eq!(cron_title(""), "定时任务");
    assert_eq!(cron_title(&"长".repeat(50)), "长".repeat(40));
}

#[test]
fn invalid_expression_is_refused() {
    let mut s = CronScheduler::new();
    let e = s.add(job("a", "not a cron", true)).unwrap_err();
    assert!(e.starts_with("cron 表达式无效: "));
    assert!(s.list().is_empty());
}

#[test]
fn a_job_fires_once_per_minute() {
    let mut s = CronScheduler::new();
    s.add(job("a", "* * * * *", true)).unwrap();
    let f = s.tick_at(at(12, 0, 0));
    assert_eq!(f.len(), 1);
    assert_eq!(f[0].job_id, "a");
    assert_eq!(f[0].session_id, "s1");
    assert_eq!(f[0].prompt, "do a");
    assert!(s.tick_at(at(12, 0, 0)).is_empty());
    assert_eq!(s.tick_at(at(12, 1, 0)).len(), 1);
    assert_eq!(s.list().len(), 1);
}

#[test]
fn one_off_jobs_leave_after_firing() {
    let mut s = CronScheduler::new();
    s.add(job("once", "30 12 * * *", false)).unwrap();
    s.add(job("every", "* * * * *", true)).unwrap();
    assert_eq!(s.tick_at(at(12, 29, 0)).len(), 1);
    let f = s.tick_at(at(12, 30, 0));
    let ids: Vec<String> = f.into_iter().map(|x| x.job_id).collect();
    assert_eq!(ids, vec!["once".to_string(), "every".to_string()]);
    let left: Vec<String> = s.list().into_iter().map(|j| j.id).collect();
    assert_eq!(left, vec!["every".to_string()]);
}

#[test]
fn adding_replaces_and_removing_drops() {
    let mut s = CronScheduler::new();
    s.add(job("a", "* * * * *", true)).unwrap();
    s.add(job("b", "0 9 * * *", true)).unwrap();
    s.add(job("a", "5 * * * *", false)).unwrap();
    let jobs = s.list();
    assert_eq!(jobs.len(), 2);
    assert_eq!(jobs[0].expr, "5 * * * *");
    assert_eq!(cron_list_text(&jobs), "a [5 * * * *] do a (recurring=false)\nb [0 9 * * *] do b (recurring=true)");
    s.remove("a");
    assert_eq!(s.list().len(), 1);
    assert_eq!(cron_list_text(&vec![]), "(无定时任务)");
}

#[test]
fn new_jobs_and_texts() {
    let j = new_job("0 9 * * 1", "周报\n细节", true, true, "s2");
    assert!(j.id.starts_with("cron-"));
    assert_eq!(j.id.len(), 37);
    assert_eq!(j.title, "周报");
    assert!(j.durable);
    assert_eq!(scheduled_text("cron-x", "0 9 * * 1", "周报"), "已创建定时任务 cron-x: [0 9 * * 1] 周报");
    assert_eq!(scheduled_prompt("周报"), "[Scheduled] 周报");
}

#[test]
fn a_whole_tick_fires_each_job_once_per_minute() {
    let mut s = CronScheduler::new();
    s.add(job("once", "* * * * *", false)).unwrap();
    s.add(job("a", "* * * * *", true)).unwrap();
    s.add(job("b", "* * * * *", true)).unwrap();
    assert_eq!(s.tick_at(at(8, 15, 0)).len(), 3);
    assert!(s.tick_at(at(8, 15, 0)).is_empty());
    let ids: Vec<String> = s.tick_at(at(8, 16, 0)).into_iter().map(|x| x.job_id).collect();
    assert_eq!(ids, vec!["a".to_string(), "b".to_string()]);
}

#[test]
fn markers_pad_to_two_digits_only() {
    assert_eq!(minute_marker(LocalTime { year: 2025, month: 123, day: 7, hour: 9, minute: 5, second: 0 }), "2025-123-07 09:05");
}
