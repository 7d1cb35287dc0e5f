use bugs::cron::CronScheduler;

#[test]
fn cron_jobs_are_due_after_their_interval() {
    let mut c = CronScheduler::new();
    c.add("now", 0);
    c.add("hourly", 3600);
    let due = c.tick();
    assert_eq!(due, vec![0]);
    assert_eq!(c.jobs[0].name, "now");
    assert_eq!(c.jobs.len(), 2);
}
