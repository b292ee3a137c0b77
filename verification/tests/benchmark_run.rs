use edna_server::driver::{
    bench_script, bench_start, bench_step, timer_slot, BenchAction, BenchConfig, BenchEvent, Body,
    Failure, Instr, RowCheck, Timer, TIMER_SLOTS,
};

fn config(nusers: usize, nlec: usize, nqs: usize, prime: bool, is_baseline: bool) -> BenchConfig {
    BenchConfig {
        nusers,
        nlec,
        nqs,
        prime,
        is_baseline,
        proxy: false,
        dryrun: false,
        admin_email: "admin@mail.edu".to_string(),
        admin_key: "adminkey".to_string(),
    }
}

const TIMERS: [Timer; 11] = [
    Timer::Account,
    Timer::Anon,
    Timer::Leclist,
    Timer::Answers,
    Timer::Questions,
    Timer::Edit,
    Timer::Delete,
    Timer::Restore,
    Timer::EditNonanon,
    Timer::DeleteNonanon,
    Timer::RestoreNonanon,
];

fn script_records(script: &[Instr], t: Timer) -> usize {
    script.iter().filter(|i| matches!(i, Instr::Record(x) if *x == t)).count()
}

struct Outcome {
    records: Vec<usize>,
    actions: Vec<String>,
    result: Option<Failure>,
}

/// Plays a run against a site that answers every request as expected,
/// except that the status of request number `bad_status` is 500.
fn play(cfg: &BenchConfig, bad_status: Option<usize>) -> Outcome {
    let script = bench_script(cfg);
    let mut st = bench_start(cfg);
    let mut ev = None;
    let mut records = vec![0; TIMER_SLOTS];
    let mut actions = vec![];
    let mut requests = 0;
    loop {
        let (next, action) = bench_step(&script, st, ev.take());
        st = next;
        let issued = if st.pc > 0 { Some(&script[st.pc - 1]) } else { None };
        match action {
            BenchAction::Post { path, body, .. } => {
                actions.push(format!("POST {} {}", path, body.unwrap_or_default()));
                let expect = match issued {
                    Some(Instr::Post { expect, .. }) => *expect,
                    _ => panic!("a post comes from a post"),
                };
                requests += 1;
                let status = if bad_status == Some(requests) { 500 } else { expect };
                ev = Some(BenchEvent::Status(status));
            }
            BenchAction::Get { path } => {
                actions.push(format!("GET {}", path));
                let expect = match issued {
                    Some(Instr::Get { expect, .. }) => *expect,
                    _ => panic!("a get comes from a get"),
                };
                requests += 1;
                let status = if bad_status == Some(requests) { 500 } else { expect };
                ev = Some(BenchEvent::Status(status));
            }
            BenchAction::ReadFile(name) => {
                actions.push(format!("READ {}", name));
                ev = Some(BenchEvent::Text(format!("secret-of-{}", name)));
            }
            BenchAction::Query { sql, .. } => {
                actions.push(format!("QUERY {}", sql));
                let rows = match issued {
                    Some(Instr::Query { check, .. }) => match check {
                        RowCheck::Any => vec![],
                        RowCheck::Count(n) => vec![String::new(); *n],
                        RowCheck::SomeContains(p) => vec![p.clone()],
                        RowCheck::CountAndContains(n, p) => vec![p.clone(); *n],
                    },
                    _ => panic!("a query comes from a query"),
                };
                ev = Some(BenchEvent::Rows(rows));
            }
            BenchAction::Record(t) => records[timer_slot(t)] += 1,
            BenchAction::Sql(s) => actions.push(format!("SQL {}", s)),
            BenchAction::WriteStats { file, .. } => actions.push(format!("STATS {}", file)),
            BenchAction::ResetDatabase => actions.push("RESET".to_string()),
            BenchAction::StartClock => {}
            BenchAction::Fail(f) => return Outcome { records, actions, result: Some(f) },
            BenchAction::Done => return Outcome { records, actions, result: None },
        }
    }
}

#[test]
fn timer_slots_are_distinct() {
    let mut slots: Vec<usize> = TIMERS.iter().map(|t| timer_slot(*t)).collect();
    slots.sort();
    assert_eq!(slots, (0..TIMER_SLOTS).collect::<Vec<_>>());
}

#[test]
fn full_run_timer_counts() {
    let cfg = config(3, 2, 2, true, false);
    let script = bench_script(&cfg);
    let expected = [3, 1, 200, 200, 3, 3, 3, 3, 3, 3, 3];
    for (t, n) in TIMERS.iter().zip(expected) {
        assert_eq!(script_records(&script, *t), n, "{:?}", t);
    }
    let out = play(&cfg, None);
    assert!(out.result.is_none());
    assert_eq!(out.records, expected.to_vec());
}

#[test]
fn baseline_run_timer_counts() {
    let cfg = config(3, 1, 1, true, true);
    let expected = [6, 1, 200, 200, 3, 3, 3, 0, 0, 0, 0];
    let script = bench_script(&cfg);
    for (t, n) in TIMERS.iter().zip(expected) {
        assert_eq!(script_records(&script, *t), n, "{:?}", t);
    }
    let out = play(&cfg, None);
    assert!(out.result.is_none());
    assert_eq!(out.records, expected.to_vec());
    assert!(out.actions.iter().any(|a| a == "RESET"));
}

#[test]
fn capped_user_count() {
    let cfg = config(205, 0, 0, false, false);
    let script = bench_script(&cfg);
    assert_eq!(script_records(&script, Timer::Account), 205);
    assert_eq!(script_records(&script, Timer::Restore), 200);
    assert_eq!(script_records(&script, Timer::EditNonanon), 200);
}

#[test]
fn run_uses_keys_and_ids_read() {
    let cfg = config(1, 1, 1, false, false);
    let out = play(&cfg, None);
    let a = &out.actions;
    assert_eq!(a[0], "POST /apikey/generate email=admin%40mail.edu");
    assert_eq!(a[1], "POST /apikey/generate email=0%40mail.edu");
    assert_eq!(a[2], "READ 0@mail.edu.apikey.txt");
    assert_eq!(a[3], "POST /apikey/login email=admin%40mail.edu&key=adminkey");
    let key = "secret-of-0%40mail.edu.apikey.txt";
    assert!(a.contains(&format!("POST /apikey/login email=0%40mail.edu&key={}", key)));
    assert!(a.contains(&"READ 0@mail.edu.dids.txt".to_string()));
    let did = "secret-of-0%40mail.edu.dids.txt";
    assert!(a.contains(&format!("POST /restore did={}&email=0%40mail.edu&apikey={}", did, key)));
    assert!(a.contains(&format!("POST /anon/edit email=0%40mail.edu&apikey={}&lec_id=0", key)));
    assert!(a.contains(&"QUERY SELECT answers.* FROM answers WHERE lec = 0 AND email = '0@mail.edu';".to_string()));
    assert!(a.contains(&"POST /questions/0 answers.0=new_answer_user_0_lec_0".to_string()));
    assert_eq!(
        a.last().unwrap(),
        "STATS ../../../results/websubmit_results/disguise_stats_1lec_1users.csv"
    );
}

#[test]
fn priming_runs_statements() {
    let cfg = config(1, 1, 1, true, false);
    let out = play(&cfg, None);
    assert!(out.actions.contains(&"SQL INSERT INTO lectures VALUES (0, 'lec0');".to_string()));
    let cfg = config(1, 1, 1, false, false);
    let out = play(&cfg, None);
    assert!(!out.actions.iter().any(|a| a.starts_with("SQL")));
}

#[test]
fn wrong_status_stops_the_run() {
    let cfg = config(2, 1, 1, false, false);
    let out = play(&cfg, Some(1));
    assert_eq!(out.result, Some(Failure::Status { expected: 200, got: 500 }));
    let out = play(&cfg, Some(4));
    assert_eq!(out.result, Some(Failure::Status { expected: 303, got: 500 }));
}

#[test]
fn wrong_rows_stop_the_run() {
    let cfg = config(1, 1, 1, false, false);
    let script = bench_script(&cfg);
    let first_query = script.iter().position(|i| matches!(i, Instr::Query { .. })).unwrap();
    let mut st = bench_start(&cfg);
    st.pc = first_query + 1;
    let (_, action) = bench_step(&script, st, Some(BenchEvent::Rows(vec!["row".to_string()])));
    match action {
        BenchAction::Fail(f) => assert_eq!(f, Failure::RowCount { wanted: 0, found: 1 }),
        _ => panic!("one row where none was expected"),
    }
    let mut st = bench_start(&cfg);
    st.pc = first_query + 1;
    let (_, action) = bench_step(&script, st, Some(BenchEvent::Status(200)));
    assert!(matches!(action, BenchAction::Fail(Failure::UnexpectedEvent)));
}

#[test]
fn body_for_unknown_user_fails() {
    let cfg = config(0, 0, 0, false, false);
    let script = vec![Instr::Post {
        path: "/apikey/login".to_string(),
        body: Some(Body::Login(3)),
        form: true,
        expect: 303,
    }];
    let (_, action) = bench_step(&script, bench_start(&cfg), None);
    assert!(matches!(action, BenchAction::Fail(Failure::NoSuchUser)));
}

#[test]
fn baseline_without_priming_takes_any_lecture_count() {
    let cfg = config(2, usize::MAX, usize::MAX, false, true);
    let out = play(&cfg, None);
    assert!(out.result.is_none());
    assert_eq!(out.records, vec![4, 1, 200, 200, 2, 2, 2, 0, 0, 0, 0]);
}
