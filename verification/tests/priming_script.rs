use edna_server::bench::{answer_row_sql, lecture_row_sql, question_row_sql};
use edna_server::prime::{priming_plan, PrimeStep};

fn sql(step: &PrimeStep) -> Option<&str> {
    match step {
        PrimeStep::Sql(s) => Some(s.as_str()),
        _ => None,
    }
}

#[test]
fn one_lecture_one_question_two_users() {
    let plan = priming_plan(1, 1, 2);
    assert_eq!(plan.len(), 8);
    assert_eq!(sql(&plan[0]), Some("INSERT INTO lectures VALUES (0, 'lec0');"));
    assert_eq!(sql(&plan[1]), Some("INSERT INTO questions VALUES (0, 0, 'lec0question0');"));
    assert!(matches!(plan[2], PrimeStep::Login(0)));
    assert_eq!(
        sql(&plan[3]),
        Some("INSERT INTO answers VALUES ('0@mail.edu', 0, 0, 'lec0q0answer0', '1000-01-01 00:00:00');")
    );
    assert!(matches!(plan[4], PrimeStep::Logout));
    assert!(matches!(plan[5], PrimeStep::Login(1)));
    assert_eq!(sql(&plan[6]), Some(answer_row_sql(1, 0, 0).as_str()));
    assert!(matches!(plan[7], PrimeStep::Logout));
}

#[test]
fn plan_length() {
    assert_eq!(priming_plan(2, 3, 4).len(), 2 * (1 + 3 * (1 + 3 * 4)));
    assert_eq!(priming_plan(0, 5, 5).len(), 0);
    assert_eq!(priming_plan(3, 0, 5).len(), 3);
    assert_eq!(priming_plan(2, 2, 0).len(), 2 * (1 + 2));
}

#[test]
fn plan_order() {
    let plan = priming_plan(2, 2, 1);
    let expected = vec![
        lecture_row_sql(0),
        question_row_sql(0, 0),
        answer_row_sql(0, 0, 0),
        question_row_sql(0, 1),
        answer_row_sql(0, 0, 1),
        lecture_row_sql(1),
        question_row_sql(1, 0),
        answer_row_sql(0, 1, 0),
        question_row_sql(1, 1),
        answer_row_sql(0, 1, 1),
    ];
    let got: Vec<String> = plan.iter().filter_map(|s| sql(s).map(|x| x.to_string())).collect();
    assert_eq!(got, expected);
}

#[test]
fn answers_posted_while_logged_in() {
    let plan = priming_plan(1, 2, 3);
    for (i, step) in plan.iter().enumerate() {
        if let Some(s) = sql(step) {
            if s.starts_with("INSERT INTO answers") {
                match (&plan[i - 1], &plan[i + 1]) {
                    (PrimeStep::Login(u), PrimeStep::Logout) => {
                        assert!(s.contains(&format!("'{}@mail.edu'", u)));
                    }
                    _ => panic!("an answer is added between a login and a logout"),
                }
            }
        }
    }
}
