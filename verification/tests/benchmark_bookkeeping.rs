use edna_server::bench::{
    account_form, anon_edit_form, login_form, restore_form,
    answer_field, answer_row_sql, answers_form, any_contains, bench_user_count,
    expected_answers_after_delete, expected_users_after_restore, lecture_row_sql, micros_line,
    new_answer, numbered, question_row_sql, stats_file_name, user_answers_sql, user_email,
    user_file_name, APIKEY_FILE, DID_FILE, NITERS, SHARE_FILE,
};
use edna_server::form::form_body;

#[test]
fn constants() {
    assert_eq!(NITERS, 200);
    assert_eq!(APIKEY_FILE, "apikey.txt");
    assert_eq!(SHARE_FILE, "share.txt");
    assert_eq!(DID_FILE, "dids.txt");
}

#[test]
fn user_count_is_capped() {
    assert_eq!(bench_user_count(0), 0);
    assert_eq!(bench_user_count(150), 150);
    assert_eq!(bench_user_count(200), 200);
    assert_eq!(bench_user_count(1000), 200);
}

#[test]
fn emails_and_files() {
    assert_eq!(user_email(0), "0@mail.edu");
    assert_eq!(user_email(42), "42@mail.edu");
    assert_eq!(user_file_name("42@mail.edu", APIKEY_FILE), "42@mail.edu.apikey.txt");
    assert_eq!(user_file_name("3@mail.edu", DID_FILE), "3@mail.edu.dids.txt");
}

#[test]
fn emails_are_distinct() {
    let emails: Vec<String> = (0..500).map(user_email).collect();
    let mut sorted = emails.clone();
    sorted.sort();
    sorted.dedup();
    assert_eq!(sorted.len(), 500);
}

#[test]
fn priming_statements() {
    assert_eq!(lecture_row_sql(2), "INSERT INTO lectures VALUES (2, 'lec2');");
    assert_eq!(
        question_row_sql(2, 11),
        "INSERT INTO questions VALUES (2, 11, 'lec2question11');"
    );
    assert_eq!(
        answer_row_sql(7, 2, 11),
        "INSERT INTO answers VALUES ('7@mail.edu', 2, 11, 'lec2q11answer7', '1000-01-01 00:00:00');"
    );
}

#[test]
fn answer_row_carries_email() {
    let row = answer_row_sql(13, 0, 1);
    let email = user_email(13);
    let start = "INSERT INTO answers VALUES ('".len();
    assert_eq!(&row[start..start + email.len()], email);
}

#[test]
fn per_user_answer_query() {
    assert_eq!(
        user_answers_sql(3, "5@mail.edu"),
        "SELECT answers.* FROM answers WHERE lec = 3 AND email = '5@mail.edu';"
    );
}

#[test]
fn paths_and_answers() {
    assert_eq!(numbered("/questions/", 0), "/questions/0");
    assert_eq!(numbered("/answers/", 12), "/answers/12");
    assert_eq!(answer_field(0), "answers.0");
    assert_eq!(new_answer(4, 0), "new_answer_user_4_lec_0");
    assert_eq!(answers_form(4, 0), "answers.0=new_answer_user_4_lec_0");
}

#[test]
fn form_bodies() {
    let pairs = vec![("email".to_string(), "0@mail.edu".to_string())];
    assert_eq!(form_body(&pairs), "email=0%40mail.edu");
    let pairs = vec![
        ("email".to_string(), "0@mail.edu".to_string()),
        ("key".to_string(), "a b&c".to_string()),
    ];
    assert_eq!(form_body(&pairs), "email=0%40mail.edu&key=a+b%26c");
    assert_eq!(form_body(&vec![]), "");
    let pairs = vec![("lec_id".to_string(), "0".to_string())];
    assert_eq!(form_body(&pairs), "lec_id=0");
}

#[test]
fn expected_row_counts() {
    assert_eq!(expected_answers_after_delete(2, 3, 10), 0);
    assert_eq!(expected_answers_after_delete(2, 3, 250), 300);
    assert_eq!(expected_answers_after_delete(0, 3, 250), 0);
    assert_eq!(expected_users_after_restore(10, 2), 31);
    assert_eq!(expected_users_after_restore(0, 5), 1);
}

#[test]
fn finds_new_answers() {
    let rows = vec!["lec0q0answer1".to_string(), "new_answer_user_1_lec_0".to_string()];
    assert!(any_contains(&rows, "new_answer"));
    let rows = vec!["lec0q0answer1".to_string(), "lec0q0answer2".to_string()];
    assert!(!any_contains(&rows, "new_answer"));
    assert!(!any_contains(&vec![], "new_answer"));
}

#[test]
fn stats_file_names() {
    assert_eq!(
        stats_file_name(20, 100, false, false, true),
        "../../../results/websubmit_results/disguise_stats_20lec_100users_baseline.csv"
    );
    assert_eq!(
        stats_file_name(20, 100, true, true, true),
        "../../../results/websubmit_results/disguise_stats_20lec_100users_baseline_proxy.csv"
    );
    assert_eq!(
        stats_file_name(1, 2, false, true, false),
        "../../../results/websubmit_results/disguise_stats_1lec_2users_dryrun.csv"
    );
    assert_eq!(
        stats_file_name(1, 2, true, false, false),
        "../../../results/websubmit_results/disguise_stats_1lec_2users_proxy.csv"
    );
}

#[test]
fn stats_lines() {
    assert_eq!(micros_line(&vec![15, 0, 123456]), "15,0,123456");
    assert_eq!(micros_line(&vec![]), "");
    assert_eq!(micros_line(&vec![u128::MAX]), u128::MAX.to_string());
}

#[test]
fn request_forms() {
    assert_eq!(account_form("1@mail.edu"), "email=1%40mail.edu");
    assert_eq!(login_form("1@mail.edu", "abc123"), "email=1%40mail.edu&key=abc123");
    assert_eq!(
        restore_form("d1", "1@mail.edu", "k"),
        "did=d1&email=1%40mail.edu&apikey=k"
    );
    assert_eq!(
        anon_edit_form("1@mail.edu", "k", 0),
        "email=1%40mail.edu&apikey=k&lec_id=0"
    );
    assert_eq!(
        anon_edit_form("1@mail.edu", "k", 12),
        "email=1%40mail.edu&apikey=k&lec_id=12"
    );
}

#[test]
fn stats_lines_split_back() {
    for ns in [vec![7u128], vec![0, 10, 123456789], vec![u128::MAX, 1]] {
        let line = micros_line(&ns);
        assert!(!line.is_empty());
        let back: Vec<u128> = line.split(',').map(|f| f.parse().unwrap()).collect();
        assert_eq!(back, ns);
    }
    assert!(micros_line(&vec![]).is_empty());
}

#[test]
fn form_bodies_of_ascii() {
    let pairs = vec![("a*b-c.d_e".to_string(), "~!\"#".to_string())];
    assert_eq!(form_body(&pairs), "a*b-c.d_e=%7E%21%22%23");
    let pairs = vec![("x".to_string(), "\t/\x7f".to_string())];
    assert_eq!(form_body(&pairs), "x=%09%2F%7F");
}

#[test]
fn form_bodies_beyond_ascii() {
    let pairs = vec![("cheese".to_string(), "comté".to_string())];
    assert_eq!(form_body(&pairs), "cheese=comt%C3%A9");
    let pairs = vec![("k".to_string(), "€𝄞".to_string())];
    assert_eq!(form_body(&pairs), "k=%E2%82%AC%F0%9D%84%9E");
}
