//! The benchmark run as a script of requests, statements, file reads,
//! timings and checks, and the step function that plays it: given the
//! outcome of the action it asked for last, it checks that outcome and asks
//! for the next action.
use vstd::prelude::*;
use crate::bench::{
    answer_field_text, answers_form, anon_edit_form, account_form, email_text, login_form,
    new_answer_text, restore_form, stats_file_name, stats_file_text, user_answers_sql,
    user_answers_text, user_email, user_file_name, user_file_text, some_contains, any_contains,
    expected_answers_after_delete, expected_users_after_restore, APIKEY_FILE, DID_FILE, NITERS,
};
use crate::decimal::dec_nat;
use crate::form::form_urlencoded;
use crate::prime::{lecture_steps, priming_plan, step_views, PrimeStep, PrimeStepView};
use crate::text::views;

verus! {

/// The kinds of operation whose durations the benchmark records.
#[derive(Clone, Copy, PartialEq, Eq, Structural, Debug)]
pub enum Timer {
    Account,
    Anon,
    Leclist,
    Answers,
    Questions,
    Edit,
    Delete,
    Restore,
    EditNonanon,
    DeleteNonanon,
    RestoreNonanon,
}

/// The line of the statistics file that holds a timer's durations.
pub open spec fn slot_of(t: Timer) -> nat {
    match t {
        Timer::Account => 0,
        Timer::Anon => 1,
        Timer::Leclist => 2,
        Timer::Answers => 3,
        Timer::Questions => 4,
        Timer::Edit => 5,
        Timer::Delete => 6,
        Timer::Restore => 7,
        Timer::EditNonanon => 8,
        Timer::DeleteNonanon => 9,
        Timer::RestoreNonanon => 10,
    }
}

/// The number of lines of the statistics file.
pub const TIMER_SLOTS: usize = 11;

/// The line of the statistics file that holds a timer's durations.
pub fn timer_slot(t: Timer) -> (i: usize)
    ensures
        i == slot_of(t),
        i < TIMER_SLOTS,
        t == Timer::Account ==> i == 0,
        t == Timer::Anon ==> i == 1,
        t == Timer::Leclist ==> i == 2,
        t == Timer::Answers ==> i == 3,
        t == Timer::Questions ==> i == 4,
        t == Timer::Edit ==> i == 5,
        t == Timer::Delete ==> i == 6,
        t == Timer::Restore ==> i == 7,
        t == Timer::EditNonanon ==> i == 8,
        t == Timer::DeleteNonanon ==> i == 9,
        t == Timer::RestoreNonanon ==> i == 10,
{
    match t {
        Timer::Account => 0,
        Timer::Anon => 1,
        Timer::Leclist => 2,
        Timer::Answers => 3,
        Timer::Questions => 4,
        Timer::Edit => 5,
        Timer::Delete => 6,
        Timer::Restore => 7,
        Timer::EditNonanon => 8,
        Timer::DeleteNonanon => 9,
        Timer::RestoreNonanon => 10,
    }
}

/// Different timers have different lines.
pub proof fn lemma_slots_distinct(a: Timer, b: Timer)
    requires
        slot_of(a) == slot_of(b),
    ensures
        a == b,
{
}

/// What a benchmark run is made of.
pub struct BenchConfig {
    pub nusers: usize,
    pub nlec: usize,
    pub nqs: usize,
    pub prime: bool,
    pub is_baseline: bool,
    pub proxy: bool,
    pub dryrun: bool,
    pub admin_email: String,
    pub admin_key: String,
}

/// The mathematical content of a [`BenchConfig`].
pub struct BenchConfigView {
    pub nusers: nat,
    pub nlec: nat,
    pub nqs: nat,
    pub prime: bool,
    pub is_baseline: bool,
    pub proxy: bool,
    pub dryrun: bool,
    pub admin_email: Seq<char>,
    pub admin_key: Seq<char>,
}

impl View for BenchConfig {
    type V = BenchConfigView;

    open spec fn view(&self) -> BenchConfigView {
        BenchConfigView {
            nusers: self.nusers as nat,
            nlec: self.nlec as nat,
            nqs: self.nqs as nat,
            prime: self.prime,
            is_baseline: self.is_baseline,
            proxy: self.proxy,
            dryrun: self.dryrun,
            admin_email: self.admin_email@,
            admin_key: self.admin_key@,
        }
    }
}

/// The number of users that the per-user phases go through.
pub open spec fn bench_users(cfg: BenchConfigView) -> nat {
    if cfg.nusers < NITERS { cfg.nusers } else { NITERS as nat }
}

/// The answer rows expected once the benchmarked users deleted their accounts.
pub open spec fn answers_left(cfg: BenchConfigView) -> nat {
    cfg.nlec * cfg.nqs * (cfg.nusers - bench_users(cfg)) as nat
}

/// The user rows expected once every user restored the account.
pub open spec fn users_restored(cfg: BenchConfigView) -> nat {
    1 + cfg.nusers * (cfg.nlec + 1)
}

/// The parts that hold the expected row counts.
pub open spec fn uses_counts(k: Block) -> bool {
    k == Block::DeleteCheck || k == Block::RestoreCheck
}

/// The expected row counts fit in a `usize`. Only the full run computes
/// them, and it overflows where they do not fit.
pub open spec fn config_ok(cfg: BenchConfigView) -> bool {
    &&& cfg.nlec * cfg.nqs <= usize::MAX
    &&& answers_left(cfg) <= usize::MAX
    &&& cfg.nlec + 1 <= usize::MAX
    &&& users_restored(cfg) <= usize::MAX
}

/// The body of a request.
pub enum Body {
    /// This text.
    Fixed(String),
    /// The login form of this user, with the API key read for the user.
    Login(usize),
    /// The restore form of this user, with the disguise id and API key read
    /// for the user.
    Restore(usize),
    /// The anonymous-edit form of this user for lecture 0, with the API key
    /// read for the user.
    AnonEdit(usize),
}

/// The mathematical content of a [`Body`].
pub enum BodyView {
    Fixed(Seq<char>),
    Login(nat),
    Restore(nat),
    AnonEdit(nat),
}

impl View for Body {
    type V = BodyView;

    open spec fn view(&self) -> BodyView {
        match self {
            Body::Fixed(s) => BodyView::Fixed(s@),
            Body::Login(u) => BodyView::Login(*u as nat),
            Body::Restore(u) => BodyView::Restore(*u as nat),
            Body::AnonEdit(u) => BodyView::AnonEdit(*u as nat),
        }
    }
}

/// What the rows of a query must show.
pub enum RowCheck {
    Any,
    Count(usize),
    SomeContains(String),
    /// Some row contains the text, and there are this many rows.
    CountAndContains(usize, String),
}

/// The mathematical content of a [`RowCheck`].
pub enum RowCheckView {
    Any,
    Count(nat),
    SomeContains(Seq<char>),
    CountAndContains(nat, Seq<char>),
}

impl View for RowCheck {
    type V = RowCheckView;

    open spec fn view(&self) -> RowCheckView {
        match self {
            RowCheck::Any => RowCheckView::Any,
            RowCheck::Count(n) => RowCheckView::Count(*n as nat),
            RowCheck::SomeContains(p) => RowCheckView::SomeContains(p@),
            RowCheck::CountAndContains(n, p) => RowCheckView::CountAndContains(*n as nat, p@),
        }
    }
}

/// One instruction of the benchmark script.
pub enum Instr {
    /// A POST request, with its body and whether it is sent as a form, that
    /// must be answered with this status.
    Post { path: String, body: Option<Body>, form: bool, expect: u16 },
    /// A GET request that must be answered with this status.
    Get { path: String, expect: u16 },
    /// Start the clock.
    StartClock,
    /// Record the time since the clock was started under this timer.
    Record(Timer),
    /// Read the API key that the site wrote to this user's key file.
    ReadKey(usize),
    /// Read the disguise id that the site wrote to this user's id file.
    ReadDid(usize),
    /// Run this statement on the database.
    Sql(String),
    /// Recreate the database from its schema.
    ResetDatabase,
    /// Run this query, taking this column of each row as text (or nothing),
    /// and check its rows.
    Query { sql: String, column: Option<usize>, check: RowCheck },
    /// Write the statistics file.
    WriteStats { file: String, is_baseline: bool },
}

/// The mathematical content of an [`Instr`].
pub enum InstrView {
    Post { path: Seq<char>, body: Option<BodyView>, form: bool, expect: u16 },
    Get { path: Seq<char>, expect: u16 },
    StartClock,
    Record(Timer),
    ReadKey(nat),
    ReadDid(nat),
    Sql(Seq<char>),
    ResetDatabase,
    Query { sql: Seq<char>, column: Option<usize>, check: RowCheckView },
    WriteStats { file: Seq<char>, is_baseline: bool },
}

impl View for Instr {
    type V = InstrView;

    open spec fn view(&self) -> InstrView {
        match self {
            Instr::Post { path, body, form, expect } => InstrView::Post {
                path: path@,
                body: match body {
                    Some(b) => Some(b@),
                    None => None,
                },
                form: *form,
                expect: *expect,
            },
            Instr::Get { path, expect } => InstrView::Get { path: path@, expect: *expect },
            Instr::StartClock => InstrView::StartClock,
            Instr::Record(t) => InstrView::Record(*t),
            Instr::ReadKey(u) => InstrView::ReadKey(*u as nat),
            Instr::ReadDid(u) => InstrView::ReadDid(*u as nat),
            Instr::Sql(s) => InstrView::Sql(s@),
            Instr::ResetDatabase => InstrView::ResetDatabase,
            Instr::Query { sql, column, check } => InstrView::Query {
                sql: sql@,
                column: *column,
                check: check@,
            },
            Instr::WriteStats { file, is_baseline } => InstrView::WriteStats {
                file: file@,
                is_baseline: *is_baseline,
            },
        }
    }
}

/// The views of a sequence of instructions.
pub open spec fn instr_views(s: Seq<Instr>) -> Seq<InstrView> {
    s.map_values(|i: Instr| i@)
}

} // verus!

verus! {

/// A POST request.
pub open spec fn post_i(path: Seq<char>, body: Option<BodyView>, form: bool, expect: u16) -> InstrView {
    InstrView::Post { path, body, form, expect }
}

/// A GET request.
pub open spec fn get_i(path: Seq<char>, expect: u16) -> InstrView {
    InstrView::Get { path, expect }
}

/// User `u` logs in with the API key read for the user.
pub open spec fn login_i(u: nat) -> InstrView {
    post_i("/apikey/login"@, Some(BodyView::Login(u)), true, 303)
}

/// The current user logs out.
pub open spec fn logout_i() -> InstrView {
    post_i("/apikey/logout"@, None, false, 303)
}

/// The admin logs in.
pub open spec fn admin_login_i(cfg: BenchConfigView) -> InstrView {
    post_i(
        "/apikey/login"@,
        Some(BodyView::Fixed(form_urlencoded(seq![("email"@, cfg.admin_email), ("key"@, cfg.admin_key)]))),
        true,
        303,
    )
}

/// A query with a check of its rows.
pub open spec fn query_i(sql: Seq<char>, column: Option<usize>, check: RowCheckView) -> InstrView {
    InstrView::Query { sql, column, check }
}

/// The page of the questions of lecture 0.
pub open spec fn questions_path() -> Seq<char> {
    "/questions/0"@
}

/// The body with which user `u` posts an edited answer to lecture 0.
pub open spec fn edit_body(u: nat) -> BodyView {
    BodyView::Fixed(answer_field_text(0) + "="@ + new_answer_text(u, 0))
}

/// The query for the answers to question 0 of lecture 0.
pub open spec fn first_answers_sql() -> Seq<char> {
    "SELECT answers.* FROM answers WHERE lec = 0 AND q = 0;"@
}

/// For lectures `0..k`: the query for user `u`'s answers, which must find
/// no row.
pub open spec fn lec_checks(u: nat, k: nat) -> Seq<InstrView>
    decreases k,
{
    if k == 0 {
        Seq::empty()
    } else {
        lec_checks(u, (k - 1) as nat) + seq![
            query_i(user_answers_text((k - 1) as nat, email_text(u)), None, RowCheckView::Count(0)),
        ]
    }
}

/// The parts of the benchmark script.
#[derive(Clone, Copy, PartialEq, Eq, Structural, Debug)]
pub enum Block {
    /// The admin's account is created.
    AdminAccount,
    /// User `u`'s account is created, timed, and its API key read.
    CreateUser,
    /// The admin logs in.
    AdminLogin,
    /// One timed read of the lecture list and one of the answers to lecture 0.
    AdminRead,
    /// The current user logs out.
    Logout,
    /// User `u` logs in and reads the questions, timed.
    BaselineRead,
    /// User `u` logs in, edits an answer (timed), and deletes the account (timed).
    BaselineEditDelete,
    /// The database is recreated.
    Reset,
    /// The admin logs in and anonymizes the site, timed.
    Anonymize,
    /// User `u` logs in, reads the questions (timed), edits an answer
    /// (timed), and logs out.
    EditNonanon,
    /// User `u` logs in, deletes the account (timed), reads the disguise id,
    /// and logs out.
    DeleteNonanon,
    /// User `u` logs in, restores the account (timed), and logs out.
    RestoreNonanon,
    /// User `u` has no answers left in any lecture.
    AnonCheck,
    /// User `u` edits, as a pseudoprincipal, the answer to lecture 0 (timed),
    /// and is logged out afterwards.
    AnonEdit,
    /// The admin finds an edited answer to question 0 of lecture 0.
    NewAnswerCheck,
    /// User `u` logs in, deletes the account again (timed), reads the new
    /// disguise id, and logs out.
    DeleteComp,
    /// The admin finds the answer rows of the users that were not deleted.
    DeleteCheck,
    /// User `u` logs in, restores the account again (timed), and logs out.
    RestoreComp,
    /// The admin finds every user's answer to question 0 of lecture 0, one of
    /// them edited, and all user rows back.
    RestoreCheck,
    /// The statistics file is written.
    WriteStats,
}

/// The instructions of a part of the script, for user `u` where the part
/// is about one user.
pub open spec fn block_spec(k: Block, cfg: BenchConfigView, u: nat) -> Seq<InstrView> {
    match k {
        Block::AdminAccount => seq![
            post_i("/apikey/generate"@, Some(BodyView::Fixed(form_urlencoded(seq![("email"@, cfg.admin_email)]))), true, 200),
        ],
        Block::CreateUser => seq![InstrView::StartClock]
            + seq![post_i("/apikey/generate"@, Some(BodyView::Fixed(form_urlencoded(seq![("email"@, email_text(u))]))), true, 200)]
            + seq![InstrView::Record(Timer::Account)]
            + seq![InstrView::ReadKey(u)],
        Block::AdminLogin => seq![admin_login_i(cfg)],
        Block::AdminRead => seq![InstrView::StartClock]
            + seq![get_i("/leclist"@, 200)]
            + seq![InstrView::Record(Timer::Leclist)]
            + seq![InstrView::StartClock]
            + seq![get_i("/answers/0"@, 200)]
            + seq![InstrView::Record(Timer::Answers)],
        Block::Logout => seq![logout_i()],
        Block::BaselineRead => seq![login_i(u)]
            + seq![InstrView::StartClock]
            + seq![get_i(questions_path(), 200)]
            + seq![InstrView::Record(Timer::Questions)],
        Block::BaselineEditDelete => seq![login_i(u)]
            + seq![InstrView::StartClock]
            + seq![get_i(questions_path(), 200)]
            + seq![post_i(questions_path(), Some(edit_body(u)), true, 303)]
            + seq![InstrView::Record(Timer::Edit)]
            + seq![InstrView::StartClock]
            + seq![post_i("/delete"@, None, true, 303)]
            + seq![InstrView::Record(Timer::Delete)],
        Block::Reset => seq![InstrView::ResetDatabase],
        Block::Anonymize => seq![admin_login_i(cfg)]
            + seq![InstrView::StartClock]
            + seq![post_i("/admin/anonymize"@, None, false, 303)]
            + seq![InstrView::Record(Timer::Anon)],
        Block::EditNonanon => seq![login_i(u)]
            + seq![InstrView::StartClock]
            + seq![get_i(questions_path(), 200)]
            + seq![InstrView::Record(Timer::Questions)]
            + seq![InstrView::StartClock]
            + seq![get_i(questions_path(), 200)]
            + seq![post_i(questions_path(), Some(edit_body(u)), true, 303)]
            + seq![InstrView::Record(Timer::EditNonanon)]
            + seq![logout_i()],
        Block::DeleteNonanon => seq![login_i(u)]
            + seq![InstrView::StartClock]
            + seq![post_i("/delete"@, None, true, 303)]
            + seq![InstrView::Record(Timer::DeleteNonanon)]
            + seq![InstrView::ReadDid(u)]
            + seq![logout_i()],
        Block::RestoreNonanon => seq![login_i(u)]
            + seq![InstrView::StartClock]
            + seq![post_i("/restore"@, Some(BodyView::Restore(u)), true, 303)]
            + seq![InstrView::Record(Timer::RestoreNonanon)]
            + seq![logout_i()],
        Block::AnonCheck => lec_checks(u, cfg.nlec),
        Block::AnonEdit => seq![InstrView::StartClock]
            + seq![get_i("/anon/auth"@, 200)]
            + seq![post_i("/anon/edit"@, Some(BodyView::AnonEdit(u)), true, 200)]
            + seq![post_i(questions_path(), Some(edit_body(u)), true, 303)]
            + seq![InstrView::Record(Timer::Edit)]
            + seq![get_i("/leclist"@, 401)],
        Block::NewAnswerCheck => seq![admin_login_i(cfg)]
            + seq![query_i(first_answers_sql(), Some(3), RowCheckView::SomeContains("new_answer"@))]
            + seq![logout_i()],
        Block::DeleteComp => seq![login_i(u)]
            + seq![InstrView::StartClock]
            + seq![post_i("/delete"@, None, true, 303)]
            + seq![InstrView::Record(Timer::Delete)]
            + seq![InstrView::ReadDid(u)]
            + seq![logout_i()],
        Block::DeleteCheck => seq![admin_login_i(cfg)]
            + seq![query_i("SELECT * FROM answers;"@, Some(0), RowCheckView::Count(answers_left(cfg)))]
            + seq![query_i("SELECT * FROM users;"@, Some(0), RowCheckView::Any)]
            + seq![logout_i()],
        Block::RestoreComp => seq![login_i(u)]
            + seq![InstrView::StartClock]
            + seq![post_i("/restore"@, Some(BodyView::Restore(u)), true, 303)]
            + seq![InstrView::Record(Timer::Restore)]
            + seq![logout_i()],
        Block::RestoreCheck => seq![admin_login_i(cfg)]
            + seq![query_i(
                "SELECT * FROM answers WHERE lec = 0 AND q = 0;"@,
                Some(3),
                RowCheckView::CountAndContains(cfg.nusers, "new_answer"@),
            )]
            + seq![query_i("SELECT * FROM users;"@, Some(0), RowCheckView::Count(users_restored(cfg)))],
        Block::WriteStats => seq![
            InstrView::WriteStats {
                file: stats_file_text(cfg.nlec, cfg.nusers, cfg.proxy, cfg.dryrun, cfg.is_baseline),
                is_baseline: cfg.is_baseline,
            },
        ],
    }
}

/// A part of the script for users `0..n` (once, for `n == 1`, where the part
/// is not about a user).
pub open spec fn piece(k: Block, cfg: BenchConfigView, n: nat) -> Seq<InstrView>
    decreases n,
{
    if n == 0 {
        Seq::empty()
    } else {
        piece(k, cfg, (n - 1) as nat) + block_spec(k, cfg, (n - 1) as nat)
    }
}

/// The script instruction of a priming step: statements run on the database,
/// users log in and out through the site.
pub open spec fn prime_instr(p: PrimeStepView) -> InstrView {
    match p {
        PrimeStepView::Sql(s) => InstrView::Sql(s),
        PrimeStepView::Login(u) => login_i(u),
        PrimeStepView::Logout => logout_i(),
    }
}

/// The priming part of the script.
pub open spec fn prime_instrs(cfg: BenchConfigView) -> Seq<InstrView> {
    lecture_steps(cfg.nlec, cfg.nqs, cfg.nusers).map_values(|p: PrimeStepView| prime_instr(p))
}

/// Populating the site: the admin's account, each user's account, and,
/// when priming, the lectures, questions and answers.
pub open spec fn populate_spec(cfg: BenchConfigView) -> Seq<InstrView> {
    piece(Block::AdminAccount, cfg, 1) + piece(Block::CreateUser, cfg, cfg.nusers) + if cfg.prime {
        prime_instrs(cfg)
    } else {
        Seq::empty()
    }
}

/// The whole benchmark script.
pub open spec fn script_spec(cfg: BenchConfigView) -> Seq<InstrView> {
    let m = bench_users(cfg);
    let reads = populate_spec(cfg) + piece(Block::AdminLogin, cfg, 1) + piece(
        Block::AdminRead,
        cfg,
        NITERS as nat,
    ) + piece(Block::Logout, cfg, 1);
    if cfg.is_baseline {
        reads + piece(Block::BaselineRead, cfg, m) + piece(Block::BaselineEditDelete, cfg, m)
            + piece(Block::Reset, cfg, if cfg.prime { 1 } else { 0 }) + populate_spec(cfg)
            + piece(Block::Anonymize, cfg, 1) + piece(Block::WriteStats, cfg, 1)
    } else {
        reads + piece(Block::EditNonanon, cfg, m) + piece(Block::DeleteNonanon, cfg, m) + piece(
            Block::RestoreNonanon,
            cfg,
            m,
        ) + piece(Block::Anonymize, cfg, 1) + piece(Block::AnonCheck, cfg, m) + piece(
            Block::Logout,
            cfg,
            1,
        ) + piece(Block::AnonEdit, cfg, m) + piece(Block::NewAnswerCheck, cfg, 1) + piece(
            Block::DeleteComp,
            cfg,
            m,
        ) + piece(Block::DeleteCheck, cfg, 1) + piece(Block::RestoreComp, cfg, m) + piece(
            Block::RestoreCheck,
            cfg,
            1,
        ) + piece(Block::WriteStats, cfg, 1)
    }
}

} // verus!

verus! {

fn push_instr(v: &mut Vec<Instr>, i: Instr)
    ensures
        instr_views(final(v)@) == instr_views(old(v)@).push(i@),
{
    let ghost before = v@;
    v.push(i);
    assert(instr_views(v@) =~= instr_views(before).push(i@));
}

fn post_instr(path: &str, body: Option<Body>, form: bool, expect: u16) -> (i: Instr)
    ensures
        i@ == post_i(
            path@,
            match body {
                Some(b) => Some(b@),
                None => None,
            },
            form,
            expect,
        ),
{
    Instr::Post { path: path.to_string(), body, form, expect }
}

fn get_instr(path: &str, expect: u16) -> (i: Instr)
    ensures
        i@ == get_i(path@, expect),
{
    Instr::Get { path: path.to_string(), expect }
}

fn login_instr(u: usize) -> (i: Instr)
    ensures
        i@ == login_i(u as nat),
{
    post_instr("/apikey/login", Some(Body::Login(u)), true, 303)
}

fn logout_instr() -> (i: Instr)
    ensures
        i@ == logout_i(),
{
    post_instr("/apikey/logout", None, false, 303)
}

fn admin_login_instr(cfg: &BenchConfig) -> (i: Instr)
    ensures
        i@ == admin_login_i(cfg@),
{
    let body = login_form(cfg.admin_email.as_str(), cfg.admin_key.as_str());
    post_instr("/apikey/login", Some(Body::Fixed(body)), true, 303)
}

fn edit_instr(u: usize) -> (i: Instr)
    ensures
        i@ == post_i(questions_path(), Some(edit_body(u as nat)), true, 303),
{
    let body = answers_form(u, 0);
    post_instr("/questions/0", Some(Body::Fixed(body)), true, 303)
}

fn query_instr(sql: &str, column: Option<usize>, check: RowCheck) -> (i: Instr)
    ensures
        i@ == query_i(sql@, column, check@),
{
    Instr::Query { sql: sql.to_string(), column, check }
}

fn push_anon_checks(v: &mut Vec<Instr>, cfg: &BenchConfig, u: usize)
    ensures
        instr_views(final(v)@) == instr_views(old(v)@) + lec_checks(u as nat, cfg.nlec as nat),
{
    let ghost before = instr_views(v@);
    let email = user_email(u);
    let mut l: usize = 0;
    assert(instr_views(v@) =~= before + lec_checks(u as nat, 0));
    while l < cfg.nlec
        invariant
            l <= cfg.nlec,
            email@ == email_text(u as nat),
            instr_views(v@) == before + lec_checks(u as nat, l as nat),
        decreases cfg.nlec - l,
    {
        let sql = user_answers_sql(l, email.as_str());
        push_instr(v, Instr::Query { sql, column: None, check: RowCheck::Count(0) });
        assert(instr_views(v@) =~= before + lec_checks(u as nat, (l + 1) as nat));
        l = l + 1;
    }
}

fn push_block(v: &mut Vec<Instr>, k: Block, cfg: &BenchConfig, u: usize)
    requires
        uses_counts(k) ==> config_ok(cfg@),
    ensures
        instr_views(final(v)@) == instr_views(old(v)@) + block_spec(k, cfg@, u as nat),
{
    let ghost before = instr_views(v@);
    match k {
        Block::AdminAccount => {
            let body = account_form(cfg.admin_email.as_str());
            push_instr(v, post_instr("/apikey/generate", Some(Body::Fixed(body)), true, 200));
        },
        Block::CreateUser => {
            let email = user_email(u);
            let body = account_form(email.as_str());
            push_instr(v, Instr::StartClock);
            push_instr(v, post_instr("/apikey/generate", Some(Body::Fixed(body)), true, 200));
            push_instr(v, Instr::Record(Timer::Account));
            push_instr(v, Instr::ReadKey(u));
        },
        Block::AdminLogin => {
            push_instr(v, admin_login_instr(cfg));
        },
        Block::AdminRead => {
            push_instr(v, Instr::StartClock);
            push_instr(v, get_instr("/leclist", 200));
            push_instr(v, Instr::Record(Timer::Leclist));
            push_instr(v, Instr::StartClock);
            push_instr(v, get_instr("/answers/0", 200));
            push_instr(v, Instr::Record(Timer::Answers));
        },
        Block::Logout => {
            push_instr(v, logout_instr());
        },
        Block::BaselineRead => {
            push_instr(v, login_instr(u));
            push_instr(v, Instr::StartClock);
            push_instr(v, get_instr("/questions/0", 200));
            push_instr(v, Instr::Record(Timer::Questions));
        },
        Block::BaselineEditDelete => {
            push_instr(v, login_instr(u));
            push_instr(v, Instr::StartClock);
            push_instr(v, get_instr("/questions/0", 200));
            push_instr(v, edit_instr(u));
            push_instr(v, Instr::Record(Timer::Edit));
            push_instr(v, Instr::StartClock);
            push_instr(v, post_instr("/delete", None, true, 303));
            push_instr(v, Instr::Record(Timer::Delete));
        },
        Block::Reset => {
            push_instr(v, Instr::ResetDatabase);
        },
        Block::Anonymize => {
            push_instr(v, admin_login_instr(cfg));
            push_instr(v, Instr::StartClock);
            push_instr(v, post_instr("/admin/anonymize", None, false, 303));
            push_instr(v, Instr::Record(Timer::Anon));
        },
        Block::EditNonanon => {
            push_instr(v, login_instr(u));
            push_instr(v, Instr::StartClock);
            push_instr(v, get_instr("/questions/0", 200));
            push_instr(v, Instr::Record(Timer::Questions));
            push_instr(v, Instr::StartClock);
            push_instr(v, get_instr("/questions/0", 200));
            push_instr(v, edit_instr(u));
            push_instr(v, Instr::Record(Timer::EditNonanon));
            push_instr(v, logout_instr());
        },
        Block::DeleteNonanon => {
            push_instr(v, login_instr(u));
            push_instr(v, Instr::StartClock);
            push_instr(v, post_instr("/delete", None, true, 303));
            push_instr(v, Instr::Record(Timer::DeleteNonanon));
            push_instr(v, Instr::ReadDid(u));
            push_instr(v, logout_instr());
        },
        Block::RestoreNonanon => {
            push_instr(v, login_instr(u));
            push_instr(v, Instr::StartClock);
            push_instr(v, post_instr("/restore", Some(Body::Restore(u)), true, 303));
            push_instr(v, Instr::Record(Timer::RestoreNonanon));
            push_instr(v, logout_instr());
        },
        Block::AnonCheck => {
            push_anon_checks(v, cfg, u);
        },
        Block::AnonEdit => {
            push_instr(v, Instr::StartClock);
            push_instr(v, get_instr("/anon/auth", 200));
            push_instr(v, post_instr("/anon/edit", Some(Body::AnonEdit(u)), true, 200));
            push_instr(v, edit_instr(u));
            push_instr(v, Instr::Record(Timer::Edit));
            push_instr(v, get_instr("/leclist", 401));
        },
        Block::NewAnswerCheck => {
            push_instr(v, admin_login_instr(cfg));
            push_instr(
                v,
                query_instr(
                    "SELECT answers.* FROM answers WHERE lec = 0 AND q = 0;",
                    Some(3),
                    RowCheck::SomeContains("new_answer".to_string()),
                ),
            );
            push_instr(v, logout_instr());
        },
        Block::DeleteComp => {
            push_instr(v, login_instr(u));
            push_instr(v, Instr::StartClock);
            push_instr(v, post_instr("/delete", None, true, 303));
            push_instr(v, Instr::Record(Timer::Delete));
            push_instr(v, Instr::ReadDid(u));
            push_instr(v, logout_instr());
        },
        Block::DeleteCheck => {
            let left = expected_answers_after_delete(cfg.nlec, cfg.nqs, cfg.nusers);
            push_instr(v, admin_login_instr(cfg));
            push_instr(v, query_instr("SELECT * FROM answers;", Some(0), RowCheck::Count(left)));
            push_instr(v, query_instr("SELECT * FROM users;", Some(0), RowCheck::Any));
            push_instr(v, logout_instr());
        },
        Block::RestoreComp => {
            push_instr(v, login_instr(u));
            push_instr(v, Instr::StartClock);
            push_instr(v, post_instr("/restore", Some(Body::Restore(u)), true, 303));
            push_instr(v, Instr::Record(Timer::Restore));
            push_instr(v, logout_instr());
        },
        Block::RestoreCheck => {
            let users = expected_users_after_restore(cfg.nusers, cfg.nlec);
            push_instr(v, admin_login_instr(cfg));
            push_instr(
                v,
                query_instr(
                    "SELECT * FROM answers WHERE lec = 0 AND q = 0;",
                    Some(3),
                    RowCheck::CountAndContains(cfg.nusers, "new_answer".to_string()),
                ),
            );
            push_instr(v, query_instr("SELECT * FROM users;", Some(0), RowCheck::Count(users)));
        },
        Block::WriteStats => {
            let file = stats_file_name(cfg.nlec, cfg.nusers, cfg.proxy, cfg.dryrun, cfg.is_baseline);
            push_instr(v, Instr::WriteStats { file, is_baseline: cfg.is_baseline });
        },
    }
    assert(instr_views(v@) =~= before + block_spec(k, cfg@, u as nat));
}

fn push_piece(v: &mut Vec<Instr>, k: Block, cfg: &BenchConfig, n: usize)
    requires
        uses_counts(k) ==> config_ok(cfg@),
    ensures
        instr_views(final(v)@) == instr_views(old(v)@) + piece(k, cfg@, n as nat),
{
    let ghost before = instr_views(v@);
    assert(instr_views(v@) =~= before + piece(k, cfg@, 0));
    let mut u: usize = 0;
    while u < n
        invariant
            u <= n,
            uses_counts(k) ==> config_ok(cfg@),
            instr_views(v@) == before + piece(k, cfg@, u as nat),
        decreases n - u,
    {
        push_block(v, k, cfg, u);
        assert(instr_views(v@) =~= before + piece(k, cfg@, (u + 1) as nat));
        u = u + 1;
    }
}

fn push_priming(v: &mut Vec<Instr>, cfg: &BenchConfig)
    ensures
        instr_views(final(v)@) == instr_views(old(v)@) + prime_instrs(cfg@),
{
    let ghost before = instr_views(v@);
    let plan = priming_plan(cfg.nlec, cfg.nqs, cfg.nusers);
    let ghost want = prime_instrs(cfg@);
    assert(want =~= step_views(plan@).map_values(|p: PrimeStepView| prime_instr(p)));
    let mut i: usize = 0;
    assert(instr_views(v@) =~= before + want.take(0));
    while i < plan.len()
        invariant
            i <= plan.len(),
            want == step_views(plan@).map_values(|p: PrimeStepView| prime_instr(p)),
            instr_views(v@) == before + want.take(i as int),
        decreases plan.len() - i,
    {
        let ins = match &plan[i] {
            PrimeStep::Sql(s) => Instr::Sql(s.clone()),
            PrimeStep::Login(u) => login_instr(*u),
            PrimeStep::Logout => logout_instr(),
        };
        assert(ins@ == want[i as int]);
        push_instr(v, ins);
        assert(instr_views(v@) =~= before + want.take(i + 1));
        i = i + 1;
    }
    assert(want.take(plan.len() as int) =~= want);
}

fn push_populate(v: &mut Vec<Instr>, cfg: &BenchConfig)
    ensures
        instr_views(final(v)@) == instr_views(old(v)@) + populate_spec(cfg@),
{
    let ghost before = instr_views(v@);
    push_piece(v, Block::AdminAccount, cfg, 1);
    push_piece(v, Block::CreateUser, cfg, cfg.nusers);
    if cfg.prime {
        push_priming(v, cfg);
    }
    assert(instr_views(v@) =~= before + populate_spec(cfg@));
}

/// The benchmark script for this configuration.
pub fn bench_script(cfg: &BenchConfig) -> (s: Vec<Instr>)
    requires
        !cfg.is_baseline ==> config_ok(cfg@),
    ensures
        instr_views(s@) == script_spec(cfg@),
        forall|j: int| 0 <= j < s@.len() ==> post_status_ok(#[trigger] s@[j]@),
{
    let m = crate::bench::bench_user_count(cfg.nusers);
    let mut v: Vec<Instr> = Vec::new();
    push_populate(&mut v, cfg);
    push_piece(&mut v, Block::AdminLogin, cfg, 1);
    push_piece(&mut v, Block::AdminRead, cfg, NITERS);
    push_piece(&mut v, Block::Logout, cfg, 1);
    if cfg.is_baseline {
        push_piece(&mut v, Block::BaselineRead, cfg, m);
        push_piece(&mut v, Block::BaselineEditDelete, cfg, m);
        push_piece(&mut v, Block::Reset, cfg, if cfg.prime { 1 } else { 0 });
        push_populate(&mut v, cfg);
        push_piece(&mut v, Block::Anonymize, cfg, 1);
        push_piece(&mut v, Block::WriteStats, cfg, 1);
    } else {
        push_piece(&mut v, Block::EditNonanon, cfg, m);
        push_piece(&mut v, Block::DeleteNonanon, cfg, m);
        push_piece(&mut v, Block::RestoreNonanon, cfg, m);
        push_piece(&mut v, Block::Anonymize, cfg, 1);
        push_piece(&mut v, Block::AnonCheck, cfg, m);
        push_piece(&mut v, Block::Logout, cfg, 1);
        push_piece(&mut v, Block::AnonEdit, cfg, m);
        push_piece(&mut v, Block::NewAnswerCheck, cfg, 1);
        push_piece(&mut v, Block::DeleteComp, cfg, m);
        push_piece(&mut v, Block::DeleteCheck, cfg, 1);
        push_piece(&mut v, Block::RestoreComp, cfg, m);
        push_piece(&mut v, Block::RestoreCheck, cfg, 1);
        push_piece(&mut v, Block::WriteStats, cfg, 1);
    }
    assert(instr_views(v@) =~= script_spec(cfg@));
    proof {
        lemma_script_post_statuses(cfg@);
        assert forall|j: int| 0 <= j < v@.len() implies post_status_ok(#[trigger] v@[j]@) by {
            assert(instr_views(v@)[j] == v@[j]@);
        }
    }
    v
}

} // verus!

verus! {

/// Why a run stopped short.
#[derive(Clone, Copy, PartialEq, Eq, Structural, Debug)]
pub enum Failure {
    /// A request was answered with another status than the expected one.
    Status { expected: u16, got: u16 },
    /// A query found another number of rows than the expected one.
    RowCount { wanted: usize, found: usize },
    /// No row of a query holds the expected text.
    NoMatch,
    /// An instruction names a user beyond those of the run.
    NoSuchUser,
    /// The outcome handed back is not of the kind the last action asked for.
    UnexpectedEvent,
}

/// What the benchmark asks to be done next.
pub enum BenchAction {
    Post { path: String, body: Option<String>, form: bool },
    Get { path: String },
    StartClock,
    Record(Timer),
    ReadFile(String),
    Sql(String),
    ResetDatabase,
    Query { sql: String, column: Option<usize> },
    WriteStats { file: String, is_baseline: bool },
    Fail(Failure),
    Done,
}

/// The mathematical content of a [`BenchAction`].
pub enum ActionView {
    Post { path: Seq<char>, body: Option<Seq<char>>, form: bool },
    Get { path: Seq<char> },
    StartClock,
    Record(Timer),
    ReadFile(Seq<char>),
    Sql(Seq<char>),
    ResetDatabase,
    Query { sql: Seq<char>, column: Option<usize> },
    WriteStats { file: Seq<char>, is_baseline: bool },
    Fail(Failure),
    Done,
}

impl View for BenchAction {
    type V = ActionView;

    open spec fn view(&self) -> ActionView {
        match self {
            BenchAction::Post { path, body, form } => ActionView::Post {
                path: path@,
                body: match body {
                    Some(b) => Some(b@),
                    None => None,
                },
                form: *form,
            },
            BenchAction::Get { path } => ActionView::Get { path: path@ },
            BenchAction::StartClock => ActionView::StartClock,
            BenchAction::Record(t) => ActionView::Record(*t),
            BenchAction::ReadFile(f) => ActionView::ReadFile(f@),
            BenchAction::Sql(s) => ActionView::Sql(s@),
            BenchAction::ResetDatabase => ActionView::ResetDatabase,
            BenchAction::Query { sql, column } => ActionView::Query { sql: sql@, column: *column },
            BenchAction::WriteStats { file, is_baseline } => ActionView::WriteStats {
                file: file@,
                is_baseline: *is_baseline,
            },
            BenchAction::Fail(f) => ActionView::Fail(*f),
            BenchAction::Done => ActionView::Done,
        }
    }
}

/// The outcome of the last action: the status of a request, the text of a
/// file, or the texts of a query's rows (the column asked for, or an empty
/// text per row).
pub enum BenchEvent {
    Status(u16),
    Text(String),
    Rows(Vec<String>),
}

/// The mathematical content of a [`BenchEvent`].
pub enum EventView {
    Status(u16),
    Text(Seq<char>),
    Rows(Seq<Seq<char>>),
}

impl View for BenchEvent {
    type V = EventView;

    open spec fn view(&self) -> EventView {
        match self {
            BenchEvent::Status(c) => EventView::Status(*c),
            BenchEvent::Text(t) => EventView::Text(t@),
            BenchEvent::Rows(rows) => EventView::Rows(views(rows@)),
        }
    }
}

/// The view of an optional event.
pub open spec fn event_view(ev: Option<BenchEvent>) -> Option<EventView> {
    match ev {
        Some(e) => Some(e@),
        None => None,
    }
}

/// Where a run stands: how many instructions were issued, and the API keys
/// and disguise ids read so far, one per user.
pub struct BenchState {
    pub pc: usize,
    pub keys: Vec<String>,
    pub dids: Vec<String>,
}

/// The mathematical content of a [`BenchState`].
pub struct BenchStateView {
    pub pc: nat,
    pub keys: Seq<Seq<char>>,
    pub dids: Seq<Seq<char>>,
}

impl View for BenchState {
    type V = BenchStateView;

    open spec fn view(&self) -> BenchStateView {
        BenchStateView { pc: self.pc as nat, keys: views(self.keys@), dids: views(self.dids@) }
    }
}

/// The state at the start of a run: nothing issued, an empty key and id
/// for each user.
pub open spec fn start_spec(cfg: BenchConfigView) -> BenchStateView {
    BenchStateView {
        pc: 0,
        keys: Seq::new(cfg.nusers, |i: int| Seq::<char>::empty()),
        dids: Seq::new(cfg.nusers, |i: int| Seq::<char>::empty()),
    }
}

/// The text of a request body in a state.
pub open spec fn body_text(b: BodyView, st: BenchStateView) -> Option<Seq<char>> {
    match b {
        BodyView::Fixed(s) => Some(s),
        BodyView::Login(u) => if u < st.keys.len() {
            Some(form_urlencoded(seq![("email"@, email_text(u)), ("key"@, st.keys[u as int])]))
        } else {
            None
        },
        BodyView::Restore(u) => if u < st.keys.len() && u < st.dids.len() {
            Some(
                form_urlencoded(
                    seq![
                        ("did"@, st.dids[u as int]),
                        ("email"@, email_text(u)),
                        ("apikey"@, st.keys[u as int]),
                    ],
                ),
            )
        } else {
            None
        },
        BodyView::AnonEdit(u) => if u < st.keys.len() {
            Some(
                form_urlencoded(
                    seq![
                        ("email"@, email_text(u)),
                        ("apikey"@, st.keys[u as int]),
                        ("lec_id"@, dec_nat(0)),
                    ],
                ),
            )
        } else {
            None
        },
    }
}

/// The action that an instruction asks for in a state (none when it names
/// a user beyond those of the run).
pub open spec fn issue(i: InstrView, st: BenchStateView) -> Option<ActionView> {
    match i {
        InstrView::Post { path, body, form, expect } => match body {
            None => Some(ActionView::Post { path, body: None, form }),
            Some(b) => match body_text(b, st) {
                Some(t) => Some(ActionView::Post { path, body: Some(t), form }),
                None => None,
            },
        },
        InstrView::Get { path, expect } => Some(ActionView::Get { path }),
        InstrView::StartClock => Some(ActionView::StartClock),
        InstrView::Record(t) => Some(ActionView::Record(t)),
        InstrView::ReadKey(u) => if u < st.keys.len() {
            Some(ActionView::ReadFile(user_file_text(email_text(u), APIKEY_FILE@)))
        } else {
            None
        },
        InstrView::ReadDid(u) => if u < st.dids.len() {
            Some(ActionView::ReadFile(user_file_text(email_text(u), DID_FILE@)))
        } else {
            None
        },
        InstrView::Sql(s) => Some(ActionView::Sql(s)),
        InstrView::ResetDatabase => Some(ActionView::ResetDatabase),
        InstrView::Query { sql, column, check } => Some(ActionView::Query { sql, column }),
        InstrView::WriteStats { file, is_baseline } => Some(ActionView::WriteStats { file, is_baseline }),
    }
}

/// What is wrong with the rows of a query, if anything.
pub open spec fn check_rows(c: RowCheckView, rows: Seq<Seq<char>>) -> Option<Failure> {
    match c {
        RowCheckView::Any => None,
        RowCheckView::Count(n) => if rows.len() == n {
            None
        } else {
            Some(Failure::RowCount { wanted: n as usize, found: rows.len() as usize })
        },
        RowCheckView::SomeContains(p) => if some_contains(rows, p) {
            None
        } else {
            Some(Failure::NoMatch)
        },
        RowCheckView::CountAndContains(n, p) => if !some_contains(rows, p) {
            Some(Failure::NoMatch)
        } else if rows.len() == n {
            None
        } else {
            Some(Failure::RowCount { wanted: n as usize, found: rows.len() as usize })
        },
    }
}

/// The state once the outcome of an instruction's action came back, or why
/// the run stops: a request must be answered with its expected status, a
/// file read gives the user's key or id, a query's rows must pass its check.
pub open spec fn absorb(i: InstrView, st: BenchStateView, ev: Option<EventView>) -> Result<BenchStateView, Failure> {
    match i {
        InstrView::Post { expect, .. } | InstrView::Get { expect, .. } => match ev {
            Some(EventView::Status(c)) => if c == expect {
                Ok(st)
            } else {
                Err(Failure::Status { expected: expect, got: c })
            },
            _ => Err(Failure::UnexpectedEvent),
        },
        InstrView::ReadKey(u) => match ev {
            Some(EventView::Text(t)) => if u < st.keys.len() {
                Ok(BenchStateView { keys: st.keys.update(u as int, t), ..st })
            } else {
                Err(Failure::NoSuchUser)
            },
            _ => Err(Failure::UnexpectedEvent),
        },
        InstrView::ReadDid(u) => match ev {
            Some(EventView::Text(t)) => if u < st.dids.len() {
                Ok(BenchStateView { dids: st.dids.update(u as int, t), ..st })
            } else {
                Err(Failure::NoSuchUser)
            },
            _ => Err(Failure::UnexpectedEvent),
        },
        InstrView::Query { check, .. } => match ev {
            Some(EventView::Rows(rows)) => match check_rows(check, rows) {
                None => Ok(st),
                Some(f) => Err(f),
            },
            _ => Err(Failure::UnexpectedEvent),
        },
        _ => Ok(st),
    }
}

/// One step of a run: take in the outcome of the last action (of the
/// instruction before `pc`), then issue the action of the instruction at
/// `pc`; `Done` past the end of the script, `Fail` when an outcome is wrong.
pub open spec fn spec_bench_step(
    script: Seq<InstrView>,
    st: BenchStateView,
    ev: Option<EventView>,
) -> (BenchStateView, ActionView) {
    let taken = if 0 < st.pc <= script.len() {
        absorb(script[st.pc - 1], st, ev)
    } else {
        Ok(st)
    };
    match taken {
        Err(f) => (st, ActionView::Fail(f)),
        Ok(s2) => if s2.pc >= script.len() {
            (s2, ActionView::Done)
        } else {
            match issue(script[s2.pc as int], s2) {
                Some(a) => (BenchStateView { pc: s2.pc + 1, ..s2 }, a),
                None => (s2, ActionView::Fail(Failure::NoSuchUser)),
            }
        },
    }
}

} // verus!

verus! {

fn empty_texts(n: usize) -> (v: Vec<String>)
    ensures
        v@.len() == n,
        forall|i: int| 0 <= i < n ==> #[trigger] v@[i]@ == Seq::<char>::empty(),
        views(v@) == Seq::new(n as nat, |i: int| Seq::<char>::empty()),
{
    let mut v: Vec<String> = Vec::new();
    let mut i: usize = 0;
    assert(views(v@) =~= Seq::new(0, |j: int| Seq::<char>::empty()));
    while i < n
        invariant
            i <= n,
            v@.len() == i,
            forall|j: int| 0 <= j < i ==> #[trigger] v@[j]@ == Seq::<char>::empty(),
            views(v@) == Seq::new(i as nat, |j: int| Seq::<char>::empty()),
        decreases n - i,
    {
        let ghost old_v = v@;
        v.push(String::new());
        assert forall|j: int| 0 <= j < i implies #[trigger] views(v@)[j] == Seq::<char>::empty() by {
            assert(v@[j] == old_v[j]);
            assert(views(old_v)[j] == Seq::<char>::empty());
        }
        assert(views(v@)[i as int] == Seq::<char>::empty());
        assert(views(v@) =~= Seq::new((i + 1) as nat, |j: int| Seq::<char>::empty()));
        i = i + 1;
    }
    v
}

/// The state at the start of a run.
pub fn bench_start(cfg: &BenchConfig) -> (st: BenchState)
    ensures
        st@ == start_spec(cfg@),
        st.pc == 0,
        st.keys@.len() == cfg.nusers,
        st.dids@.len() == cfg.nusers,
        forall|u: int| 0 <= u < cfg.nusers ==> #[trigger] st.keys@[u]@ == Seq::<char>::empty(),
        forall|u: int| 0 <= u < cfg.nusers ==> #[trigger] st.dids@[u]@ == Seq::<char>::empty(),
{
    BenchState { pc: 0, keys: empty_texts(cfg.nusers), dids: empty_texts(cfg.nusers) }
}

fn body_of(b: &Body, st: &BenchState) -> (r: Option<String>)
    ensures
        match body_text(b@, st@) {
            Some(t) => r is Some && r->Some_0@ == t,
            None => r is None,
        },
{
    match b {
        Body::Fixed(s) => Some(s.clone()),
        Body::Login(u) => {
            if *u < st.keys.len() {
                let email = user_email(*u);
                Some(login_form(email.as_str(), st.keys[*u].as_str()))
            } else {
                None
            }
        },
        Body::Restore(u) => {
            if *u < st.keys.len() && *u < st.dids.len() {
                let email = user_email(*u);
                Some(restore_form(st.dids[*u].as_str(), email.as_str(), st.keys[*u].as_str()))
            } else {
                None
            }
        },
        Body::AnonEdit(u) => {
            if *u < st.keys.len() {
                let email = user_email(*u);
                Some(anon_edit_form(email.as_str(), st.keys[*u].as_str(), 0))
            } else {
                None
            }
        },
    }
}

fn issue_action(i: &Instr, st: &BenchState) -> (r: Option<BenchAction>)
    ensures
        match issue(i@, st@) {
            Some(a) => r is Some && r->Some_0@ == a,
            None => r is None,
        },
{
    match i {
        Instr::Post { path, body, form, expect } => match body {
            None => Some(BenchAction::Post { path: path.clone(), body: None, form: *form }),
            Some(b) => match body_of(b, st) {
                Some(t) => Some(BenchAction::Post { path: path.clone(), body: Some(t), form: *form }),
                None => None,
            },
        },
        Instr::Get { path, expect } => Some(BenchAction::Get { path: path.clone() }),
        Instr::StartClock => Some(BenchAction::StartClock),
        Instr::Record(t) => Some(BenchAction::Record(*t)),
        Instr::ReadKey(u) => {
            if *u < st.keys.len() {
                let email = user_email(*u);
                Some(BenchAction::ReadFile(user_file_name(email.as_str(), APIKEY_FILE)))
            } else {
                None
            }
        },
        Instr::ReadDid(u) => {
            if *u < st.dids.len() {
                let email = user_email(*u);
                Some(BenchAction::ReadFile(user_file_name(email.as_str(), DID_FILE)))
            } else {
                None
            }
        },
        Instr::Sql(s) => Some(BenchAction::Sql(s.clone())),
        Instr::ResetDatabase => Some(BenchAction::ResetDatabase),
        Instr::Query { sql, column, check } => Some(BenchAction::Query { sql: sql.clone(), column: *column }),
        Instr::WriteStats { file, is_baseline } => Some(BenchAction::WriteStats {
            file: file.clone(),
            is_baseline: *is_baseline,
        }),
    }
}

fn check_rows_of(c: &RowCheck, rows: &Vec<String>) -> (r: Option<Failure>)
    ensures
        r == check_rows(c@, views(rows@)),
{
    match c {
        RowCheck::Any => None,
        RowCheck::Count(n) => {
            if rows.len() == *n {
                None
            } else {
                Some(Failure::RowCount { wanted: *n, found: rows.len() })
            }
        },
        RowCheck::SomeContains(p) => {
            if any_contains(rows, p.as_str()) {
                None
            } else {
                Some(Failure::NoMatch)
            }
        },
        RowCheck::CountAndContains(n, p) => {
            if !any_contains(rows, p.as_str()) {
                Some(Failure::NoMatch)
            } else if rows.len() == *n {
                None
            } else {
                Some(Failure::RowCount { wanted: *n, found: rows.len() })
            }
        },
    }
}

fn absorb_event(i: &Instr, st: BenchState, ev: Option<BenchEvent>) -> (r: (BenchState, Option<Failure>))
    ensures
        match absorb(i@, st@, event_view(ev)) {
            Ok(s2) => r.1 is None && r.0@ == s2,
            Err(f) => r.1 == Some(f) && r.0@ == st@,
        },
{
    let mut st = st;
    match i {
        Instr::Post { expect, .. } | Instr::Get { expect, .. } => match ev {
            Some(BenchEvent::Status(c)) => {
                if c == *expect {
                    (st, None)
                } else {
                    (st, Some(Failure::Status { expected: *expect, got: c }))
                }
            },
            _ => (st, Some(Failure::UnexpectedEvent)),
        },
        Instr::ReadKey(u) => match ev {
            Some(BenchEvent::Text(t)) => {
                if *u < st.keys.len() {
                    let ghost before = st@;
                    let ghost tv = t@;
                    st.keys.set(*u, t);
                    assert(st@.keys =~= before.keys.update(*u as int, tv));
                    (st, None)
                } else {
                    (st, Some(Failure::NoSuchUser))
                }
            },
            _ => (st, Some(Failure::UnexpectedEvent)),
        },
        Instr::ReadDid(u) => match ev {
            Some(BenchEvent::Text(t)) => {
                if *u < st.dids.len() {
                    let ghost before = st@;
                    let ghost tv = t@;
                    st.dids.set(*u, t);
                    assert(st@.dids =~= before.dids.update(*u as int, tv));
                    (st, None)
                } else {
                    (st, Some(Failure::NoSuchUser))
                }
            },
            _ => (st, Some(Failure::UnexpectedEvent)),
        },
        Instr::Query { check, .. } => match ev {
            Some(BenchEvent::Rows(rows)) => {
                let f = check_rows_of(check, &rows);
                (st, f)
            },
            _ => (st, Some(Failure::UnexpectedEvent)),
        },
        _ => (st, None),
    }
}

/// One step of a run: checks the outcome of the last action and gives the
/// next state and the next action.
pub fn bench_step(script: &Vec<Instr>, st: BenchState, ev: Option<BenchEvent>) -> (r: (
    BenchState,
    BenchAction,
))
    ensures
        (r.0@, r.1@) == spec_bench_step(instr_views(script@), st@, event_view(ev)),
{
    let ghost sv = instr_views(script@);
    let mut st = st;
    if 0 < st.pc && st.pc <= script.len() {
        let ghost prev = st@;
        let (s2, f) = absorb_event(&script[st.pc - 1], st, ev);
        st = s2;
        match f {
            Some(f) => {
                return (st, BenchAction::Fail(f));
            },
            None => {},
        }
    }
    if st.pc >= script.len() {
        return (st, BenchAction::Done);
    }
    match issue_action(&script[st.pc], &st) {
        Some(a) => {
            st.pc = st.pc + 1;
            (st, a)
        },
        None => (st, BenchAction::Fail(Failure::NoSuchUser)),
    }
}

} // verus!

verus! {

/// How many instructions of a script record a duration under timer `t`.
pub open spec fn records(s: Seq<InstrView>, t: Timer) -> nat
    decreases s.len(),
{
    if s.len() == 0 {
        0
    } else {
        records(s.drop_last(), t) + if s.last() == InstrView::Record(t) {
            1nat
        } else {
            0nat
        }
    }
}

/// Recordings of a script with one more instruction.
pub broadcast proof fn lemma_records_push(s: Seq<InstrView>, x: InstrView, t: Timer)
    ensures
        #[trigger] records(s.push(x), t) == records(s, t) + if x == InstrView::Record(t) {
            1nat
        } else {
            0nat
        },
{
    assert(s.push(x).drop_last() =~= s);
}

/// Recordings of two scripts one after the other.
pub broadcast proof fn lemma_records_add(a: Seq<InstrView>, b: Seq<InstrView>, t: Timer)
    ensures
        #[trigger] records(a + b, t) == records(a, t) + records(b, t),
    decreases b.len(),
{
    if b.len() == 0 {
        assert(a + b =~= a);
    } else {
        lemma_records_add(a, b.drop_last(), t);
        assert((a + b).drop_last() =~= a + b.drop_last());
    }
}

/// How many durations one part of the script records under timer `t`.
pub open spec fn block_records(k: Block, t: Timer) -> nat {
    match (k, t) {
        (Block::CreateUser, Timer::Account) => 1,
        (Block::AdminRead, Timer::Leclist) => 1,
        (Block::AdminRead, Timer::Answers) => 1,
        (Block::BaselineRead, Timer::Questions) => 1,
        (Block::BaselineEditDelete, Timer::Edit) => 1,
        (Block::BaselineEditDelete, Timer::Delete) => 1,
        (Block::Anonymize, Timer::Anon) => 1,
        (Block::EditNonanon, Timer::Questions) => 1,
        (Block::EditNonanon, Timer::EditNonanon) => 1,
        (Block::DeleteNonanon, Timer::DeleteNonanon) => 1,
        (Block::RestoreNonanon, Timer::RestoreNonanon) => 1,
        (Block::AnonEdit, Timer::Edit) => 1,
        (Block::DeleteComp, Timer::Delete) => 1,
        (Block::RestoreComp, Timer::Restore) => 1,
        _ => 0,
    }
}

proof fn lemma_records_none(s: Seq<InstrView>, t: Timer)
    requires
        forall|i: int| 0 <= i < s.len() ==> #[trigger] s[i] != InstrView::Record(t),
    ensures
        records(s, t) == 0,
    decreases s.len(),
{
    if s.len() > 0 {
        assert forall|i: int| 0 <= i < s.drop_last().len() implies #[trigger] s.drop_last()[i]
            != InstrView::Record(t) by {
            assert(s.drop_last()[i] == s[i]);
        }
        lemma_records_none(s.drop_last(), t);
        assert(s.last() == s[s.len() - 1]);
    }
}

proof fn lemma_lec_checks_records(u: nat, k: nat, t: Timer)
    ensures
        records(lec_checks(u, k), t) == 0,
    decreases k,
{
    broadcast use lemma_records_add;

    if k > 0 {
        lemma_lec_checks_records(u, (k - 1) as nat, t);
        assert(records(
            seq![query_i(user_answers_text((k - 1) as nat, email_text(u)), None, RowCheckView::Count(0))],
            t,
        ) == 0) by {
            reveal_with_fuel(records, 2);
        }
    }
}

proof fn lemma_anon_check_records(cfg: BenchConfigView, u: nat, t: Timer)
    ensures
        records(block_spec(Block::AnonCheck, cfg, u), t) == block_records(Block::AnonCheck, t),
{
    lemma_lec_checks_records(u, cfg.nlec, t);
    assert(block_records(Block::AnonCheck, t) == 0) by {
        match t {
            Timer::Account => {},
            Timer::Anon => {},
            Timer::Leclist => {},
            Timer::Answers => {},
            Timer::Questions => {},
            Timer::Edit => {},
            Timer::Delete => {},
            Timer::Restore => {},
            Timer::EditNonanon => {},
            Timer::DeleteNonanon => {},
            Timer::RestoreNonanon => {},
        }
    }
}

proof fn lemma_block_records(k: Block, cfg: BenchConfigView, u: nat, t: Timer)
    ensures
        records(block_spec(k, cfg, u), t) == block_records(k, t),
{
    broadcast use {lemma_records_push, lemma_records_add};

    assert(records(Seq::<InstrView>::empty(), t) == 0);
    if k == Block::AnonCheck {
        lemma_anon_check_records(cfg, u, t);
    } else {
        match t {
            Timer::Account => {},
            Timer::Anon => {},
            Timer::Leclist => {},
            Timer::Answers => {},
            Timer::Questions => {},
            Timer::Edit => {},
            Timer::Delete => {},
            Timer::Restore => {},
            Timer::EditNonanon => {},
            Timer::DeleteNonanon => {},
            Timer::RestoreNonanon => {},
        }
    }
}

/// A part repeated for users `0..n` records `n` times as many durations as
/// one of its copies.
pub proof fn lemma_piece_records(k: Block, cfg: BenchConfigView, n: nat, t: Timer)
    ensures
        records(piece(k, cfg, n), t) == n * block_records(k, t),
    decreases n,
{
    broadcast use lemma_records_add;

    if n == 0 {
        assert(records(Seq::<InstrView>::empty(), t) == 0);
    } else {
        lemma_piece_records(k, cfg, (n - 1) as nat, t);
        lemma_block_records(k, cfg, (n - 1) as nat, t);
        let c = block_records(k, t);
        assert(((n - 1) as nat) * c + c == n * c) by (nonlinear_arith)
            requires
                n >= 1,
        ;
    }
}

proof fn lemma_prime_records(cfg: BenchConfigView, t: Timer)
    ensures
        records(prime_instrs(cfg), t) == 0,
{
    let s = prime_instrs(cfg);
    assert forall|i: int| 0 <= i < s.len() implies #[trigger] s[i] != InstrView::Record(t) by {
        let p = lecture_steps(cfg.nlec, cfg.nqs, cfg.nusers)[i];
        assert(s[i] == prime_instr(p));
    }
    lemma_records_none(s, t);
}

/// How many durations each timer receives in a run: each user's account
/// creation once per populating (twice in the baseline, which populates the
/// site again after deleting the accounts), `NITERS` reads of the lecture
/// list and of the answers, one anonymization, and one of each other timed
/// operation for each of the benchmarked users (`min(nusers, NITERS)`);
/// none for the operations that the baseline does not have.
pub open spec fn expected_records(cfg: BenchConfigView, t: Timer) -> nat {
    let m = bench_users(cfg);
    if cfg.is_baseline {
        match t {
            Timer::Account => 2 * cfg.nusers,
            Timer::Leclist | Timer::Answers => NITERS as nat,
            Timer::Anon => 1,
            Timer::Questions | Timer::Edit | Timer::Delete => m,
            _ => 0,
        }
    } else {
        match t {
            Timer::Account => cfg.nusers,
            Timer::Leclist | Timer::Answers => NITERS as nat,
            Timer::Anon => 1,
            _ => m,
        }
    }
}

proof fn lemma_populate_records(cfg: BenchConfigView, t: Timer)
    ensures
        records(populate_spec(cfg), t) == if t == Timer::Account { cfg.nusers } else { 0 },
{
    broadcast use lemma_records_add;

    lemma_piece_records(Block::AdminAccount, cfg, 1, t);
    lemma_piece_records(Block::CreateUser, cfg, cfg.nusers, t);
    lemma_prime_records(cfg, t);
    assert(records(Seq::<InstrView>::empty(), t) == 0);
    if t == Timer::Account {
        assert(cfg.nusers * 1 == cfg.nusers);
    } else {
        assert(cfg.nusers * 0 == 0);
    }
}

/// The benchmark script records, under each timer, the durations that
/// `expected_records` gives.
pub proof fn lemma_timer_counts(cfg: BenchConfigView, t: Timer)
    ensures
        records(script_spec(cfg), t) == expected_records(cfg, t),
{
    broadcast use lemma_records_add;

    let m = bench_users(cfg);
    lemma_populate_records(cfg, t);
    lemma_piece_records(Block::AdminLogin, cfg, 1, t);
    lemma_piece_records(Block::AdminRead, cfg, NITERS as nat, t);
    lemma_piece_records(Block::Logout, cfg, 1, t);
    lemma_piece_records(Block::BaselineRead, cfg, m, t);
    lemma_piece_records(Block::BaselineEditDelete, cfg, m, t);
    lemma_piece_records(Block::Reset, cfg, if cfg.prime { 1 } else { 0 }, t);
    lemma_piece_records(Block::Anonymize, cfg, 1, t);
    lemma_piece_records(Block::WriteStats, cfg, 1, t);
    lemma_piece_records(Block::EditNonanon, cfg, m, t);
    lemma_piece_records(Block::DeleteNonanon, cfg, m, t);
    lemma_piece_records(Block::RestoreNonanon, cfg, m, t);
    lemma_piece_records(Block::AnonCheck, cfg, m, t);
    lemma_piece_records(Block::AnonEdit, cfg, m, t);
    lemma_piece_records(Block::NewAnswerCheck, cfg, 1, t);
    lemma_piece_records(Block::DeleteComp, cfg, m, t);
    lemma_piece_records(Block::DeleteCheck, cfg, 1, t);
    lemma_piece_records(Block::RestoreComp, cfg, m, t);
    lemma_piece_records(Block::RestoreCheck, cfg, 1, t);
    assert(m * 1 == m && m * 0 == 0 && (NITERS as nat) * 1 == NITERS && (NITERS as nat) * 0 == 0);
    match t {
        Timer::Account => {},
        Timer::Anon => {},
        Timer::Leclist => {},
        Timer::Answers => {},
        Timer::Questions => {},
        Timer::Edit => {},
        Timer::Delete => {},
        Timer::Restore => {},
        Timer::EditNonanon => {},
        Timer::DeleteNonanon => {},
        Timer::RestoreNonanon => {},
    }
}

/// A step whose outcome passes issues the next instruction of the script:
/// it moves `pc` on by one and asks for that instruction's action; in
/// particular it records a duration under timer `t` exactly when that
/// instruction is `Record(t)`.
pub proof fn lemma_step_follows_script(script: Seq<InstrView>, st: BenchStateView, ev: Option<EventView>)
    requires
        st.pc < script.len(),
        st.pc == 0 || absorb(script[st.pc - 1], st, ev) == Ok::<BenchStateView, Failure>(st),
        issue(script[st.pc as int], st) is Some,
    ensures
        spec_bench_step(script, st, ev).0.pc == st.pc + 1,
        spec_bench_step(script, st, ev).1 == issue(script[st.pc as int], st)->Some_0,
        forall|t: Timer|
            spec_bench_step(script, st, ev).1 == ActionView::Record(t) <==> #[trigger] script[st.pc as int]
                == InstrView::Record(t),
{
}

} // verus!

verus! {

/// The actions of a run from state `st` in which the outcomes handed back
/// are `evs`, one per step.
pub open spec fn run_actions(
    script: Seq<InstrView>,
    st: BenchStateView,
    evs: Seq<Option<EventView>>,
) -> Seq<ActionView>
    decreases evs.len(),
{
    if evs.len() == 0 {
        Seq::empty()
    } else {
        let (next, a) = spec_bench_step(script, st, evs[0]);
        seq![a] + run_actions(script, next, evs.drop_first())
    }
}

/// How many actions record a duration under timer `t`.
pub open spec fn action_records(acts: Seq<ActionView>, t: Timer) -> nat
    decreases acts.len(),
{
    if acts.len() == 0 {
        0
    } else {
        (if acts[0] == ActionView::Record(t) { 1nat } else { 0nat }) + action_records(
            acts.drop_first(),
            t,
        )
    }
}

/// No action of a run is a failure.
pub open spec fn no_failure(acts: Seq<ActionView>) -> bool {
    forall|i: int| 0 <= i < acts.len() ==> !(#[trigger] acts[i] is Fail)
}

proof fn lemma_absorb_keeps_pc(i: InstrView, st: BenchStateView, ev: Option<EventView>)
    ensures
        absorb(i, st, ev) is Ok ==> absorb(i, st, ev)->Ok_0.pc == st.pc,
{
}

proof fn lemma_records_front(s: Seq<InstrView>, t: Timer)
    requires
        s.len() > 0,
    ensures
        records(s, t) == (if s[0] == InstrView::Record(t) { 1nat } else { 0nat }) + records(
            s.drop_first(),
            t,
        ),
{
    broadcast use {lemma_records_push, lemma_records_add};

    assert(s =~= seq![s[0]] + s.drop_first());
    assert(records(Seq::<InstrView>::empty(), t) == 0);
}

proof fn lemma_run_from(script: Seq<InstrView>, st: BenchStateView, evs: Seq<Option<EventView>>, t: Timer)
    requires
        st.pc <= script.len(),
        evs.len() == script.len() - st.pc + 1,
        no_failure(run_actions(script, st, evs)),
    ensures
        run_actions(script, st, evs).last() == ActionView::Done,
        action_records(run_actions(script, st, evs), t) == records(script.skip(st.pc as int), t),
    decreases evs.len(),
{
    let acts = run_actions(script, st, evs);
    let (next, a) = spec_bench_step(script, st, evs[0]);
    assert(acts[0] == a);
    assert(!(a is Fail));
    if 0 < st.pc <= script.len() {
        lemma_absorb_keeps_pc(script[st.pc - 1], st, evs[0]);
    }
    let rest = run_actions(script, next, evs.drop_first());
    assert(acts.drop_first() =~= rest);
    assert(no_failure(rest)) by {
        assert forall|i: int| 0 <= i < rest.len() implies !(#[trigger] rest[i] is Fail) by {
            assert(rest[i] == acts[i + 1]);
        }
    }
    if st.pc == script.len() {
        assert(a == ActionView::Done);
        assert(evs.drop_first().len() == 0);
        assert(rest.len() == 0);
        assert(acts.len() == 1);
        assert(script.skip(st.pc as int).len() == 0);
        assert(records(script.skip(st.pc as int), t) == 0);
        assert(action_records(rest, t) == 0);
    } else {
        assert(next.pc == st.pc + 1);
        lemma_run_from(script, next, evs.drop_first(), t);
        let tail = script.skip(st.pc as int);
        lemma_records_front(tail, t);
        assert(tail.drop_first() =~= script.skip((st.pc + 1) as int));
        assert(tail[0] == script[st.pc as int]);
        assert((a == ActionView::Record(t)) <==> (script[st.pc as int] == InstrView::Record(t)));
        assert(acts.last() == rest.last());
    }
}

/// A whole run of the benchmark script, from its start until it is done, in
/// which no check fails: it ends with `Done`, and it records under each
/// timer exactly the durations that `expected_records` gives.
pub proof fn lemma_run_records(cfg: BenchConfigView, evs: Seq<Option<EventView>>, t: Timer)
    requires
        evs.len() == script_spec(cfg).len() + 1,
        no_failure(run_actions(script_spec(cfg), start_spec(cfg), evs)),
    ensures
        run_actions(script_spec(cfg), start_spec(cfg), evs).last() == ActionView::Done,
        action_records(run_actions(script_spec(cfg), start_spec(cfg), evs), t) == expected_records(
            cfg,
            t,
        ),
{
    let script = script_spec(cfg);
    lemma_run_from(script, start_spec(cfg), evs, t);
    assert(script.skip(0) =~= script);
    lemma_timer_counts(cfg, t);
}

} // verus!

verus! {

/// A row count check passes exactly when the query handed back that many
/// rows: with another number of rows the run stops, reporting the number
/// wanted and the number found.
pub proof fn lemma_count_check(
    script: Seq<InstrView>,
    st: BenchStateView,
    sql: Seq<char>,
    column: Option<usize>,
    n: nat,
    rows: Seq<Seq<char>>,
)
    requires
        0 < st.pc <= script.len(),
        script[st.pc - 1] == (InstrView::Query { sql, column, check: RowCheckView::Count(n) }),
        n <= usize::MAX,
        rows.len() <= usize::MAX,
    ensures
        rows.len() != n ==> spec_bench_step(script, st, Some(EventView::Rows(rows))).1
            == ActionView::Fail(Failure::RowCount { wanted: n as usize, found: rows.len() as usize }),
        rows.len() == n ==> !(spec_bench_step(script, st, Some(EventView::Rows(rows))).1 is Fail)
            || spec_bench_step(script, st, Some(EventView::Rows(rows))).1
            == ActionView::Fail(Failure::NoSuchUser),
{
}

/// The line of the statistics file of each timer, in the order in which the
/// durations are written: accounts, anonymization, lecture list, answers,
/// questions, edits, deletions, restores, then the edits, deletions and
/// restores of the users' own data.
pub proof fn lemma_slot_order()
    ensures
        slot_of(Timer::Account) == 0,
        slot_of(Timer::Anon) == 1,
        slot_of(Timer::Leclist) == 2,
        slot_of(Timer::Answers) == 3,
        slot_of(Timer::Questions) == 4,
        slot_of(Timer::Edit) == 5,
        slot_of(Timer::Delete) == 6,
        slot_of(Timer::Restore) == 7,
        slot_of(Timer::EditNonanon) == 8,
        slot_of(Timer::DeleteNonanon) == 9,
        slot_of(Timer::RestoreNonanon) == 10,
{
}

/// The start state of a run has one empty API key and one empty disguise
/// id for each user of the run.
pub proof fn lemma_start_slots(cfg: BenchConfigView)
    ensures
        start_spec(cfg).pc == 0,
        start_spec(cfg).keys.len() == cfg.nusers,
        start_spec(cfg).dids.len() == cfg.nusers,
        forall|u: int| 0 <= u < cfg.nusers ==> #[trigger] start_spec(cfg).keys[u].len() == 0,
        forall|u: int| 0 <= u < cfg.nusers ==> #[trigger] start_spec(cfg).dids[u].len() == 0,
{
}

} // verus!

verus! {

/// A POST of the script expects the status the site answers it with: 200
/// for creating an account (`/apikey/generate`) and for the anonymous edit
/// (`/anon/edit`), 303, a redirect, for every other POST (log in, log out,
/// answers, deletion, restore, anonymization).
pub open spec fn post_status_ok(i: InstrView) -> bool {
    match i {
        InstrView::Post { path, expect, .. } => expect == if path == "/apikey/generate"@ || path
            == "/anon/edit"@ {
            200u16
        } else {
            303u16
        },
        _ => true,
    }
}

/// Every POST of `s` expects the status the site answers it with.
pub open spec fn posts_ok(s: Seq<InstrView>) -> bool {
    forall|j: int| 0 <= j < s.len() ==> post_status_ok(#[trigger] s[j])
}

proof fn lemma_posts_ok_add(a: Seq<InstrView>, b: Seq<InstrView>)
    requires
        posts_ok(a),
        posts_ok(b),
    ensures
        posts_ok(a + b),
{
    assert forall|j: int| 0 <= j < (a + b).len() implies post_status_ok(#[trigger] (a + b)[j]) by {
        if j < a.len() {
            assert((a + b)[j] == a[j]);
        } else {
            assert((a + b)[j] == b[j - a.len()]);
        }
    }
}

proof fn lemma_post_paths()
    ensures
        "/apikey/login"@ != "/apikey/generate"@,
        "/apikey/login"@ != "/anon/edit"@,
        "/apikey/logout"@ != "/apikey/generate"@,
        "/apikey/logout"@ != "/anon/edit"@,
        "/questions/0"@ != "/apikey/generate"@,
        "/questions/0"@ != "/anon/edit"@,
        "/delete"@ != "/apikey/generate"@,
        "/delete"@ != "/anon/edit"@,
        "/restore"@ != "/apikey/generate"@,
        "/restore"@ != "/anon/edit"@,
        "/admin/anonymize"@ != "/apikey/generate"@,
        "/admin/anonymize"@ != "/anon/edit"@,
{
    reveal_strlit("/apikey/generate");
    reveal_strlit("/anon/edit");
    reveal_strlit("/apikey/login");
    reveal_strlit("/apikey/logout");
    reveal_strlit("/questions/0");
    reveal_strlit("/delete");
    reveal_strlit("/restore");
    reveal_strlit("/admin/anonymize");
    assert("/apikey/generate"@.len() == 16);
    assert("/anon/edit"@.len() == 10);
    assert("/apikey/login"@.len() == 13);
    assert("/apikey/logout"@.len() == 14);
    assert("/questions/0"@.len() == 12);
    assert("/delete"@.len() == 7);
    assert("/restore"@.len() == 8);
    assert("/admin/anonymize"@.len() == 16);
    assert("/admin/anonymize"@[2] != "/apikey/generate"@[2]);
}

proof fn lemma_lec_checks_posts(u: nat, k: nat)
    ensures
        posts_ok(lec_checks(u, k)),
    decreases k,
{
    if k > 0 {
        lemma_lec_checks_posts(u, (k - 1) as nat);
        let q = query_i(user_answers_text((k - 1) as nat, email_text(u)), None, RowCheckView::Count(0));
        assert(posts_ok(seq![q]));
        lemma_posts_ok_add(lec_checks(u, (k - 1) as nat), seq![q]);
    }
}

#[verifier::rlimit(40)]
proof fn lemma_block_posts(k: Block, cfg: BenchConfigView, u: nat)
    ensures
        posts_ok(block_spec(k, cfg, u)),
{
    lemma_post_paths();
    reveal_strlit("/apikey/generate");
    reveal_strlit("/anon/edit");
    let b = block_spec(k, cfg, u);
    if k == Block::AnonCheck {
        lemma_lec_checks_posts(u, cfg.nlec);
    } else {
        assert forall|j: int| 0 <= j < b.len() implies post_status_ok(#[trigger] b[j]) by {
            match k {
                Block::CreateUser => {
                    assert(j == 1 ==> b[j] == post_i(
                        "/apikey/generate"@,
                        Some(BodyView::Fixed(form_urlencoded(seq![("email"@, email_text(u))]))),
                        true,
                        200,
                    ));
                },
                _ => {},
            }
        }
    }
}

proof fn lemma_piece_posts(k: Block, cfg: BenchConfigView, n: nat)
    ensures
        posts_ok(piece(k, cfg, n)),
    decreases n,
{
    if n > 0 {
        lemma_piece_posts(k, cfg, (n - 1) as nat);
        lemma_block_posts(k, cfg, (n - 1) as nat);
        lemma_posts_ok_add(piece(k, cfg, (n - 1) as nat), block_spec(k, cfg, (n - 1) as nat));
    }
}

proof fn lemma_prime_posts(cfg: BenchConfigView)
    ensures
        posts_ok(prime_instrs(cfg)),
{
    lemma_post_paths();
    let steps = lecture_steps(cfg.nlec, cfg.nqs, cfg.nusers);
    assert forall|j: int| 0 <= j < prime_instrs(cfg).len() implies post_status_ok(
        #[trigger] prime_instrs(cfg)[j],
    ) by {
        assert(prime_instrs(cfg)[j] == prime_instr(steps[j]));
    }
}

proof fn lemma_populate_posts(cfg: BenchConfigView)
    ensures
        posts_ok(populate_spec(cfg)),
{
    lemma_piece_posts(Block::AdminAccount, cfg, 1);
    lemma_piece_posts(Block::CreateUser, cfg, cfg.nusers);
    lemma_posts_ok_add(piece(Block::AdminAccount, cfg, 1), piece(Block::CreateUser, cfg, cfg.nusers));
    let tail = if cfg.prime {
        prime_instrs(cfg)
    } else {
        Seq::empty()
    };
    lemma_prime_posts(cfg);
    lemma_posts_ok_add(piece(Block::AdminAccount, cfg, 1) + piece(Block::CreateUser, cfg, cfg.nusers), tail);
}

/// Every POST of a run's script expects the status that the site answers
/// it with: 200 where it creates an account or edits anonymously, and 303
/// (a redirect) for every other POST, the anonymization among them.
pub proof fn lemma_script_post_statuses(cfg: BenchConfigView)
    ensures
        forall|j: int| 0 <= j < script_spec(cfg).len() ==> post_status_ok(#[trigger] script_spec(cfg)[j]),
{
    lemma_populate_posts(cfg);
    assert forall|k: Block, n: nat| posts_ok(#[trigger] piece(k, cfg, n)) by {
        lemma_piece_posts(k, cfg, n);
    }
    assert forall|a: Seq<InstrView>, b: Seq<InstrView>| posts_ok(a) && posts_ok(b) implies #[trigger] posts_ok(
        a + b,
    ) by {
        lemma_posts_ok_add(a, b);
    }
    assert(posts_ok(script_spec(cfg)));
}

} // verus!
