//! The benchmark's bookkeeping: the names, statements, request bodies and
//! expected row counts it works with, and the lines of its statistics file.
use vstd::prelude::*;
use crate::decimal::{
    dec_nat, dec_value, lemma_dec_nat_digits, lemma_dec_nat_injective, lemma_dec_value_of_dec_nat,
    push_decimal,
};
use crate::form::{
    form_body, form_encode, form_safe_char, form_urlencoded,
    lemma_form_encode_safe,
};
use crate::sql::pair_views;
use crate::text::{
    contains_text, free_of, has_infix, join, joined, lemma_joined_len, lemma_split_joined,
    occurs_at, split_at_char, views,
};

verus! {

/// How many times the admin reads are repeated, and the most users that
/// the per-user phases go through.
pub const NITERS: usize = 200;

/// The suffix of the file that holds a user's API key.
pub const APIKEY_FILE: &'static str = "apikey.txt";

/// The suffix of the file that holds a user's share.
pub const SHARE_FILE: &'static str = "share.txt";

/// The suffix of the file that holds a user's disguise id.
pub const DID_FILE: &'static str = "dids.txt";

/// The number of users that the per-user phases go through.
pub fn bench_user_count(nusers: usize) -> (n: usize)
    ensures
        n == if nusers < NITERS { nusers } else { NITERS },
{
    if nusers < NITERS {
        nusers
    } else {
        NITERS
    }
}

/// `<u>@mail.edu`.
pub open spec fn email_text(u: nat) -> Seq<char> {
    dec_nat(u) + "@mail.edu"@
}

/// The e-mail address of the benchmark's user number `u`.
pub fn user_email(u: usize) -> (email: String)
    ensures
        email@ == email_text(u as nat),
{
    let mut email = String::new();
    push_decimal(&mut email, u as u128);
    email.append("@mail.edu");
    email
}

/// Two users have the same e-mail address only if they are the same user.
pub proof fn lemma_user_email_injective(a: nat, b: nat)
    requires
        email_text(a) == email_text(b),
    ensures
        a == b,
{
    let sa = email_text(a);
    let n = "@mail.edu"@.len();
    assert(dec_nat(a) =~= sa.subrange(0, sa.len() - n));
    assert(dec_nat(b) =~= sa.subrange(0, sa.len() - n));
    lemma_dec_nat_injective(a, b);
}

/// `<email>.<file>`.
pub open spec fn user_file_text(email: Seq<char>, file: Seq<char>) -> Seq<char> {
    email + "."@ + file
}

/// The name of a user's file of the given kind (`APIKEY_FILE`, `DID_FILE`).
pub fn user_file_name(email: &str, file: &str) -> (name: String)
    ensures
        name@ == user_file_text(email@, file@),
{
    let mut name = email.to_string();
    name.append(".");
    name.append(file);
    name
}

/// `INSERT INTO lectures VALUES (<l>, 'lec<l>');`.
pub open spec fn lecture_row_text(l: nat) -> Seq<char> {
    "INSERT INTO lectures VALUES ("@ + dec_nat(l) + ", 'lec"@ + dec_nat(l) + "');"@
}

/// The statement that adds lecture `l`.
pub fn lecture_row_sql(l: usize) -> (q: String)
    ensures
        q@ == lecture_row_text(l as nat),
{
    let mut q = String::new();
    q.append("INSERT INTO lectures VALUES (");
    push_decimal(&mut q, l as u128);
    q.append(", 'lec");
    push_decimal(&mut q, l as u128);
    q.append("');");
    assert(q@ =~= lecture_row_text(l as nat));
    q
}

/// `INSERT INTO questions VALUES (<l>, <q>, 'lec<l>question<q>');`.
pub open spec fn question_row_text(l: nat, q: nat) -> Seq<char> {
    "INSERT INTO questions VALUES ("@ + dec_nat(l) + ", "@ + dec_nat(q) + ", 'lec"@ + dec_nat(l)
        + "question"@ + dec_nat(q) + "');"@
}

/// The statement that adds question `q` of lecture `l`.
pub fn question_row_sql(l: usize, q: usize) -> (s: String)
    ensures
        s@ == question_row_text(l as nat, q as nat),
{
    let mut s = String::new();
    s.append("INSERT INTO questions VALUES (");
    push_decimal(&mut s, l as u128);
    s.append(", ");
    push_decimal(&mut s, q as u128);
    s.append(", 'lec");
    push_decimal(&mut s, l as u128);
    s.append("question");
    push_decimal(&mut s, q as u128);
    s.append("');");
    assert(s@ =~= question_row_text(l as nat, q as nat));
    s
}

/// `INSERT INTO answers VALUES ('<u>@mail.edu', <l>, <q>,
/// 'lec<l>q<q>answer<u>', '1000-01-01 00:00:00');`.
pub open spec fn answer_row_text(u: nat, l: nat, q: nat) -> Seq<char> {
    "INSERT INTO answers VALUES ('"@ + dec_nat(u) + "@mail.edu', "@ + dec_nat(l) + ", "@ + dec_nat(
        q,
    ) + ", 'lec"@ + dec_nat(l) + "q"@ + dec_nat(q) + "answer"@ + dec_nat(u)
        + "', '1000-01-01 00:00:00');"@
}

/// The statement that adds user `u`'s answer to question `q` of lecture `l`.
pub fn answer_row_sql(u: usize, l: usize, q: usize) -> (s: String)
    ensures
        s@ == answer_row_text(u as nat, l as nat, q as nat),
{
    let mut s = String::new();
    s.append("INSERT INTO answers VALUES ('");
    push_decimal(&mut s, u as u128);
    s.append("@mail.edu', ");
    push_decimal(&mut s, l as u128);
    s.append(", ");
    push_decimal(&mut s, q as u128);
    s.append(", 'lec");
    push_decimal(&mut s, l as u128);
    s.append("q");
    push_decimal(&mut s, q as u128);
    s.append("answer");
    push_decimal(&mut s, u as u128);
    s.append("', '1000-01-01 00:00:00');");
    assert(s@ =~= answer_row_text(u as nat, l as nat, q as nat));
    s
}

/// The answer row that the benchmark adds for user `u` carries that user's
/// e-mail address, right after the opening quote of its first value: the
/// address by which the per-user answer query looks the row up.
pub proof fn lemma_answer_row_email(u: nat, l: nat, q: nat)
    ensures
        occurs_at(answer_row_text(u, l, q), email_text(u), "INSERT INTO answers VALUES ('"@.len() as int),
{
    let pre = "INSERT INTO answers VALUES ('"@;
    let row = answer_row_text(u, l, q);
    let e = email_text(u);
    reveal_strlit("@mail.edu");
    reveal_strlit("@mail.edu', ");
    assert("@mail.edu', "@ =~= "@mail.edu"@ + "', "@) by {
        reveal_strlit("', ");
    }
    assert(row =~= pre + e + "', "@ + dec_nat(l) + ", "@ + dec_nat(q) + ", 'lec"@ + dec_nat(l) + "q"@ + dec_nat(q)
        + "answer"@ + dec_nat(u) + "', '1000-01-01 00:00:00');"@);
    assert(row.subrange(pre.len() as int, (pre.len() + e.len()) as int) =~= e);
}

/// `SELECT answers.* FROM answers WHERE lec = <l> AND email = '<email>';`.
pub open spec fn user_answers_text(l: nat, email: Seq<char>) -> Seq<char> {
    "SELECT answers.* FROM answers WHERE lec = "@ + dec_nat(l) + " AND email = '"@ + email + "';"@
}

/// The query for a user's answers to lecture `l`.
pub fn user_answers_sql(l: usize, email: &str) -> (s: String)
    ensures
        s@ == user_answers_text(l as nat, email@),
{
    let mut s = String::new();
    s.append("SELECT answers.* FROM answers WHERE lec = ");
    push_decimal(&mut s, l as u128);
    s.append(" AND email = '");
    s.append(email);
    s.append("';");
    assert(s@ =~= user_answers_text(l as nat, email@));
    s
}

/// `<prefix><n>`.
pub open spec fn numbered_text(prefix: Seq<char>, n: nat) -> Seq<char> {
    prefix + dec_nat(n)
}

/// A text followed by a number, such as the path `/questions/<lec>`.
pub fn numbered(prefix: &str, n: usize) -> (s: String)
    ensures
        s@ == numbered_text(prefix@, n as nat),
{
    let mut s = prefix.to_string();
    push_decimal(&mut s, n as u128);
    s
}

/// `answers.<lec>`: the form field of the answer to question `lec`.
pub open spec fn answer_field_text(lec: nat) -> Seq<char> {
    "answers."@ + dec_nat(lec)
}

/// `new_answer_user_<u>_lec_<lec>`.
pub open spec fn new_answer_text(u: nat, lec: nat) -> Seq<char> {
    "new_answer_user_"@ + dec_nat(u) + "_lec_"@ + dec_nat(lec)
}

/// The form field of the answer to question `lec`.
pub fn answer_field(lec: usize) -> (s: String)
    ensures
        s@ == answer_field_text(lec as nat),
{
    numbered("answers.", lec)
}

/// The edited answer that user `u` posts for lecture `lec`.
pub fn new_answer(u: usize, lec: usize) -> (s: String)
    ensures
        s@ == new_answer_text(u as nat, lec as nat),
{
    let mut s = String::new();
    s.append("new_answer_user_");
    push_decimal(&mut s, u as u128);
    s.append("_lec_");
    push_decimal(&mut s, lec as u128);
    assert(s@ =~= new_answer_text(u as nat, lec as nat));
    s
}

/// The body with which an account is requested for `email`.
pub fn account_form(email: &str) -> (body: String)
    ensures
        body@ == form_urlencoded(seq![("email"@, email@)]),
{
    let mut pairs: Vec<(String, String)> = Vec::new();
    pairs.push(("email".to_string(), email.to_string()));
    assert(pair_views(pairs@) =~= seq![("email"@, email@)]);
    form_body(&pairs)
}

/// The body with which a user logs in with an API key.
pub fn login_form(email: &str, key: &str) -> (body: String)
    ensures
        body@ == form_urlencoded(seq![("email"@, email@), ("key"@, key@)]),
{
    let mut pairs: Vec<(String, String)> = Vec::new();
    pairs.push(("email".to_string(), email.to_string()));
    pairs.push(("key".to_string(), key.to_string()));
    assert(pair_views(pairs@) =~= seq![("email"@, email@), ("key"@, key@)]);
    form_body(&pairs)
}

/// The body with which a user restores an account from a disguise.
pub fn restore_form(did: &str, email: &str, apikey: &str) -> (body: String)
    ensures
        body@ == form_urlencoded(seq![("did"@, did@), ("email"@, email@), ("apikey"@, apikey@)]),
{
    let mut pairs: Vec<(String, String)> = Vec::new();
    pairs.push(("did".to_string(), did.to_string()));
    pairs.push(("email".to_string(), email.to_string()));
    pairs.push(("apikey".to_string(), apikey.to_string()));
    assert(pair_views(pairs@) =~= seq![("did"@, did@), ("email"@, email@), ("apikey"@, apikey@)]);
    form_body(&pairs)
}

/// The body with which a user asks to edit the answers that anonymization
/// moved to a pseudoprincipal, for one lecture.
pub fn anon_edit_form(email: &str, apikey: &str, lec_id: usize) -> (body: String)
    ensures
        body@ == form_urlencoded(
            seq![("email"@, email@), ("apikey"@, apikey@), ("lec_id"@, dec_nat(lec_id as nat))],
        ),
{
    let mut pairs: Vec<(String, String)> = Vec::new();
    pairs.push(("email".to_string(), email.to_string()));
    pairs.push(("apikey".to_string(), apikey.to_string()));
    pairs.push(("lec_id".to_string(), numbered("", lec_id)));
    proof {
        reveal_strlit("");
    }
    assert(pair_views(pairs@) =~= seq![
        ("email"@, email@),
        ("apikey"@, apikey@),
        ("lec_id"@, dec_nat(lec_id as nat)),
    ]);
    form_body(&pairs)
}

/// The (name, value) pair of the edited answer of user `u` to lecture `lec`.
pub open spec fn answers_fields(u: nat, lec: nat) -> Seq<(Seq<char>, Seq<char>)> {
    seq![(answer_field_text(lec), new_answer_text(u, lec))]
}

proof fn lemma_dec_nat_form_safe(n: nat)
    ensures
        forall|j: int| 0 <= j < dec_nat(n).len() ==> form_safe_char(
            #[trigger] dec_nat(n)[j],
        ),
    decreases n,
{
    if n >= 10 {
        lemma_dec_nat_form_safe(n / 10);
        let s = dec_nat(n);
        assert forall|j: int| 0 <= j < s.len() implies form_safe_char(#[trigger] s[j]) by {
            if j < s.len() - 1 {
                assert(s[j] == dec_nat(n / 10)[j]);
            }
        }
    }
}

/// The form body with which user `u` posts an edited answer to lecture
/// `lec`: `answers.<lec>=new_answer_user_<u>_lec_<lec>`, which form encoding
/// leaves as it is.
pub fn answers_form(u: usize, lec: usize) -> (body: String)
    ensures
        body@ == form_urlencoded(answers_fields(u as nat, lec as nat)),
        body@ == answer_field_text(lec as nat) + "="@ + new_answer_text(u as nat, lec as nat),
{
    let mut pairs: Vec<(String, String)> = Vec::new();
    pairs.push((answer_field(lec), new_answer(u, lec)));
    let ghost ps = pair_views(pairs@);
    assert(ps =~= answers_fields(u as nat, lec as nat));
    proof {
        lemma_dec_nat_form_safe(u as nat);
        lemma_dec_nat_form_safe(lec as nat);
        reveal_strlit("answers.");
        reveal_strlit("new_answer_user_");
        reveal_strlit("_lec_");
        let f = answer_field_text(lec as nat);
        let v = new_answer_text(u as nat, lec as nat);
        assert forall|j: int| 0 <= j < f.len() implies form_safe_char(#[trigger] f[j]) by {
            if j >= 8 {
                assert(f[j] == dec_nat(lec as nat)[j - 8]);
            }
        }
        assert forall|j: int| 0 <= j < v.len() implies form_safe_char(#[trigger] v[j]) by {
            let du = dec_nat(u as nat);
            if j >= 16 + du.len() + 5 {
                assert(v[j] == dec_nat(lec as nat)[j - 16 - du.len() - 5]);
            } else if j >= 16 + du.len() {
            } else if j >= 16 {
                assert(v[j] == du[j - 16]);
            }
        }
        lemma_form_encode_safe(f);
        lemma_form_encode_safe(v);
        assert(ps.map_values(
            |p: (Seq<char>, Seq<char>)| form_encode(p.0) + "="@ + form_encode(p.1),
        ) =~= seq![f + "="@ + v]);
        assert(form_urlencoded(ps) == f + "="@ + v);
    }
    form_body(&pairs)
}

/// The answer rows left once the benchmarked users deleted their accounts:
/// `nlec * nqs * (nusers - min(nusers, NITERS))`.
pub fn expected_answers_after_delete(nlec: usize, nqs: usize, nusers: usize) -> (n: usize)
    requires
        nlec * nqs <= usize::MAX,
        nlec * nqs * (nusers - if nusers < NITERS { nusers } else { NITERS }) <= usize::MAX,
    ensures
        n == nlec * nqs * (nusers - if nusers < NITERS { nusers } else { NITERS }),
{
    let rest = nusers - bench_user_count(nusers);
    let per_user = nlec * nqs;
    per_user * rest
}

/// The user rows once every user restored the account: the admin, each
/// user, and one pseudoprincipal for each user and lecture:
/// `1 + nusers * (nlec + 1)`.
pub fn expected_users_after_restore(nusers: usize, nlec: usize) -> (n: usize)
    requires
        nlec + 1 <= usize::MAX,
        1 + nusers * (nlec + 1) <= usize::MAX,
    ensures
        n == 1 + nusers * (nlec + 1),
{
    proof {
        assert(nusers * (nlec + 1) >= 0) by (nonlinear_arith);
    }
    1 + nusers * (nlec + 1)
}

/// Some text of `texts` contains `pat`.
pub open spec fn some_contains(texts: Seq<Seq<char>>, pat: Seq<char>) -> bool {
    exists|i: int| 0 <= i < texts.len() && has_infix(#[trigger] texts[i], pat)
}

/// Whether some text of `texts` contains `pat`.
pub fn any_contains(texts: &Vec<String>, pat: &str) -> (b: bool)
    ensures
        b == some_contains(views(texts@), pat@),
{
    let mut i: usize = 0;
    while i < texts.len()
        invariant
            i <= texts.len(),
            forall|j: int| 0 <= j < i ==> !has_infix(#[trigger] views(texts@)[j], pat@),
        decreases texts.len() - i,
    {
        if contains_text(texts[i].as_str(), pat) {
            assert(has_infix(views(texts@)[i as int], pat@));
            return true;
        }
        i = i + 1;
    }
    false
}

/// `../../../results/websubmit_results/disguise_stats_<nlec>lec_<nusers>users`
/// then `_baseline` for the baseline, else `_dryrun` for a dry run, then
/// `_proxy` behind a proxy, then `.csv`.
pub open spec fn stats_file_text(nlec: nat, nusers: nat, proxy: bool, dryrun: bool, is_baseline: bool) -> Seq<char> {
    let mode = if is_baseline { "_baseline"@ } else if dryrun { "_dryrun"@ } else { ""@ };
    let suffix = if proxy { "_proxy"@ } else { ""@ };
    "../../../results/websubmit_results/disguise_stats_"@ + dec_nat(nlec) + "lec_"@ + dec_nat(nusers)
        + "users"@ + mode + suffix + ".csv"@
}

/// `s` ends with `t`.
pub open spec fn ends_with(s: Seq<char>, t: Seq<char>) -> bool {
    t.len() <= s.len() && s.subrange(s.len() - t.len(), s.len() as int) == t
}

/// The part of a statistics file name that names the run's size.
pub open spec fn stats_file_stem(nlec: nat, nusers: nat) -> Seq<char> {
    "../../../results/websubmit_results/disguise_stats_"@ + dec_nat(nlec) + "lec_"@ + dec_nat(nusers)
        + "users"@
}

proof fn lemma_ends_with_after(p: Seq<char>, w: Seq<char>, t: Seq<char>)
    requires
        t.len() <= w.len(),
        w.subrange(w.len() - t.len(), w.len() as int) == t,
    ensures
        ends_with(p + w, t),
{
    assert((p + w).subrange((p + w).len() - t.len(), (p + w).len() as int) =~= w.subrange(
        w.len() - t.len(),
        w.len() as int,
    ));
}

proof fn lemma_ends_with_char(p: Seq<char>, w: Seq<char>, t: Seq<char>, k: int)
    requires
        ends_with(p + w, t),
        1 <= k <= t.len(),
        k <= w.len(),
    ensures
        w[w.len() - k] == t[t.len() - k],
{
    let s = p + w;
    assert(s.subrange(s.len() - t.len(), s.len() as int)[t.len() - k] == s[s.len() - k]);
}

/// Whatever the size of the run, its statistics file name starts with the
/// stem that names the size and ends in `.csv`; it ends in `_proxy.csv`
/// exactly for a run behind a proxy; before that (or before `.csv`)
/// stands `_baseline` exactly for the baseline, and `_dryrun` exactly for a
/// dry run that is not the baseline.
pub proof fn lemma_stats_file_suffix(nlec: nat, nusers: nat, proxy: bool, dryrun: bool, is_baseline: bool)
    ensures
        ({
            let name = stats_file_text(nlec, nusers, proxy, dryrun, is_baseline);
            let stem = stats_file_stem(nlec, nusers);
            &&& stem.len() <= name.len()
            &&& name.take(stem.len() as int) == stem
            &&& ends_with(name, ".csv"@)
            &&& ends_with(name, "_proxy.csv"@) <==> proxy
            &&& !proxy ==> (ends_with(name, "_baseline.csv"@) <==> is_baseline)
            &&& !proxy ==> (ends_with(name, "_dryrun.csv"@) <==> !is_baseline && dryrun)
            &&& proxy ==> (ends_with(name, "_baseline_proxy.csv"@) <==> is_baseline)
            &&& proxy ==> (ends_with(name, "_dryrun_proxy.csv"@) <==> !is_baseline && dryrun)
        }),
{
    reveal_strlit("users");
    reveal_strlit("_baseline");
    reveal_strlit("_dryrun");
    reveal_strlit("");
    reveal_strlit("_proxy");
    reveal_strlit(".csv");
    reveal_strlit("_proxy.csv");
    reveal_strlit("_baseline.csv");
    reveal_strlit("_dryrun.csv");
    reveal_strlit("_baseline_proxy.csv");
    reveal_strlit("_dryrun_proxy.csv");
    let mode = if is_baseline { "_baseline"@ } else if dryrun { "_dryrun"@ } else { ""@ };
    let proxied = if proxy { "_proxy"@ } else { ""@ };
    let stem = stats_file_stem(nlec, nusers);
    let name = stats_file_text(nlec, nusers, proxy, dryrun, is_baseline);
    let w = "users"@ + mode + proxied + ".csv"@;
    let p = "../../../results/websubmit_results/disguise_stats_"@ + dec_nat(nlec) + "lec_"@ + dec_nat(
        nusers,
    );
    assert(name =~= p + w);
    assert(stem =~= p + "users"@);
    assert(name.take(stem.len() as int) =~= stem);
    // The last character of the run's mode, or of `users` without one.
    let m = "users"@ + mode;
    let last = if is_baseline { 'e' } else if dryrun { 'n' } else { 's' };
    assert(m[m.len() - 1] == last);
    assert(w =~= m + proxied + ".csv"@);
    assert(w.subrange(w.len() - 4, w.len() as int) =~= ".csv"@);
    lemma_ends_with_after(p, w, ".csv"@);
    if proxy {
        assert(w.subrange(w.len() - 10, w.len() as int) =~= "_proxy.csv"@);
        lemma_ends_with_after(p, w, "_proxy.csv"@);
        assert(w[w.len() - 11] == last);
        if is_baseline {
            assert(w.subrange(w.len() - 19, w.len() as int) =~= "_baseline_proxy.csv"@);
            lemma_ends_with_after(p, w, "_baseline_proxy.csv"@);
        } else if ends_with(name, "_baseline_proxy.csv"@) {
            lemma_ends_with_char(p, w, "_baseline_proxy.csv"@, 11);
        }
        if !is_baseline && dryrun {
            assert(w.subrange(w.len() - 17, w.len() as int) =~= "_dryrun_proxy.csv"@);
            lemma_ends_with_after(p, w, "_dryrun_proxy.csv"@);
        } else if ends_with(name, "_dryrun_proxy.csv"@) {
            lemma_ends_with_char(p, w, "_dryrun_proxy.csv"@, 11);
        }
    } else {
        assert(w[w.len() - 5] == last);
        if ends_with(name, "_proxy.csv"@) {
            lemma_ends_with_char(p, w, "_proxy.csv"@, 5);
        }
        if is_baseline {
            assert(w.subrange(w.len() - 13, w.len() as int) =~= "_baseline.csv"@);
            lemma_ends_with_after(p, w, "_baseline.csv"@);
        } else if ends_with(name, "_baseline.csv"@) {
            lemma_ends_with_char(p, w, "_baseline.csv"@, 5);
        }
        if !is_baseline && dryrun {
            assert(w.subrange(w.len() - 11, w.len() as int) =~= "_dryrun.csv"@);
            lemma_ends_with_after(p, w, "_dryrun.csv"@);
        } else if ends_with(name, "_dryrun.csv"@) {
            lemma_ends_with_char(p, w, "_dryrun.csv"@, 5);
        }
    }
}

/// The file that the statistics of a run are written to.
pub fn stats_file_name(nlec: usize, nusers: usize, proxy: bool, dryrun: bool, is_baseline: bool) -> (name: String)
    ensures
        name@ == stats_file_text(nlec as nat, nusers as nat, proxy, dryrun, is_baseline),
        name@.take(stats_file_stem(nlec as nat, nusers as nat).len() as int) == stats_file_stem(
            nlec as nat,
            nusers as nat,
        ),
        ends_with(name@, ".csv"@),
        ends_with(name@, "_proxy.csv"@) <==> proxy,
        !proxy ==> (ends_with(name@, "_baseline.csv"@) <==> is_baseline),
        !proxy ==> (ends_with(name@, "_dryrun.csv"@) <==> !is_baseline && dryrun),
        proxy ==> (ends_with(name@, "_baseline_proxy.csv"@) <==> is_baseline),
        proxy ==> (ends_with(name@, "_dryrun_proxy.csv"@) <==> !is_baseline && dryrun),
{
    proof {
        lemma_stats_file_suffix(nlec as nat, nusers as nat, proxy, dryrun, is_baseline);
    }
    let mut name = String::new();
    name.append("../../../results/websubmit_results/disguise_stats_");
    push_decimal(&mut name, nlec as u128);
    name.append("lec_");
    push_decimal(&mut name, nusers as u128);
    name.append("users");
    if is_baseline {
        name.append("_baseline");
    } else if dryrun {
        name.append("_dryrun");
    }
    if proxy {
        name.append("_proxy");
    }
    name.append(".csv");
    proof {
        reveal_strlit("");
    }
    assert(name@ =~= stats_file_text(nlec as nat, nusers as nat, proxy, dryrun, is_baseline));
    name
}

/// The decimal numerals of a sequence of numbers.
pub open spec fn numerals(ns: Seq<u128>) -> Seq<Seq<char>> {
    ns.map_values(|n: u128| dec_nat(n as nat))
}

/// A line of the statistics file: the durations in microseconds, in
/// decimal, separated by commas.
pub fn micros_line(micros: &Vec<u128>) -> (line: String)
    ensures
        line@ == joined(numerals(micros@), ","@),
{
    let ghost want = numerals(micros@);
    let mut parts: Vec<String> = Vec::new();
    let mut i: usize = 0;
    while i < micros.len()
        invariant
            i <= micros.len(),
            want == numerals(micros@),
            parts@.len() == i,
            views(parts@) =~= want.take(i as int),
        decreases micros.len() - i,
    {
        let mut s = String::new();
        push_decimal(&mut s, micros[i]);
        parts.push(s);
        proof {
            assert(views(parts@)[i as int] == want[i as int]);
            assert(views(parts@) =~= want.take(i + 1));
        }
        i = i + 1;
    }
    assert(want.take(micros.len() as int) =~= want);
    join(&parts, ",")
}

} // verus!

verus! {

/// The numbers that decimal fields stand for.
pub open spec fn field_values(fields: Seq<Seq<char>>) -> Seq<nat> {
    fields.map_values(|f: Seq<char>| dec_value(f))
}

/// Numbers as natural numbers.
pub open spec fn nat_values(ns: Seq<u128>) -> Seq<nat> {
    ns.map_values(|n: u128| n as nat)
}

/// A line of the statistics file is empty exactly when there are no
/// durations; otherwise splitting it at the commas and reading each field
/// as a decimal number gives back the durations, one field per duration, in
/// order.
pub proof fn lemma_micros_line_fields(ns: Seq<u128>)
    ensures
        joined(numerals(ns), ","@).len() == 0 <==> ns.len() == 0,
        ns.len() > 0 ==> field_values(split_at_char(joined(numerals(ns), ","@), ',')) == nat_values(ns),
{
    reveal_strlit(",");
    assert(","@ =~= seq![',']);
    let parts = numerals(ns);
    if ns.len() == 0 {
        assert(joined(parts, ","@).len() == 0);
    } else {
        assert forall|i: int| 0 <= i < parts.len() implies free_of(#[trigger] parts[i], ',') by {
            lemma_dec_nat_digits(ns[i] as nat);
        }
        lemma_split_joined(parts, ',');
        let fields = split_at_char(joined(parts, ","@), ',');
        assert(fields == parts);
        assert forall|i: int| 0 <= i < ns.len() implies #[trigger] field_values(fields)[i] == nat_values(ns)[i] by {
            lemma_dec_value_of_dec_nat(ns[i] as nat);
        }
        assert(field_values(fields) =~= nat_values(ns));
        lemma_joined_len(parts, ","@);
        assert(parts.last() == dec_nat(ns.last() as nat));
        assert(dec_nat(ns.last() as nat).len() >= 1);
    }
}

} // verus!
