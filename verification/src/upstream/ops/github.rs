//! GitHub, for one organisation: each repo's open pull requests and latest
//! workflow run, plus the token owner's unread notifications. Fine-grained token
//! with Contents / Pull requests / Actions / Metadata read on the org's repos
//! and Notifications read.

use super::{counted, flag, flag_json, int_json, int_or_zero, plural, text_in_or_empty, within_or_empty, Report, ReportView, State, Step, StepView};
use crate::json::{bool_field, field, has_just, int_field, integer_number, items_field, items_of, pointed_first, text_field, text_in, text_or_empty, text_or_null, Json, JsonView, Object};
use crate::text::{cat2, cat3, cat5, join, joined, same};
use vstd::prelude::*;

verus! {

/// Repos beyond this many (by last push) are listed without PR and CI detail, to
/// keep one refresh under twenty calls.
pub const DETAILED_REPOS: usize = 8;

/// A pull request as it is shown.
pub open spec fn pr_document(p: JsonView) -> JsonView {
    JsonView::Object(
        map![
            "number"@ => int_or_zero(p, "number"@),
            "title"@ => JsonView::Text(text_or_empty(p, "title"@)),
            "author"@ => JsonView::Text(text_in_or_empty(p, "user"@, "login"@)),
            "draft"@ => flag(p, "draft"@),
            "updated_at"@ => JsonView::Text(text_or_empty(p, "updated_at"@)),
            "url"@ => JsonView::Text(text_or_empty(p, "html_url"@)),
        ],
    )
}

fn pr_json(p: &Json) -> (r: Json)
    ensures
        r@ == pr_document(p@),
{
    let mut o = Object::new();
    o.put("number", int_json(p, "number"));
    o.put_text("title", p.text_or_empty("title"));
    o.put_text("author", within_or_empty(p, "user", "login"));
    o.put("draft", flag_json(p, "draft"));
    o.put_text("updated_at", p.text_or_empty("updated_at"));
    o.put_text("url", p.text_or_empty("html_url"));
    assert(o@ =~= pr_document(p@)->Object_0);
    Json::Object(o)
}

/// A workflow run as it is shown.
pub open spec fn run_document(w: JsonView) -> JsonView {
    JsonView::Object(
        map![
            "name"@ => JsonView::Text(text_or_empty(w, "name"@)),
            "status"@ => JsonView::Text(text_or_empty(w, "status"@)),
            "conclusion"@ => text_or_null(text_field(w, "conclusion"@)),
            "branch"@ => JsonView::Text(text_or_empty(w, "head_branch"@)),
            "updated_at"@ => JsonView::Text(text_or_empty(w, "updated_at"@)),
            "url"@ => JsonView::Text(text_or_empty(w, "html_url"@)),
        ],
    )
}

fn run_json(w: &Json) -> (r: Json)
    ensures
        r@ == run_document(w@),
{
    let mut o = Object::new();
    o.put_text("name", w.text_or_empty("name"));
    o.put_text("status", w.text_or_empty("status"));
    o.put("conclusion", Json::optional_text(w.text_at("conclusion")));
    o.put_text("branch", w.text_or_empty("head_branch"));
    o.put_text("updated_at", w.text_or_empty("updated_at"));
    o.put_text("url", w.text_or_empty("html_url"));
    assert(o@ =~= run_document(w@)->Object_0);
    Json::Object(o)
}

/// A notification as it is shown.
pub open spec fn note_document(n: JsonView) -> JsonView {
    JsonView::Object(
        map![
            "title"@ => JsonView::Text(text_in_or_empty(n, "subject"@, "title"@)),
            "type"@ => JsonView::Text(text_in_or_empty(n, "subject"@, "type"@)),
            "repo"@ => JsonView::Text(text_in_or_empty(n, "repository"@, "full_name"@)),
            "reason"@ => JsonView::Text(text_or_empty(n, "reason"@)),
            "updated_at"@ => JsonView::Text(text_or_empty(n, "updated_at"@)),
        ],
    )
}

fn note_json(n: &Json) -> (r: Json)
    ensures
        r@ == note_document(n@),
{
    let mut o = Object::new();
    o.put_text("title", within_or_empty(n, "subject", "title"));
    o.put_text("type", within_or_empty(n, "subject", "type"));
    o.put_text("repo", within_or_empty(n, "repository", "full_name"));
    o.put_text("reason", n.text_or_empty("reason"));
    o.put_text("updated_at", n.text_or_empty("updated_at"));
    assert(o@ =~= note_document(n@)->Object_0);
    Json::Object(o)
}

/// The latest run of a repo's workflows, if it has any.
pub open spec fn latest_run(runs: JsonView) -> Option<JsonView> {
    match field(runs, "workflow_runs"@) {
        Some(list) => pointed_first(list),
        None => None,
    }
}

/// The run failed.
pub open spec fn run_failed(w: JsonView) -> bool {
    let conclusion = text_field(w, "conclusion"@);
    conclusion == Some("failure"@) || conclusion == Some("timed_out"@) || conclusion == Some(
        "startup_failure"@,
    )
}

/// What is shown of every repo.
pub open spec fn repo_members(repo: JsonView) -> Map<Seq<char>, JsonView> {
    map![
        "name"@ => JsonView::Text(text_or_empty(repo, "name"@)),
        "full_name"@ => JsonView::Text(text_or_empty(repo, "full_name"@)),
        "private"@ => flag(repo, "private"@),
        "pushed_at"@ => JsonView::Text(text_or_empty(repo, "pushed_at"@)),
        "default_branch"@ => JsonView::Text(text_or_empty(repo, "default_branch"@)),
    ]
}

/// The repo at that place. The first ones are shown with their pull requests and
/// their latest run.
pub open spec fn repo_document(answers: Seq<JsonView>, i: int) -> JsonView {
    let repo = items_of(answers[0])[i];
    if i < DETAILED_REPOS {
        let run = match latest_run(answers[2 * i + 2]) {
            Some(w) => run_document(w),
            None => JsonView::Null,
        };
        JsonView::Object(
            repo_members(repo).insert(
                "open_prs"@,
                JsonView::Array(
                    items_of(answers[2 * i + 1]).map_values(|p: JsonView| pr_document(p)),
                ),
            ).insert("last_run"@, run),
        )
    } else {
        JsonView::Object(repo_members(repo))
    }
}

/// The names of the first `n` repos, of those shown in detail, whose latest run
/// failed.
pub open spec fn failing(answers: Seq<JsonView>, n: nat) -> Seq<Seq<char>>
    decreases n,
{
    if n == 0 {
        Seq::empty()
    } else {
        let earlier = failing(answers, (n - 1) as nat);
        if n - 1 < DETAILED_REPOS && (latest_run(answers[2 * n as int]) matches Some(w) && run_failed(
            w,
        )) {
            earlier.push(text_or_empty(items_of(answers[0])[n - 1], "name"@))
        } else {
            earlier
        }
    }
}

/// The open pull requests of the first `n` repos, of those shown in detail.
pub open spec fn open_prs(answers: Seq<JsonView>, n: nat) -> nat
    decreases n,
{
    if n == 0 {
        0
    } else {
        open_prs(answers, (n - 1) as nat) + if n - 1 < DETAILED_REPOS {
            items_of(answers[2 * n - 1]).len()
        } else {
            0
        }
    }
}

/// How many repos are shown in detail.
pub open spec fn detailed(repos: Seq<JsonView>) -> nat {
    if repos.len() < DETAILED_REPOS {
        repos.len()
    } else {
        DETAILED_REPOS as nat
    }
}

/// The report, from all answers: the repos, then for each one shown in detail its
/// pull requests and its runs, then the notifications.
pub open spec fn report_of(org: Seq<char>, answers: Seq<JsonView>) -> ReportView {
    let repos = items_of(answers[0]);
    let notes = items_of(answers[2 * detailed(repos) as int + 1]);
    let bad = failing(answers, repos.len());
    let ci = if bad.len() == 0 {
        "CI green"@
    } else {
        "CI failing: "@ + joined(bad, ", "@)
    };
    ReportView {
        state: if repos.len() == 0 {
            State::Unknown
        } else if bad.len() == 0 {
            State::Healthy
        } else {
            State::Warn
        },
        headline: counted(open_prs(answers, repos.len()), "open PR"@, "open PRs"@) + " · "@ + ci
            + " · "@ + counted(notes.len(), "notification"@, "notifications"@),
        detail: JsonView::Object(
            map![
                "org"@ => JsonView::Text(org),
                "repos"@ => JsonView::Array(
                    Seq::new(repos.len(), |i: int| repo_document(answers, i)),
                ),
                "notifications"@ => JsonView::Array(
                    notes.map_values(|n: JsonView| note_document(n)),
                ),
            ],
        ),
    }
}

/// What a check does next, given the answers it has.
pub open spec fn step_of(
    base: Seq<char>,
    org: Seq<char>,
    answers: Seq<JsonView>,
) -> StepView {
    if answers.len() == 0 {
        StepView::Get(base + "/orgs/"@ + org + "/repos?per_page=50&sort=pushed"@)
    } else {
        let repos = items_of(answers[0]);
        let asked = answers.len() - 1;
        if asked < 2 * detailed(repos) {
            let full = text_or_empty(repos[asked / 2], "full_name"@);
            if asked % 2 == 0 {
                StepView::Get(base + "/repos/"@ + full + "/pulls?state=open&per_page=10"@)
            } else {
                StepView::Get(base + "/repos/"@ + full + "/actions/runs?per_page=1"@)
            }
        } else if asked == 2 * detailed(repos) {
            StepView::Get(base + "/notifications?per_page=10"@)
        } else {
            StepView::Done(report_of(org, answers))
        }
    }
}

/// What a check does next, given the answers it has.
pub fn check(base: &str, org: &str, answers: &Vec<Json>) -> (r: Step)
    ensures
        r@ == step_of(base@, org@, answers.deep_view()),
{
    if answers.len() == 0 {
        let url = cat2(cat3(base, "/orgs/", org).as_str(), "/repos?per_page=50&sort=pushed");
        return Step::Get(url);
    }
    let ghost views = answers.deep_view();
    assert(views[0] == answers@[0]@);
    let repos = answers[0].items();
    let shown: usize = if repos.len() < DETAILED_REPOS {
        repos.len()
    } else {
        DETAILED_REPOS
    };
    let asked: usize = answers.len() - 1;
    if asked < 2 * shown {
        let full = repos[asked / 2].text_or_empty("full_name");
        assert(items_of(views[0])[asked as int / 2] == repos@[asked as int / 2]@);
        let head = cat3(base, "/repos/", full);
        if asked % 2 == 0 {
            Step::Get(cat2(head.as_str(), "/pulls?state=open&per_page=10"))
        } else {
            Step::Get(cat2(head.as_str(), "/actions/runs?per_page=1"))
        }
    } else if asked == 2 * shown {
        Step::Get(cat2(base, "/notifications?per_page=10"))
    } else {
        Step::Done(report(org, answers))
    }
}

fn prs_json(pulls: &Json) -> (r: Vec<Json>)
    ensures
        r.deep_view() == items_of(pulls@).map_values(|p: JsonView| pr_document(p)),
{
    let items = pulls.items();
    let mut out: Vec<Json> = Vec::new();
    let n: usize = items.len();
    for i in 0..n
        invariant
            n == items@.len(),
            out@.len() == i,
            forall|k: int| 0 <= k < i ==> (#[trigger] out@[k])@ == pr_document(items@[k]@),
    {
        out.push(pr_json(&items[i]));
    }
    assert(out.deep_view() =~= items_of(pulls@).map_values(|p: JsonView| pr_document(p)));
    out
}

fn notes_json(notes: &Json) -> (r: Vec<Json>)
    ensures
        r.deep_view() == items_of(notes@).map_values(|n: JsonView| note_document(n)),
{
    let items = notes.items();
    let mut out: Vec<Json> = Vec::new();
    let n: usize = items.len();
    for i in 0..n
        invariant
            n == items@.len(),
            out@.len() == i,
            forall|k: int| 0 <= k < i ==> (#[trigger] out@[k])@ == note_document(items@[k]@),
    {
        out.push(note_json(&items[i]));
    }
    assert(out.deep_view() =~= items_of(notes@).map_values(|n: JsonView| note_document(n)));
    out
}

fn repo_base(repo: &Json) -> (r: Object)
    ensures
        r@ == repo_members(repo@),
{
    let mut o = Object::new();
    o.put_text("name", repo.text_or_empty("name"));
    o.put_text("full_name", repo.text_or_empty("full_name"));
    o.put("private", flag_json(repo, "private"));
    o.put_text("pushed_at", repo.text_or_empty("pushed_at"));
    o.put_text("default_branch", repo.text_or_empty("default_branch"));
    assert(o@ =~= repo_members(repo@));
    o
}

fn newest_run(runs: &Json) -> (r: Option<&Json>)
    ensures
        match r {
            Some(w) => latest_run(runs@) == Some(w@),
            None => latest_run(runs@) is None,
        },
{
    match runs.get("workflow_runs") {
        Some(list) => list.first(),
        None => None,
    }
}

fn has_failed(w: &Json) -> (r: bool)
    ensures
        r == run_failed(w@),
{
    match w.text_at("conclusion") {
        Some(conclusion) => same(conclusion, "failure") || same(conclusion, "timed_out") || same(
            conclusion,
            "startup_failure",
        ),
        None => false,
    }
}

/// The report, from all answers.
fn report(org: &str, answers: &Vec<Json>) -> (r: Report)
    requires
        answers@.len() > 0,
        answers@.len() >= 2 * detailed(items_of(answers@[0]@)) + 2,
    ensures
        r@ == report_of(org@, answers.deep_view()),
{
    let ghost views = answers.deep_view();
    assert forall|k: int| 0 <= k < answers@.len() implies #[trigger] views[k] == answers@[k]@ by {}
    let repos = answers[0].items();
    let n: usize = repos.len();
    let shown: usize = if n < DETAILED_REPOS {
        n
    } else {
        DETAILED_REPOS
    };
    let mut entries: Vec<Json> = Vec::new();
    let mut bad: Vec<String> = Vec::new();
    let mut prs: u128 = 0;
    assert(bad.deep_view() =~= failing(views, 0));
    for i in 0..n
        invariant
            n == repos@.len(),
            views == answers.deep_view(),
            items_of(views[0]) == repos@.map_values(|j: Json| j@),
            answers@.len() >= 2 * detailed(items_of(views[0])) + 2,
            entries@.len() == i,
            forall|k: int|
                0 <= k < i ==> (#[trigger] entries@[k])@ == repo_document(views, k),
            bad.deep_view() == failing(views, i as nat),
            prs == open_prs(views, i as nat),
            prs <= 0xffff_ffff_ffff_ffff * i,
    {
        let repo = &repos[i];
        assert(items_of(views[0])[i as int] == repo@);
        let mut entry = repo_base(repo);
        if i < DETAILED_REPOS {
            let ghost g = i as int;
            assert(i < detailed(items_of(views[0])));
            let pulls = &answers[2 * i + 1];
            let runs = &answers[2 * i + 2];
            assert(views[2 * g + 1] == pulls@ && views[2 * g + 2] == runs@);
            let found = prs_json(pulls);
            let count: usize = found.len();
            assert(found.deep_view().len() == items_of(pulls@).len());
            prs = prs + count as u128;
            entry.put("open_prs", Json::array(found));
            match newest_run(runs) {
                Some(w) => {
                    if has_failed(w) {
                        let ghost earlier = bad.deep_view();
                        bad.push(repo.text_or_empty("name").to_owned());
                        assert(bad.deep_view() =~= earlier.push(text_or_empty(repo@, "name"@)));
                    }
                    entry.put("last_run", run_json(w));
                },
                None => {
                    entry.put("last_run", Json::Null);
                },
            }
            assert(2 * (g + 1) == 2 * g + 2 && 2 * (g + 1) - 1 == 2 * g + 1);
        }
        entries.push(Json::Object(entry));
    }
    let ghost listed = Seq::new(items_of(views[0]).len(), |i: int| repo_document(views, i));
    assert(entries.deep_view() =~= listed);
    let notes_at: usize = 2 * shown + 1;
    assert(views[notes_at as int] == answers@[notes_at as int]@);
    let notes = notes_json(&answers[notes_at]);
    let ghost want = items_of(views[notes_at as int]).map_values(|n: JsonView| note_document(n));
    let state = if n == 0 {
        State::Unknown
    } else if bad.len() == 0 {
        State::Healthy
    } else {
        State::Warn
    };
    assert(bad@.len() == bad.deep_view().len());
    let ci = if bad.len() == 0 {
        "CI green".to_owned()
    } else {
        cat2("CI failing: ", join(&bad, ", ").as_str())
    };
    assert(notes@.len() == notes.deep_view().len());
    let headline = cat5(
        plural(prs, "open PR", "open PRs").as_str(),
        " · ",
        ci.as_str(),
        " · ",
        plural(notes.len() as u128, "notification", "notifications").as_str(),
    );
    let mut detail = Object::new();
    detail.put_text("org", org);
    detail.put("repos", Json::array(entries));
    detail.put("notifications", Json::array(notes));
    assert(detail@ =~= map![
        "org"@ => JsonView::Text(org@),
        "repos"@ => JsonView::Array(listed),
        "notifications"@ => JsonView::Array(want),
    ]);
    Report { state, headline, detail: Json::Object(detail) }
}

// ---- laws --------------------------------------------------------------------------

/// One refresh makes at most eighteen calls, so fewer than twenty: with that many
/// answers the check is done.
pub proof fn a_refresh_stays_under_twenty_calls(
    base: Seq<char>,
    org: Seq<char>,
    answers: Seq<JsonView>,
)
    requires
        answers.len() >= 18,
    ensures
        step_of(base, org, answers) is Done,
{
}

/// The latest workflow run of the repo at that place failed.
pub open spec fn ci_failed(answers: Seq<JsonView>, i: int) -> bool {
    field(answers[2 * i + 2], "workflow_runs"@) matches Some(JsonView::Array(runs)) && runs.len()
        > 0 && (text_field(runs[0], "conclusion"@) matches Some(end) && (end == "failure"@ || end
        == "timed_out"@ || end == "startup_failure"@))
}

/// The runs of the repos shown in detail are lists, as the service gives them.
pub open spec fn runs_are_lists(answers: Seq<JsonView>) -> bool {
    forall|i: int|
        0 <= i < detailed(items_of(answers[0])) ==> (#[trigger] field(
            answers[2 * i + 2],
            "workflow_runs"@,
        ) matches Some(runs) ==> runs is Array)
}

/// The state follows the workflows: `warn` just where the latest run of one of the
/// first eight repos failed, timed out or did not start; `ok` where none did; and
/// `unknown` without repos.
pub proof fn the_state_follows_the_workflows(org: Seq<char>, answers: Seq<JsonView>)
    requires
        runs_are_lists(answers),
    ensures
        ({
            let repos = items_of(answers[0]);
            let state = report_of(org, answers).state;
            let some = exists|i: int|
                0 <= i < repos.len() && i < 8 && #[trigger] ci_failed(answers, i);
            &&& state == State::Unknown <==> repos.len() == 0
            &&& state == State::Warn <==> some
            &&& state == State::Healthy <==> repos.len() > 0 && !some
        }),
{
    failing_among_the_first(answers, items_of(answers[0]).len());
}

proof fn failing_among_the_first(answers: Seq<JsonView>, n: nat)
    requires
        n <= items_of(answers[0]).len(),
        runs_are_lists(answers),
    ensures
        failing(answers, n).len() > 0 <==> exists|i: int|
            0 <= i < n && i < 8 && #[trigger] ci_failed(answers, i),
    decreases n,
{
    if n > 0 {
        failing_among_the_first(answers, (n - 1) as nat);
        let g = n - 1;
        assert(2 * g + 2 == 2 * n);
        if g < 8 {
            assert(field(answers[2 * g + 2], "workflow_runs"@) matches Some(runs) ==> runs
                is Array);
            assert(ci_failed(answers, g) <==> (latest_run(answers[2 * n as int]) matches Some(w)
                && run_failed(w)));
        }
    }
}

/// The headline counts the open pull requests and the unread notifications, and
/// says that the workflows are green where none failed.
pub proof fn the_headline_counts_what_is_open(org: Seq<char>, answers: Seq<JsonView>)
    requires
        runs_are_lists(answers),
        forall|i: int| 0 <= i < 8 ==> !#[trigger] ci_failed(answers, i),
    ensures
        ({
            let repos = items_of(answers[0]);
            let prs = open_prs(answers, repos.len());
            let notes = items_of(answers[2 * detailed(repos) as int + 1]).len();
            report_of(org, answers).headline == (if prs == 1 {
                "1 open PR"@
            } else {
                crate::text::decimal(prs) + " open PRs"@
            }) + " · CI green · "@ + (if notes == 1 {
                "1 notification"@
            } else {
                crate::text::decimal(notes) + " notifications"@
            })
        }),
        open_prs(answers, 0) == 0,
        forall|n: nat| #![trigger open_prs(answers, n)]
            1 <= n <= 8 ==> open_prs(answers, n) == open_prs(answers, (n - 1) as nat) + items_of(
                answers[2 * n - 1],
            ).len(),
        forall|n: nat| n > 8 ==> #[trigger] open_prs(answers, n) == open_prs(answers, (n - 1) as nat),
{
    let repos = items_of(answers[0]);
    failing_among_the_first(answers, repos.len());
    assert(failing(answers, repos.len()).len() == 0);
    let prs = open_prs(answers, repos.len());
    let notes = items_of(answers[2 * detailed(repos) as int + 1]).len();
    reveal_strlit("1 ");
    reveal_strlit(" ");
    reveal_strlit("open PR");
    reveal_strlit("open PRs");
    reveal_strlit("1 open PR");
    reveal_strlit(" open PRs");
    reveal_strlit("notification");
    reveal_strlit("notifications");
    reveal_strlit("1 notification");
    reveal_strlit(" notifications");
    reveal_strlit(" · ");
    reveal_strlit("CI green");
    reveal_strlit(" · CI green · ");
    assert("1 "@ + "open PR"@ =~= "1 open PR"@);
    assert("1 "@ + "notification"@ =~= "1 notification"@);
    assert(crate::text::decimal(prs) + " "@ + "open PRs"@ =~= crate::text::decimal(prs)
        + " open PRs"@);
    assert(crate::text::decimal(notes) + " "@ + "notifications"@ =~= crate::text::decimal(notes)
        + " notifications"@);
    let a = counted(prs, "open PR"@, "open PRs"@);
    let b = counted(notes, "notification"@, "notifications"@);
    assert(a + " · "@ + "CI green"@ + " · "@ + b =~= a + " · CI green · "@ + b);
}

/// The workflows that failed are named in the headline.
pub proof fn a_failing_workflow_is_named(org: Seq<char>, answers: Seq<JsonView>, name: Seq<char>)
    requires
        items_of(answers[0]).len() == 1,
        runs_are_lists(answers),
        ci_failed(answers, 0),
        text_field(items_of(answers[0])[0], "name"@) == Some(name),
    ensures
        ({
            let prs = items_of(answers[1]).len();
            let notes = items_of(answers[3]).len();
            report_of(org, answers).headline == counted(prs, "open PR"@, "open PRs"@) + " · "@
                + ("CI failing: "@ + name) + " · "@ + counted(
                notes,
                "notification"@,
                "notifications"@,
            )
        }),
{
    reveal_with_fuel(failing, 2);
    reveal_with_fuel(open_prs, 2);
    assert(field(answers[2], "workflow_runs"@) matches Some(runs) ==> runs is Array) by {
        assert(field(answers[2 * 0int + 2], "workflow_runs"@) matches Some(runs) ==> runs is Array);
    }
    assert(failing(answers, 1) =~= seq![name]);
}

/// The text member of a document is that of the other, or empty where there is none.
pub open spec fn tells(shown: JsonView, name: Seq<char>, of: Option<Seq<char>>) -> bool {
    text_field(shown, name) == Some(
        match of {
            Some(text) => text,
            None => Seq::empty(),
        },
    )
}

/// Each repo is shown, in order, by what the service says of it; each of the first
/// eight with its own pull requests and its own latest run.
pub proof fn each_repo_is_shown_as_it_is(org: Seq<char>, answers: Seq<JsonView>, i: int)
    requires
        0 <= i < items_of(answers[0]).len(),
    ensures
        ({
            let repo = items_of(answers[0])[i];
            let shown = items_field(report_of(org, answers).detail, "repos"@);
            &&& text_field(report_of(org, answers).detail, "org"@) == Some(org)
            &&& shown.len() == items_of(answers[0]).len()
            &&& tells(shown[i], "name"@, text_field(repo, "name"@))
            &&& tells(shown[i], "full_name"@, text_field(repo, "full_name"@))
            &&& tells(shown[i], "pushed_at"@, text_field(repo, "pushed_at"@))
            &&& tells(shown[i], "default_branch"@, text_field(repo, "default_branch"@))
            &&& bool_field(shown[i], "private"@) == Some(
                bool_field(repo, "private"@) == Some(true),
            )
            &&& i < 8 ==> {
                &&& items_field(shown[i], "open_prs"@) == items_of(answers[2 * i + 1]).map_values(
                    |p: JsonView| pr_document(p),
                )
                &&& field(shown[i], "last_run"@) == Some(
                    match latest_run(answers[2 * i + 2]) {
                        Some(w) => run_document(w),
                        None => JsonView::Null,
                    },
                )
            }
            &&& i >= 8 ==> field(shown[i], "open_prs"@) is None && field(shown[i], "last_run"@)
                is None
        }),
{
    reveal_strlit("org");
    reveal_strlit("repos");
    reveal_strlit("notifications");
    reveal_strlit("name");
    reveal_strlit("full_name");
    reveal_strlit("private");
    reveal_strlit("pushed_at");
    reveal_strlit("default_branch");
    reveal_strlit("open_prs");
    reveal_strlit("last_run");
    assert("org"@.len() == 3 && "repos"@.len() == 5 && "notifications"@.len() == 13
        && "name"@.len() == 4 && "full_name"@.len() == 9 && "private"@.len() == 7
        && "pushed_at"@.len() == 9 && "default_branch"@.len() == 14 && "open_prs"@.len() == 8
        && "last_run"@.len() == 8);
    assert("full_name"@[0] != "pushed_at"@[0]);
    assert("open_prs"@[0] != "last_run"@[0]);
    let shown = items_field(report_of(org, answers).detail, "repos"@);
    assert(shown[i] == repo_document(answers, i));
}

/// A pull request is shown by its number, title, author, whether it is a draft, when
/// it was updated and where it is.
pub proof fn a_pull_request_is_shown_as_it_is(p: JsonView)
    ensures
        ({
            let shown = pr_document(p);
            &&& has_just(
                shown,
                set!["number"@, "title"@, "author"@, "draft"@, "updated_at"@, "url"@],
            )
            &&& field(shown, "number"@) == Some(int_or_zero(p, "number"@))
            &&& tells(shown, "title"@, text_field(p, "title"@))
            &&& tells(shown, "author"@, text_in(p, "user"@, "login"@))
            &&& bool_field(shown, "draft"@) == Some(bool_field(p, "draft"@) == Some(true))
            &&& tells(shown, "updated_at"@, text_field(p, "updated_at"@))
            &&& tells(shown, "url"@, text_field(p, "html_url"@))
        }),
{
    reveal_strlit("number");
    reveal_strlit("title");
    reveal_strlit("author");
    reveal_strlit("draft");
    reveal_strlit("updated_at");
    reveal_strlit("url");
    assert("number"@.len() == 6 && "title"@.len() == 5 && "author"@.len() == 6
        && "draft"@.len() == 5 && "updated_at"@.len() == 10 && "url"@.len() == 3);
    assert("number"@[0] != "author"@[0]);
    assert("title"@[0] != "draft"@[0]);
    assert(pr_document(p)->Object_0.dom() =~= set![
        "number"@,
        "title"@,
        "author"@,
        "draft"@,
        "updated_at"@,
        "url"@,
    ]);
}

/// A run is shown by its name, its status, how it ended, its branch, when it was
/// updated and where it is; one that has not ended has a null for its end.
pub proof fn a_run_is_shown_as_it_is(w: JsonView)
    ensures
        ({
            let shown = run_document(w);
            &&& has_just(
                shown,
                set!["name"@, "status"@, "conclusion"@, "branch"@, "updated_at"@, "url"@],
            )
            &&& tells(shown, "name"@, text_field(w, "name"@))
            &&& tells(shown, "status"@, text_field(w, "status"@))
            &&& field(shown, "conclusion"@) == Some(text_or_null(text_field(w, "conclusion"@)))
            &&& tells(shown, "branch"@, text_field(w, "head_branch"@))
            &&& tells(shown, "updated_at"@, text_field(w, "updated_at"@))
            &&& tells(shown, "url"@, text_field(w, "html_url"@))
        }),
{
    reveal_strlit("name");
    reveal_strlit("status");
    reveal_strlit("conclusion");
    reveal_strlit("branch");
    reveal_strlit("updated_at");
    reveal_strlit("url");
    assert("name"@.len() == 4 && "status"@.len() == 6 && "conclusion"@.len() == 10
        && "branch"@.len() == 6 && "updated_at"@.len() == 10 && "url"@.len() == 3);
    assert("status"@[0] != "branch"@[0]);
    assert("conclusion"@[0] != "updated_at"@[0]);
    assert(run_document(w)->Object_0.dom() =~= set![
        "name"@,
        "status"@,
        "conclusion"@,
        "branch"@,
        "updated_at"@,
        "url"@,
    ]);
}

/// Each notification is shown, in order, by its title, its type, its repo, why it
/// came and when.
pub proof fn each_notification_is_shown_as_it_is(org: Seq<char>, answers: Seq<JsonView>, k: int)
    requires
        0 <= k < items_of(answers[2 * detailed(items_of(answers[0])) as int + 1]).len(),
    ensures
        ({
            let notes = items_of(answers[2 * detailed(items_of(answers[0])) as int + 1]);
            let shown = items_field(report_of(org, answers).detail, "notifications"@);
            &&& shown.len() == notes.len()
            &&& has_just(shown[k], set!["title"@, "type"@, "repo"@, "reason"@, "updated_at"@])
            &&& tells(shown[k], "title"@, text_in(notes[k], "subject"@, "title"@))
            &&& tells(shown[k], "type"@, text_in(notes[k], "subject"@, "type"@))
            &&& tells(shown[k], "repo"@, text_in(notes[k], "repository"@, "full_name"@))
            &&& tells(shown[k], "reason"@, text_field(notes[k], "reason"@))
            &&& tells(shown[k], "updated_at"@, text_field(notes[k], "updated_at"@))
        }),
{
    reveal_strlit("org");
    reveal_strlit("repos");
    reveal_strlit("notifications");
    reveal_strlit("title");
    reveal_strlit("type");
    reveal_strlit("repo");
    reveal_strlit("reason");
    reveal_strlit("updated_at");
    assert("org"@.len() == 3 && "repos"@.len() == 5 && "notifications"@.len() == 13
        && "title"@.len() == 5 && "type"@.len() == 4 && "repo"@.len() == 4
        && "reason"@.len() == 6 && "updated_at"@.len() == 10);
    assert("repos"@[0] != "title"@[0]);
    assert("type"@[0] != "repo"@[0]);
    let notes = items_of(answers[2 * detailed(items_of(answers[0])) as int + 1]);
    let shown = items_field(report_of(org, answers).detail, "notifications"@);
    assert(shown[k] == note_document(notes[k]));
    assert(shown[k]->Object_0.dom() =~= set![
        "title"@,
        "type"@,
        "repo"@,
        "reason"@,
        "updated_at"@,
    ]);
}

/// The organisation's repos are asked for first, by their last push; then, of each
/// of the first eight in order, its open pull requests and its latest run, by its
/// own full name; and the notifications last.
pub proof fn each_repo_is_asked_for_its_own(
    base: Seq<char>,
    org: Seq<char>,
    answers: Seq<JsonView>,
    i: int,
    full: Seq<char>,
)
    requires
        answers.len() > 0,
        0 <= i < items_of(answers[0]).len(),
        i < 8,
        text_field(items_of(answers[0])[i], "full_name"@) == Some(full),
    ensures
        step_of(base, org, Seq::empty()) == StepView::Get(
            base + "/orgs/"@ + org + "/repos?per_page=50&sort=pushed"@,
        ),
        answers.len() == 2 * i + 1 ==> step_of(base, org, answers) == StepView::Get(
            base + "/repos/"@ + full + "/pulls?state=open&per_page=10"@,
        ),
        answers.len() == 2 * i + 2 ==> step_of(base, org, answers) == StepView::Get(
            base + "/repos/"@ + full + "/actions/runs?per_page=1"@,
        ),
        ({
            let n = items_of(answers[0]).len();
            let last = if n < 8 {
                2 * n + 1
            } else {
                17
            };
            &&& answers.len() == last ==> step_of(base, org, answers) == StepView::Get(
                base + "/notifications?per_page=10"@,
            )
            &&& answers.len() > last ==> step_of(base, org, answers) == StepView::Done(
                report_of(org, answers),
            )
        }),
{
    let asked = answers.len() - 1;
    if asked == 2 * i || asked == 2 * i + 1 {
        assert(asked / 2 == i && asked % 2 == asked - 2 * i);
    }
}

/// The repos whose latest run failed are named in their order, of those that are shown
/// in detail.
pub proof fn failing_workflows_are_named_in_order(org: Seq<char>, answers: Seq<JsonView>, n: nat)
    requires
        runs_are_lists(answers),
        n < items_of(answers[0]).len(),
    ensures
        failing(answers, 0).len() == 0,
        n < 8 && ci_failed(answers, n as int) ==> failing(answers, n + 1) == failing(
            answers,
            n,
        ).push(text_or_empty(items_of(answers[0])[n as int], "name"@)),
        n >= 8 || !ci_failed(answers, n as int) ==> failing(answers, n + 1) == failing(answers, n),
        n < 8 && ci_failed(answers, n as int) ==> ({
            let repos = items_of(answers[0]);
            let notes = items_of(answers[2 * detailed(repos) as int + 1]).len();
            report_of(org, answers).headline == counted(
                open_prs(answers, repos.len()),
                "open PR"@,
                "open PRs"@,
            ) + " · "@ + ("CI failing: "@ + joined(failing(answers, repos.len()), ", "@)) + " · "@
                + counted(notes, "notification"@, "notifications"@)
        }),
{
    failing_among_the_first(answers, items_of(answers[0]).len());
    if n < 8 {
        let i = n as int;
        assert(field(answers[2 * i + 2], "workflow_runs"@) matches Some(runs) ==> runs is Array);
        assert(2 * (n + 1) as int == 2 * i + 2);
    }
}

} // verus!
