use prscan::export::{column_titles, excel_plan};
use prscan::pagination::{AuthorScan, Harvest, PageEvent, StopReason, MAX_PAGES};
use prscan::query::{decimal_text, page_url_of, AuthorSource, QueryError, QueryPullParam, PULLS_ENDPOINT};
use prscan::record::{lex_less, PullRequest};
use prscan::sink::{Finish, OutputSink};
use prscan::window::cutoff_text;

fn pr(author: &str, created_at: &str) -> PullRequest {
    PullRequest {
        org: "src-openeuler".to_string(),
        repo: "kernel".to_string(),
        reference: "42".to_string(),
        sig: "Kernel".to_string(),
        link: format!("https://gitee.com/src-openeuler/kernel/pulls/{}", created_at.len()),
        state: "open".to_string(),
        author: author.to_string(),
        assignees: "a,b".to_string(),
        created_at: created_at.to_string(),
        updated_at: created_at.to_string(),
        title: "fix".to_string(),
        labels: "kind/bug".to_string(),
        draft: false,
        mergeable: true,
    }
}

fn params(author: Option<&str>, state: Option<&str>, inventory: Option<&str>) -> QueryPullParam {
    QueryPullParam {
        author: author.map(|s| s.to_string()),
        state: state.map(|s| s.to_string()),
        duration: 7,
        exc: false,
        inventory: inventory.map(|s| s.to_string()),
    }
}

/// Runs one author's scan against pages indexed from 1; returns (requests, accepted, reason).
fn run_scan(api: &dyn Fn(u64) -> PageEvent, cutoff: &str) -> (u64, Vec<PullRequest>, StopReason) {
    let mut scan = AuthorScan::new("https://x/pulls?author=a&state=open".to_string(), cutoff.to_string());
    let mut fetches: u64 = 0;
    let mut all = Vec::new();
    while let Some(url) = scan.next_page_url() {
        assert_eq!(url, format!("https://x/pulls?author=a&state=open&page={}", scan.page));
        fetches += 1;
        let ev = api(scan.page);
        all.extend(scan.take_page(ev));
    }
    (fetches, all, scan.stopped.unwrap())
}

fn now() -> chrono::NaiveDateTime {
    chrono::NaiveDate::from_ymd_opt(2024, 5, 10).unwrap().and_hms_opt(12, 0, 0).unwrap()
}

#[test]
fn lex_order_of_timestamps() {
    assert!(lex_less("2024-05-02 23:59:59", "2024-05-03 00:00:00"));
    assert!(!lex_less("2024-05-03 00:00:00", "2024-05-03 00:00:00"));
    assert!(!lex_less("2024-05-04 00:00:00", "2024-05-03 00:00:00"));
    assert!(lex_less("2024", "2024-05"));
    assert!(!lex_less("2024-05", "2024"));
    assert!(lex_less("", "a"));
    assert!(!lex_less("", ""));
}

#[test]
fn decimal_page_numbers() {
    assert_eq!(decimal_text(0), "0");
    assert_eq!(decimal_text(7), "7");
    assert_eq!(decimal_text(10), "10");
    assert_eq!(decimal_text(99), "99");
    assert_eq!(decimal_text(1234567890), "1234567890");
    assert_eq!(page_url_of("base?author=a&state=open", 12), "base?author=a&state=open&page=12");
}

#[test]
fn url_for_given_user() {
    let p = params(None, Some("open"), Some("list.txt"));
    let u = QueryPullParam::url_splice(PULLS_ENDPOINT, &p, Some("bob".to_string()));
    assert_eq!(u, Ok("https://ipb.osinfra.cn/pulls?author=bob&state=open".to_string()));
}

#[test]
fn url_for_single_author() {
    let p = params(Some("alice"), Some("merged"), None);
    let u = QueryPullParam::url_splice("e?", &p, None);
    assert_eq!(u, Ok("e?author=alice&state=merged".to_string()));
}

#[test]
fn url_without_author_or_state() {
    let p = params(None, Some("open"), None);
    assert_eq!(QueryPullParam::url_splice("e?", &p, None), Err(QueryError::MissingAuthor));
    let p = params(Some("alice"), None, None);
    assert_eq!(QueryPullParam::url_splice("e?", &p, None), Err(QueryError::MissingState));
    assert_eq!(
        QueryPullParam::url_splice("e?", &p, Some("bob".to_string())),
        Err(QueryError::MissingState)
    );
}

#[test]
fn param_check_rejects_both_and_neither() {
    let both = params(Some("alice"), Some("open"), Some("list.txt"));
    assert!(matches!(both.param_check(), Err(QueryError::AuthorInventoryConflict)));
    let neither = params(None, Some("open"), None);
    assert!(matches!(neither.param_check(), Err(QueryError::AuthorInventoryConflict)));
    let single = params(Some("alice"), Some("open"), None);
    assert!(matches!(single.param_check(), Ok(AuthorSource::Single(a)) if a == "alice"));
    let inv = params(None, Some("open"), Some("list.txt"));
    assert!(matches!(inv.param_check(), Ok(AuthorSource::Inventory(p)) if p == "list.txt"));
}

#[test]
fn cutoff_is_days_before_now() {
    assert_eq!(cutoff_text(now(), 7), Ok("2024-05-03 12:00:00".to_string()));
    assert_eq!(cutoff_text(now(), 0), Ok("2024-05-10 12:00:00".to_string()));
    assert_eq!(cutoff_text(now(), 10), Ok("2024-04-30 12:00:00".to_string()));
}

#[test]
fn cutoff_overflow_is_rejected() {
    assert_eq!(cutoff_text(now(), u64::MAX), Err(QueryError::DurationOverflow));
    assert_eq!(cutoff_text(now(), 100_000_000), Err(QueryError::DurationOverflow));
}

#[test]
fn end_marker_stops_scan() {
    let mut scan = AuthorScan::new("b".to_string(), "2024-01-01 00:00:00".to_string());
    let got = scan.take_page(PageEvent::EndOfPages);
    assert!(got.is_empty());
    assert_eq!(scan.stopped, Some(StopReason::EndOfPages));
    assert_eq!(scan.next_page_url(), None);
}

#[test]
fn empty_page_advances() {
    let mut scan = AuthorScan::new("b".to_string(), "2024-01-01 00:00:00".to_string());
    let got = scan.take_page(PageEvent::Page(Vec::new()));
    assert!(got.is_empty());
    assert_eq!(scan.stopped, None);
    assert_eq!(scan.page, 2);
    assert_eq!(scan.next_page_url(), Some("b&page=2".to_string()));
}

#[test]
fn pages_then_end_marker_fetch_count() {
    let cutoff = "2024-05-03 12:00:00";
    for k in [0u64, 1, 3, 98] {
        let api = move |p: u64| {
            if p <= k {
                PageEvent::Page(vec![pr("a", "2024-05-09 00:00:00"), pr("a", "2024-05-08 00:00:00")])
            } else {
                PageEvent::EndOfPages
            }
        };
        let (fetches, all, why) = run_scan(&api, cutoff);
        assert_eq!(fetches, k + 1);
        assert_eq!(all.len() as u64, 2 * k);
        assert_eq!(why, StopReason::EndOfPages);
    }
}

#[test]
fn mixed_page_keeps_prefix_only() {
    let cutoff = "2024-05-03 12:00:00";
    let api = |p: u64| {
        if p == 1 {
            PageEvent::Page(vec![pr("a", "2024-05-05 00:00:00")])
        } else {
            PageEvent::Page(vec![
                pr("a", "2024-05-04 00:00:00"),
                pr("a", "2024-05-03 12:00:00"),
                pr("a", "2024-05-01 00:00:00"),
                pr("a", "2024-05-09 00:00:00"),
            ])
        }
    };
    let (fetches, all, why) = run_scan(&api, cutoff);
    assert_eq!(fetches, 2);
    assert_eq!(why, StopReason::CutoffReached);
    let dates: Vec<&str> = all.iter().map(|r| r.created_at.as_str()).collect();
    assert_eq!(dates, vec!["2024-05-05 00:00:00", "2024-05-04 00:00:00", "2024-05-03 12:00:00"]);
}

#[test]
fn never_more_than_page_limit() {
    let api = |_p: u64| PageEvent::Page(vec![pr("a", "2030-01-01 00:00:00")]);
    let (fetches, all, why) = run_scan(&api, "2024-01-01 00:00:00");
    assert_eq!(fetches, MAX_PAGES);
    assert_eq!(fetches, 99);
    assert_eq!(all.len(), 99);
    assert_eq!(why, StopReason::PageLimitReached);
    let empty = |_p: u64| PageEvent::Page(Vec::new());
    let (fetches, _, why) = run_scan(&empty, "2024-01-01 00:00:00");
    assert_eq!(fetches, 99);
    assert_eq!(why, StopReason::PageLimitReached);
}

#[test]
fn harvest_holds_nothing_before_cutoff() {
    let cutoff = "2024-05-03 12:00:00";
    let mut h = Harvest::new(cutoff.to_string());
    for author in ["bob", "carol", "dave"] {
        let mut scan = h.start_author(format!("e?author={}&state=open", author));
        assert_eq!(scan.cutoff, cutoff);
        let got = scan.take_page(PageEvent::Page(vec![
            pr(author, "2024-05-09 00:00:00"),
            pr(author, "2024-05-01 00:00:00"),
        ]));
        h.absorb(got);
    }
    h.absorb(vec![pr("eve", "2024-05-02 00:00:00"), pr("eve", "2024-05-04 00:00:00")]);
    let authors: Vec<&str> = h.records.iter().map(|r| r.author.as_str()).collect();
    assert_eq!(authors, vec!["bob", "carol", "dave", "eve"]);
    assert!(h.records.iter().all(|r| r.created_at.as_str() >= cutoff));
}

#[test]
fn console_line_fields() {
    let r = pr("alice", "2024-05-10 08:00:00");
    assert_eq!(
        r.console_line(),
        "alice, Kernel, kernel, https://gitee.com/src-openeuler/kernel/pulls/19, 2024-05-10 08:00:00"
    );
}

#[test]
fn duplicate_copies_every_field() {
    let r = pr("alice", "2024-05-10 08:00:00");
    let d = r.duplicate();
    assert_eq!(d.author, r.author);
    assert_eq!(d.reference, r.reference);
    assert_eq!(d.labels, r.labels);
    assert_eq!(d.assignees, r.assignees);
    assert_eq!(d.mergeable, r.mergeable);
    assert_eq!(d.draft, r.draft);
}

#[test]
fn excel_plan_of_empty_is_none() {
    assert!(excel_plan(&Vec::new()).is_none());
}

#[test]
fn excel_plan_rows_and_name() {
    let recs = vec![pr("alice", "2024-05-10 08:00:00"), pr("bob", "2024-05-09 08:00:00")];
    let plan = excel_plan(&recs).unwrap();
    assert_eq!(plan.file_name, "alice.xlsx");
    assert_eq!(plan.titles, vec!["author", "sig", "repo", "link", "created_at"]);
    assert_eq!(plan.rows.len(), 2);
    assert_eq!(plan.rows[1].author, "bob");
    assert_eq!(plan.rows[1].created_at, "2024-05-09 08:00:00");
    assert_eq!(plan.rows[0].link, recs[0].link);
    assert_eq!(column_titles(), plan.titles);
}

#[test]
fn spreadsheet_sink_without_records_writes_nothing() {
    let mut sink = OutputSink::for_run(true, "2024-05-03 12:00:00".to_string());
    assert!(sink.shows_wait_notice());
    for author in ["bob", "carol"] {
        let mut scan = AuthorScan::new(format!("e?author={}&state=open", author), "2024-05-03 12:00:00".to_string());
        let got = scan.take_page(PageEvent::EndOfPages);
        assert!(sink.deliver(got).is_empty());
        assert_eq!(scan.next_page_url(), None);
    }
    assert!(matches!(sink.finish(), Finish::NoData));
}

#[test]
fn scenario_alice_last_seven_days() {
    let cutoff = cutoff_text(now(), 7).unwrap();
    let p = params(Some("alice"), Some("open"), None);
    let base = QueryPullParam::url_splice(PULLS_ENDPOINT, &p, None).unwrap();
    let mut sink = OutputSink::for_run(false, cutoff.clone());
    assert!(!sink.shows_wait_notice());
    let mut scan = AuthorScan::new(base, cutoff);
    let mut printed: Vec<String> = Vec::new();
    let mut fetches = 0;
    while let Some(url) = scan.next_page_url() {
        fetches += 1;
        let ev = if url.ends_with("&page=1") {
            PageEvent::Page(vec![
                pr("alice", "2024-05-10 09:00:00"),
                pr("alice", "2024-05-09 09:00:00"),
                pr("alice", "2024-05-02 09:00:00"),
            ])
        } else {
            PageEvent::EndOfPages
        };
        printed.extend(sink.deliver(scan.take_page(ev)));
    }
    assert_eq!(fetches, 1);
    assert_eq!(printed.len(), 2);
    assert!(printed[0].ends_with("2024-05-10 09:00:00"));
    assert!(printed[1].ends_with("2024-05-09 09:00:00"));
    assert!(matches!(sink.finish(), Finish::Nothing));
}

#[test]
fn spreadsheet_sink_collects_in_order() {
    let mut sink = OutputSink::for_run(true, "2024-05-03 12:00:00".to_string());
    assert!(sink.deliver(vec![pr("bob", "2024-05-09 00:00:00")]).is_empty());
    assert!(sink.deliver(vec![pr("carol", "2024-05-08 00:00:00"), pr("carol", "2020-01-01 00:00:00")]).is_empty());
    match sink.finish() {
        Finish::Write(plan) => {
            assert_eq!(plan.file_name, "bob.xlsx");
            assert_eq!(plan.rows.len(), 2);
            assert_eq!(plan.rows[1].author, "carol");
        }
        _ => panic!("expected a sheet"),
    }
}

#[test]
fn records_after_cut_do_not_matter() {
    let cutoff = "2024-05-03 12:00:00";
    let head = || vec![pr("a", "2024-05-06 00:00:00"), pr("a", "2024-05-01 00:00:00")];
    let mut v1 = head();
    v1.push(pr("a", "2024-05-09 00:00:00"));
    let mut v2 = head();
    v2.push(pr("b", "2024-05-04 00:00:00"));
    v2.push(pr("c", "2019-01-01 00:00:00"));
    let mut s1 = AuthorScan::new("b".to_string(), cutoff.to_string());
    let mut s2 = AuthorScan::new("b".to_string(), cutoff.to_string());
    let got1 = s1.take_page(PageEvent::Page(v1));
    let got2 = s2.take_page(PageEvent::Page(v2));
    assert_eq!(got1.len(), 1);
    assert_eq!(got2.len(), 1);
    assert_eq!(got1[0].console_line(), got2[0].console_line());
    assert_eq!(s1.stopped, Some(StopReason::CutoffReached));
    assert_eq!(s2.stopped, Some(StopReason::CutoffReached));
    assert_eq!(s1.next_page_url(), None);
}
