use icedb::aggregate::{aggregate, collect, insert_number, record};
use icedb::extract::Extractor;
use icedb::model::{Ice, IceWithIssues, Issue, IssueState, Label};
use icedb::order::Rank;

fn owned(parts: &[&str]) -> Vec<String> {
    parts.iter().map(|p| p.to_string()).collect()
}

fn empty() -> Ice {
    Ice {
        backtrace: None,
        flags: None,
        ice_message: None,
        panic_message: None,
        query_stack: None,
        version: None,
    }
}

fn message(text: &str) -> Ice {
    Ice { ice_message: Some(text.to_string()), ..empty() }
}

fn issue(number: usize, state: IssueState, body: Option<&str>) -> Issue {
    Issue {
        id: number + 1000,
        number,
        state,
        title: format!("ICE #{}", number),
        body: body.map(|b| b.to_string()),
        labels: Vec::new(),
    }
}

const CRASH_A: &str = "error: internal compiler error: a.rs:1:2: boom\nquery stack during panic:\n#0 [typeck] a\nend of query stack";
const CRASH_B: &str = "error: internal compiler error: a.rs:1:2: boom\nquery stack during panic:\n#0 [typeck] b\nend of query stack";

fn permutations(items: &[Issue]) -> Vec<Vec<Issue>> {
    if items.len() <= 1 {
        return vec![items.to_vec()];
    }
    let mut all = Vec::new();
    for i in 0..items.len() {
        let mut rest = items.to_vec();
        let first = rest.remove(i);
        for mut tail in permutations(&rest) {
            let mut one = vec![first.clone()];
            one.append(&mut tail);
            all.push(one);
        }
    }
    all
}

#[test]
fn insert_number_keeps_ascending_and_unique() {
    let mut v: Vec<usize> = Vec::new();
    for n in [5, 1, 9, 5, 3, 1, 9, 0] {
        insert_number(&mut v, n);
    }
    assert_eq!(v, vec![0, 1, 3, 5, 9]);
}

#[test]
fn record_skips_empty_signatures() {
    let mut groups: Vec<IceWithIssues> = Vec::new();
    record(&mut groups, empty(), 1);
    assert!(groups.is_empty());
}

#[test]
fn record_groups_and_orders() {
    let mut groups: Vec<IceWithIssues> = Vec::new();
    record(&mut groups, message("b"), 7);
    record(&mut groups, message("a"), 9);
    record(&mut groups, message("b"), 3);
    record(&mut groups, message("c"), 1);
    record(&mut groups, message("b"), 7);
    assert_eq!(
        groups,
        vec![
            IceWithIssues { ice: message("a"), issues: vec![9] },
            IceWithIssues { ice: message("b"), issues: vec![3, 7] },
            IceWithIssues { ice: message("c"), issues: vec![1] },
        ]
    );
}

#[test]
fn collect_groups_pairs() {
    let groups = collect(vec![
        (message("x"), 2),
        (empty(), 4),
        (message("x"), 1),
        (Ice { flags: Some(owned(&["-O"])), ..empty() }, 3),
    ]);
    assert_eq!(
        groups,
        vec![
            IceWithIssues { ice: message("x"), issues: vec![1, 2] },
            IceWithIssues { ice: Ice { flags: Some(owned(&["-O"])), ..empty() }, issues: vec![3] },
        ]
    );
    assert_eq!(collect(Vec::new()), Vec::new());
}

#[test]
fn single_issue_forms_its_own_group() {
    let extractor = Extractor::new().unwrap();
    let issues = vec![issue(
        1,
        IssueState::Open,
        Some("error: internal compiler error: foo.rs:1:2: boom"),
    )];
    let groups = aggregate(&extractor, &issues);
    assert_eq!(groups, vec![IceWithIssues { ice: message("boom"), issues: vec![1] }]);
}

#[test]
fn equal_signatures_share_a_group() {
    let extractor = Extractor::new().unwrap();
    let issues = vec![
        issue(20, IssueState::Closed, Some(CRASH_A)),
        issue(10, IssueState::Open, Some(CRASH_A)),
    ];
    let groups = aggregate(&extractor, &issues);
    assert_eq!(groups.len(), 1);
    assert_eq!(groups[0].issues, vec![10, 20]);
    assert_eq!(groups[0].ice.ice_message, Some(String::from("boom")));
    assert_eq!(groups[0].ice.query_stack, Some(owned(&["#0 [typeck] a"])));
    assert!(groups[0].ice.is_strong());
}

#[test]
fn same_message_with_other_stack_is_another_group() {
    let extractor = Extractor::new().unwrap();
    let issues = vec![
        issue(1, IssueState::Open, Some(CRASH_A)),
        issue(2, IssueState::Open, Some(CRASH_B)),
    ];
    let groups = aggregate(&extractor, &issues);
    assert_eq!(groups.len(), 2);
    assert_eq!(groups[0].issues, vec![1]);
    assert_eq!(groups[1].issues, vec![2]);
    assert_eq!(groups[0].ice.ice_message, groups[1].ice.ice_message);
    assert_ne!(groups[0].ice.query_stack, groups[1].ice.query_stack);
}

#[test]
fn issues_without_evidence_are_left_out() {
    let extractor = Extractor::new().unwrap();
    let issues = vec![
        issue(1, IssueState::Open, None),
        issue(2, IssueState::Open, Some("the compiler crashed")),
        issue(3, IssueState::Open, Some(CRASH_A)),
        issue(4, IssueState::Closed, Some("")),
    ];
    let groups = aggregate(&extractor, &issues);
    assert_eq!(groups.len(), 1);
    assert_eq!(groups[0].issues, vec![3]);
    for g in &groups {
        for n in [1, 2, 4] {
            assert!(!g.issues.contains(&n));
        }
    }
    assert_eq!(aggregate(&extractor, &Vec::new()), Vec::new());
}

#[test]
fn aggregate_does_not_depend_on_the_order_of_issues() {
    let extractor = Extractor::new().unwrap();
    let issues = vec![
        issue(4, IssueState::Open, Some(CRASH_B)),
        issue(2, IssueState::Closed, Some(CRASH_A)),
        issue(9, IssueState::Open, Some("note: compiler flags: -C debuginfo=2")),
        issue(7, IssueState::Open, Some(CRASH_A)),
        issue(5, IssueState::Open, Some("nothing to see")),
    ];
    let want = aggregate(&extractor, &issues);
    assert_eq!(want.len(), 3);
    for order in permutations(&issues) {
        assert_eq!(aggregate(&extractor, &order), want);
    }
}

#[test]
fn groups_come_in_the_order_of_their_signatures() {
    let extractor = Extractor::new().unwrap();
    let issues = vec![
        issue(4, IssueState::Open, Some(CRASH_B)),
        issue(2, IssueState::Closed, Some(CRASH_A)),
        issue(9, IssueState::Open, Some("note: compiler flags: -C debuginfo=2")),
        issue(7, IssueState::Open, Some(CRASH_A)),
    ];
    let groups = aggregate(&extractor, &issues);
    for w in groups.windows(2) {
        assert_eq!(w[0].ice.rank(&w[1].ice), Rank::Before);
        assert!(w[0].ice < w[1].ice);
    }
    for g in &groups {
        assert!(!g.issues.is_empty());
        assert!(!g.ice.is_empty());
        for w in g.issues.windows(2) {
            assert!(w[0] < w[1]);
        }
    }
    let mut sorted = groups.clone();
    sorted.sort();
    assert_eq!(sorted, groups);
}

#[test]
fn issue_text_is_its_body_or_nothing() {
    assert_eq!(issue(1, IssueState::Open, None).text(), "");
    assert_eq!(issue(1, IssueState::Open, Some("abc")).text(), "abc");
}

#[test]
fn group_copy_is_equal() {
    let g = IceWithIssues { ice: message("m"), issues: vec![1, 2, 3] };
    assert_eq!(g.copy(), g);
}

#[test]
fn labels_are_found_by_name() {
    let mut it = issue(1, IssueState::Open, None);
    assert!(!it.has_label("I-ICE"));
    it.labels.push(Label { id: 1, name: String::from("T-compiler"), description: None });
    it.labels.push(Label {
        id: 2,
        name: String::from("I-ICE"),
        description: Some(String::from("Issue: The compiler panicked")),
    });
    assert!(it.has_label("I-ICE"));
    assert!(it.has_label("T-compiler"));
    assert!(!it.has_label("I-ice"));
    assert!(!it.has_label(""));
}
