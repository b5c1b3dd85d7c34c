use screen_relay::models::BrowserTab;
use screen_relay::order::{arranged, is_later, newest_first, order_by_hostname, text_before};

fn strings(items: &[&str]) -> Vec<String> {
    items.iter().map(|s| s.to_string()).collect()
}

#[test]
fn text_before_compares_byte_by_byte() {
    assert!(text_before("a", "b"));
    assert!(!text_before("b", "a"));
    assert!(!text_before("a", "a"));
    assert!(text_before("", "a"));
    assert!(!text_before("a", ""));
    assert!(!text_before("", ""));
    assert!(text_before("pc-1", "pc-10"));
    assert!(text_before("pc-10", "pc-2"));
    assert!(text_before("Z", "a"));
    assert!(text_before("z", "é"));
    for (a, b) in [("a", "b"), ("pc-10", "pc-2"), ("é", "z"), ("", ""), ("ab", "a")] {
        assert_eq!(text_before(a, b), a < b);
    }
}

#[test]
fn hostnames_are_ordered_ascending() {
    let names = strings(&["pc-2", "pc-10", "alpha", "pc-1", "Beta"]);
    assert_eq!(order_by_hostname(&names), vec![4, 2, 3, 1, 0]);
    assert_eq!(order_by_hostname(&strings(&[])), Vec::<usize>::new());
    assert_eq!(order_by_hostname(&strings(&["only"])), vec![0]);
    assert_eq!(order_by_hostname(&strings(&["a", "b", "c"])), vec![0, 1, 2]);
    assert_eq!(order_by_hostname(&strings(&["c", "b", "a"])), vec![2, 1, 0]);
}

#[test]
fn equal_hostnames_keep_their_order() {
    let names = strings(&["b", "a", "b", "a", "b"]);
    assert_eq!(order_by_hostname(&names), vec![1, 3, 0, 2, 4]);
}

#[test]
fn hostname_order_agrees_with_a_stable_sort() {
    let names = strings(&["m", "", "zz", "a", "m", "Z", "é", "a", "pc-3", "pc-12"]);
    let mut expected: Vec<usize> = (0..names.len()).collect();
    expected.sort_by(|&x, &y| names[x].cmp(&names[y]));
    assert_eq!(order_by_hostname(&names), expected);
}

#[test]
fn is_later_compares_seconds_then_nanoseconds() {
    assert!(is_later((2, 0), (1, 999)));
    assert!(is_later((1, 5), (1, 4)));
    assert!(!is_later((1, 4), (1, 4)));
    assert!(!is_later((1, 4), (1, 5)));
    assert!(!is_later((-1, 0), (0, 0)));
    assert!(is_later((i64::MAX, 0), (i64::MIN, u32::MAX)));
}

#[test]
fn violations_are_ordered_newest_first() {
    let stamps = vec![(10, 0), (30, 5), (20, 0), (30, 9), (-5, 0)];
    assert_eq!(newest_first(&stamps), vec![3, 1, 2, 0, 4]);
    assert_eq!(newest_first(&vec![]), Vec::<usize>::new());
    assert_eq!(newest_first(&vec![(7, 7)]), vec![0]);
}

#[test]
fn violations_of_one_moment_keep_their_order() {
    let stamps = vec![(5, 1), (9, 0), (5, 1), (9, 0), (5, 1)];
    assert_eq!(newest_first(&stamps), vec![1, 3, 0, 2, 4]);
    let mut expected: Vec<usize> = (0..stamps.len()).collect();
    expected.sort_by(|&x, &y| stamps[y].cmp(&stamps[x]));
    assert_eq!(newest_first(&stamps), expected);
}

#[test]
fn browser_tab_holds_its_fields() {
    let tab = BrowserTab {
        browser: "firefox".to_string(),
        title: "Exam".to_string(),
        url: "https://exam.example".to_string(),
    };
    assert_eq!(tab.browser, "firefox");
    assert_eq!(tab.title, "Exam");
    assert_eq!(tab.url, "https://exam.example");
}

#[test]
fn arranged_puts_records_in_the_given_order() {
    let records = strings(&["zero", "one", "two", "three"]);
    assert_eq!(arranged(records, &vec![2, 0, 3, 1]), Some(strings(&["two", "zero", "three", "one"])));
    assert_eq!(arranged(strings(&["a", "b"]), &vec![0, 1]), Some(strings(&["a", "b"])));
    assert_eq!(arranged(Vec::<String>::new(), &vec![]), Some(vec![]));
}

#[test]
fn arranged_refuses_what_is_no_order_of_the_list() {
    assert_eq!(arranged(strings(&["a", "b"]), &vec![0]), None);
    assert_eq!(arranged(strings(&["a", "b"]), &vec![0, 1, 1]), None);
    assert_eq!(arranged(strings(&["a", "b"]), &vec![0, 0]), None);
    assert_eq!(arranged(strings(&["a", "b"]), &vec![0, 2]), None);
    assert_eq!(arranged(strings(&["a", "b"]), &vec![1, 1]), None);
    assert_eq!(arranged(Vec::<String>::new(), &vec![0]), None);
}

#[test]
fn students_sorted_by_hostname() {
    let names = strings(&["pc-2", "alpha", "pc-1"]);
    let order = order_by_hostname(&names);
    assert_eq!(arranged(names, &order), Some(strings(&["alpha", "pc-1", "pc-2"])));
}
